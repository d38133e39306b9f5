//! The display-draw algorithm: XOR blending, collision detection, and the
//! edge-clipping rules of the `Dxyn` instruction.
//!
//! The display buffer is a row-major sequence of 64 x 32 monochrome pixels;
//! pixel (row `r`, column `c`) lives at index `r * 64 + c`. A sprite is `n`
//! rows of one byte each, drawn most significant bit first; drawing clips at
//! the right and bottom edges instead of wrapping.

use vstd::prelude::*;

verus! {

/// Numeric weight of bit `j` of a sprite byte, counting the most significant
/// bit as bit 0 (the leftmost drawn pixel).
pub open spec fn bit_weight(j: int) -> int {
    if j == 0 {
        128
    } else if j == 1 {
        64
    } else if j == 2 {
        32
    } else if j == 3 {
        16
    } else if j == 4 {
        8
    } else if j == 5 {
        4
    } else if j == 6 {
        2
    } else {
        1
    }
}

/// How many sprite rows are actually drawn: all `n` of them, unless the
/// sprite is clipped by the bottom edge of the 32-row display.
pub open spec fn spec_rows_drawn(n: int, y0: int) -> int {
    if n <= 32 - y0 {
        n
    } else {
        32 - y0
    }
}

/// Whether pixel (r, c) lies in the region a draw at (x0, y0) with `rows`
/// sprite rows touches: at most 8 pixels wide, clipped at column 64.
pub open spec fn spec_covered(x0: int, y0: int, rows: int, r: int, c: int) -> bool {
    y0 <= r < y0 + rows && x0 <= c < (if x0 + 8 <= 64 { x0 + 8 } else { 64 })
}

/// Whether the sprite bit that lands on pixel (r, c) is set. The sprite row
/// for display row `r` is the byte at `i_reg + (r - y0)`, and the bit for
/// display column `c` is bit `c - x0`, most significant first.
pub open spec fn spec_sprite_on(
    mem: Seq<u8>,
    i_reg: int,
    x0: int,
    y0: int,
    r: int,
    c: int,
) -> bool {
    (mem[i_reg + (r - y0)] as int / bit_weight(c - x0)) % 2 == 1
}

/// The display after drawing: every covered pixel whose sprite bit is set is
/// XOR-toggled, every other pixel is unchanged.
pub open spec fn spec_draw_display(
    d: Seq<bool>,
    mem: Seq<u8>,
    i_reg: int,
    x0: int,
    y0: int,
    rows: int,
) -> Seq<bool> {
    Seq::new(
        d.len(),
        |idx: int|
            {
                let r = idx / 64;
                let c = idx % 64;
                if spec_covered(x0, y0, rows, r, c) && spec_sprite_on(mem, i_reg, x0, y0, r, c) {
                    !d[idx]
                } else {
                    d[idx]
                }
            },
    )
}

/// Whether the draw collides: some set sprite bit lands on a pixel that was
/// already on (and therefore turns it off).
pub open spec fn spec_draw_collision(
    d: Seq<bool>,
    mem: Seq<u8>,
    i_reg: int,
    x0: int,
    y0: int,
    rows: int,
) -> bool {
    exists|r: int, c: int|
        #![trigger spec_covered(x0, y0, rows, r, c)]
        spec_covered(x0, y0, rows, r, c) && spec_sprite_on(mem, i_reg, x0, y0, r, c) && d[r * 64
            + c]
}

/// Whether the draw turns some pixel on: some set sprite bit lands on a
/// pixel that was off.
pub open spec fn spec_draw_lights(
    d: Seq<bool>,
    mem: Seq<u8>,
    i_reg: int,
    x0: int,
    y0: int,
    rows: int,
) -> bool {
    exists|r: int, c: int|
        #![trigger spec_covered(x0, y0, rows, r, c)]
        spec_covered(x0, y0, rows, r, c) && spec_sprite_on(mem, i_reg, x0, y0, r, c) && !d[r * 64
            + c]
}

/// Drawing the identical sprite at the identical location twice in
/// succession restores the prior display state exactly, and the second draw
/// collides exactly when the first draw turned some pixel on (the second
/// draw turns those same pixels back off).
pub proof fn lemma_draw_twice_restores(
    d: Seq<bool>,
    mem: Seq<u8>,
    i_reg: int,
    x0: int,
    y0: int,
    rows: int,
)
    requires
        d.len() == 2048,
        0 <= x0 < 64,
        0 <= y0,
        y0 + rows <= 32,
    ensures
        spec_draw_display(
            spec_draw_display(d, mem, i_reg, x0, y0, rows),
            mem,
            i_reg,
            x0,
            y0,
            rows,
        ) == d,
        spec_draw_collision(spec_draw_display(d, mem, i_reg, x0, y0, rows), mem, i_reg, x0, y0, rows)
            == spec_draw_lights(d, mem, i_reg, x0, y0, rows),
{
    let d1 = spec_draw_display(d, mem, i_reg, x0, y0, rows);
    assert forall|idx: int| 0 <= idx < 2048 implies spec_draw_display(
        d1,
        mem,
        i_reg,
        x0,
        y0,
        rows,
    )[idx] == d[idx] by {
        assert(0 <= idx / 64 && 0 <= idx % 64 < 64);
    }
    assert(spec_draw_display(d1, mem, i_reg, x0, y0, rows) =~= d);
    // A covered pixel with a set sprite bit reads inverted after the first
    // draw, so the second draw's collision witnesses are exactly the first
    // draw's lit-up witnesses.
    assert forall|r: int, c: int|
        spec_covered(x0, y0, rows, r, c) implies (spec_sprite_on(mem, i_reg, x0, y0, r, c)
        ==> d1[r * 64 + c] == !d[r * 64 + c]) by {
        assert(y0 <= r < 32 && x0 <= c < 64);
        let idx = r * 64 + c;
        assert(idx / 64 == r && idx % 64 == c);
        assert(0 <= idx < 2048);
    }
    if spec_draw_collision(d1, mem, i_reg, x0, y0, rows) {
        let (r, c) = choose|r: int, c: int|
            spec_covered(x0, y0, rows, r, c) && spec_sprite_on(mem, i_reg, x0, y0, r, c) && d1[r
                * 64 + c];
        assert(spec_covered(x0, y0, rows, r, c) && spec_sprite_on(mem, i_reg, x0, y0, r, c) && !d[r
            * 64 + c]);
    }
    if spec_draw_lights(d, mem, i_reg, x0, y0, rows) {
        let (r, c) = choose|r: int, c: int|
            spec_covered(x0, y0, rows, r, c) && spec_sprite_on(mem, i_reg, x0, y0, r, c) && !d[r
                * 64 + c];
        assert(spec_covered(x0, y0, rows, r, c) && spec_sprite_on(mem, i_reg, x0, y0, r, c) && d1[r
            * 64 + c]);
    }
}

/// Executable weight of sprite bit `j`, most significant first.
fn bit_mask(j: u8) -> (m: u8)
    requires
        j < 8,
    ensures
        m as int == bit_weight(j as int),
        m > 0,
{
    if j == 0 {
        128
    } else if j == 1 {
        64
    } else if j == 2 {
        32
    } else if j == 3 {
        16
    } else if j == 4 {
        8
    } else if j == 5 {
        4
    } else if j == 6 {
        2
    } else {
        1
    }
}

/// A draw of `rows + 1` sprite rows collides exactly when the first `rows`
/// rows collide or a set bit of the last row lands on a lit pixel.
proof fn lemma_collision_split(
    d: Seq<bool>,
    mem: Seq<u8>,
    i_reg: int,
    x0: int,
    y0: int,
    rows: int,
)
    requires
        rows >= 0,
    ensures
        spec_draw_collision(d, mem, i_reg, x0, y0, rows + 1) <==> (spec_draw_collision(
            d,
            mem,
            i_reg,
            x0,
            y0,
            rows,
        ) || exists|c: int|
            #![trigger spec_sprite_on(mem, i_reg, x0, y0, y0 + rows, c)]
            x0 <= c < (if x0 + 8 <= 64 {
                x0 + 8
            } else {
                64
            }) && spec_sprite_on(mem, i_reg, x0, y0, y0 + rows, c) && d[(y0 + rows) * 64 + c]),
{
    let lim = if x0 + 8 <= 64 {
        x0 + 8
    } else {
        64
    };
    if spec_draw_collision(d, mem, i_reg, x0, y0, rows + 1) {
        let (r, c) = choose|r: int, c: int|
            spec_covered(x0, y0, rows + 1, r, c) && spec_sprite_on(mem, i_reg, x0, y0, r, c)
                && d[r * 64 + c];
        if r < y0 + rows {
            assert(spec_covered(x0, y0, rows, r, c));
        } else {
            assert(r == y0 + rows);
            assert(spec_sprite_on(mem, i_reg, x0, y0, y0 + rows, c) && d[(y0 + rows) * 64 + c]);
        }
    }
    if spec_draw_collision(d, mem, i_reg, x0, y0, rows) {
        let (r, c) = choose|r: int, c: int|
            spec_covered(x0, y0, rows, r, c) && spec_sprite_on(mem, i_reg, x0, y0, r, c) && d[r * 64
                + c];
        assert(spec_covered(x0, y0, rows + 1, r, c));
    }
    if exists|c: int|
        #![trigger spec_sprite_on(mem, i_reg, x0, y0, y0 + rows, c)]
        x0 <= c < lim && spec_sprite_on(mem, i_reg, x0, y0, y0 + rows, c) && d[(y0 + rows) * 64
            + c] {
        let c = choose|c: int|
            x0 <= c < lim && #[trigger] spec_sprite_on(mem, i_reg, x0, y0, y0 + rows, c) && d[(y0
                + rows) * 64 + c];
        assert(spec_covered(x0, y0, rows + 1, y0 + rows, c));
    }
}

/// Draws an `n`-row sprite read from `memory` at `i_reg` onto `display` with
/// its top-left pixel at column `x0`, row `y0`. Returns whether any pixel was
/// turned from on to off.
pub fn draw_on(display: &mut Vec<bool>, memory: &Vec<u8>, i_reg: u16, x0: u8, y0: u8, n: u8) -> (col:
    bool)
    requires
        old(display).len() == 2048,
        memory.len() == 4096,
        x0 < 64,
        y0 < 32,
        n < 16,
        n > 0 ==> i_reg as int + spec_rows_drawn(n as int, y0 as int) <= 4096,
    ensures
        final(display)@ == spec_draw_display(
            old(display)@,
            memory@,
            i_reg as int,
            x0 as int,
            y0 as int,
            spec_rows_drawn(n as int, y0 as int),
        ),
        col == spec_draw_collision(
            old(display)@,
            memory@,
            i_reg as int,
            x0 as int,
            y0 as int,
            spec_rows_drawn(n as int, y0 as int),
        ),
{
    let ghost d0 = old(display)@;
    let rows: u8 = if n <= 32 - y0 {
        n
    } else {
        32 - y0
    };
    assert(rows as int == spec_rows_drawn(n as int, y0 as int));
    let mut col = false;
    let mut row: u8 = 0;
    while row < rows
        invariant
            row <= rows,
            rows as int == spec_rows_drawn(n as int, y0 as int),
            x0 < 64,
            y0 < 32,
            n < 16,
            y0 + rows <= 32,
            rows > 0 ==> i_reg as int + rows as int <= 4096,
            memory.len() == 4096,
            display@.len() == 2048,
            d0.len() == 2048,
            display@ == spec_draw_display(
                d0,
                memory@,
                i_reg as int,
                x0 as int,
                y0 as int,
                row as int,
            ),
            col == spec_draw_collision(d0, memory@, i_reg as int, x0 as int, y0 as int, row as int),
        decreases rows - row,
    {
        let ghost drow = display@;
        let ghost colrow = col;
        let yy: u8 = y0 + row;
        let sprite: u8 = memory[(i_reg + row as u16) as usize];
        assert(sprite == memory@[i_reg as int + (yy as int - y0 as int)]);
        let mut j: u8 = 0;
        while j < 8 && x0 + j < 64
            invariant
                j <= 8,
                x0 + j <= 64,
                x0 < 64,
                y0 < 32,
                yy == y0 + row,
                yy < 32,
                memory.len() == 4096,
                display@.len() == 2048,
                drow.len() == 2048,
                sprite == memory@[i_reg as int + (yy as int - y0 as int)],
                forall|idx: int|
                    0 <= idx < 2048 && !(idx / 64 == yy as int && x0 as int <= idx % 64 < x0 as int
                        + j as int) ==> display@[idx] == drow[idx],
                forall|c: int|
                    x0 as int <= c < x0 as int + j as int ==> display@[yy as int * 64 + c] == (
                    if spec_sprite_on(memory@, i_reg as int, x0 as int, y0 as int, yy as int, c) {
                        !drow[yy as int * 64 + c]
                    } else {
                        drow[yy as int * 64 + c]
                    }),
                col == (colrow || exists|c: int|
                    #![trigger spec_sprite_on(memory@, i_reg as int, x0 as int, y0 as int, yy as int, c)]
                    x0 as int <= c < x0 as int + j as int && spec_sprite_on(
                        memory@,
                        i_reg as int,
                        x0 as int,
                        y0 as int,
                        yy as int,
                        c,
                    ) && drow[yy as int * 64 + c]),
            decreases 8 - j,
        {
            let mask = bit_mask(j);
            let cc: u8 = x0 + j;
            let idx: usize = (yy as usize) * 64 + cc as usize;
            assert(idx as int == yy as int * 64 + cc as int);
            assert(idx / 64 == yy as usize && idx % 64 == cc as usize);
            if (sprite / mask) % 2 == 1 {
                assert(spec_sprite_on(
                    memory@,
                    i_reg as int,
                    x0 as int,
                    y0 as int,
                    yy as int,
                    cc as int,
                ));
                let cur = display[idx];
                if cur {
                    col = true;
                    assert(drow[yy as int * 64 + cc as int]) by {
                        assert(display@[idx as int] == drow[idx as int]);
                    }
                }
                display[idx] = !cur;
            } else {
                assert(!spec_sprite_on(
                    memory@,
                    i_reg as int,
                    x0 as int,
                    y0 as int,
                    yy as int,
                    cc as int,
                ));
            }
            j = j + 1;
        }
        // The inner loop has applied exactly sprite row `row`; extend the
        // pixel-wise picture from `row` rows to `row + 1` rows.
        proof {
            let jend = j as int;
            assert(jend == 8 || x0 as int + jend == 64);
            let lim = if x0 as int + 8 <= 64 {
                x0 as int + 8
            } else {
                64
            };
            assert(x0 as int + jend == lim);
            assert forall|idx: int| 0 <= idx < 2048 implies display@[idx] == spec_draw_display(
                d0,
                memory@,
                i_reg as int,
                x0 as int,
                y0 as int,
                row as int + 1,
            )[idx] by {
                let r = idx / 64;
                let c = idx % 64;
                assert(0 <= r < 32 && 0 <= c < 64);
                assert(idx == r * 64 + c);
                if r == yy as int {
                    assert(!spec_covered(x0 as int, y0 as int, row as int, r, c));
                    assert(drow[idx] == d0[idx]);
                } else {
                    assert(display@[idx] == drow[idx]);
                    assert(spec_covered(x0 as int, y0 as int, row as int, r, c)
                        == spec_covered(x0 as int, y0 as int, row as int + 1, r, c));
                }
            }
            assert(display@ =~= spec_draw_display(
                d0,
                memory@,
                i_reg as int,
                x0 as int,
                y0 as int,
                row as int + 1,
            ));
            lemma_collision_split(d0, memory@, i_reg as int, x0 as int, y0 as int, row as int);
            assert forall|c: int|
                #![trigger spec_sprite_on(memory@, i_reg as int, x0 as int, y0 as int, yy as int, c)]
                x0 as int <= c < lim implies drow[yy as int * 64 + c] == d0[yy as int * 64 + c] by {
                assert(!spec_covered(x0 as int, y0 as int, row as int, yy as int, c));
            }
            assert(col == spec_draw_collision(
                d0,
                memory@,
                i_reg as int,
                x0 as int,
                y0 as int,
                row as int + 1,
            ));
        }
        row = row + 1;
    }
    col
}

} // verus!
