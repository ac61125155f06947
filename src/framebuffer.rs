use vstd::prelude::*;

verus! {

/// Columns of the display.
pub const WIDTH: usize = 64;

/// Rows of the display.
pub const HEIGHT: usize = 32;

/// Cells of the display, stored row by row.
pub const CELLS: usize = 2048;

/// Column of cell `k`.
pub open spec fn col_of(k: int) -> int {
    k % 64
}

/// Row of cell `k`.
pub open spec fn row_of(k: int) -> int {
    k / 64
}

/// Whether bit `col` of a sprite row is lit, counting from the most significant bit.
pub open spec fn sprite_bit(byte: u8, col: u8) -> bool {
    (byte >> (7u8 - col) as u8) & 1u8 == 1u8
}

/// Whether cell `k` lies under a sprite of `rows` rows and eight columns with its
/// top-left corner at `(ox, oy)`; the parts past the right and bottom edges are clipped.
pub open spec fn under_sprite(ox: int, oy: int, rows: int, k: int) -> bool {
    &&& 0 <= k < CELLS
    &&& ox <= col_of(k) < ox + 8
    &&& oy <= row_of(k) < oy + rows
}

/// The sprite bit that falls on cell `k`, its rows read from `memory` at `addr`.
pub open spec fn sprite_pixel(memory: Seq<u8>, addr: int, ox: int, oy: int, k: int) -> bool {
    sprite_bit(memory[addr + row_of(k) - oy], (col_of(k) - ox) as u8)
}

/// The display after XOR-compositing the sprite onto `screen`.
pub open spec fn composited(
    screen: Seq<bool>,
    memory: Seq<u8>,
    addr: int,
    ox: int,
    oy: int,
    rows: int,
) -> Seq<bool> {
    Seq::new(
        screen.len(),
        |k: int|
            if under_sprite(ox, oy, rows, k) {
                screen[k] != sprite_pixel(memory, addr, ox, oy, k)
            } else {
                screen[k]
            },
    )
}

/// Whether compositing the sprite turns off a lit cell.
pub open spec fn collides(
    screen: Seq<bool>,
    memory: Seq<u8>,
    addr: int,
    ox: int,
    oy: int,
    rows: int,
) -> bool {
    exists|k: int|
        under_sprite(ox, oy, rows, k) && #[trigger] screen[k] && sprite_pixel(
            memory,
            addr,
            ox,
            oy,
            k,
        )
}

/// The sprite rows that stay on the display: those above the bottom edge.
pub open spec fn visible_rows(oy: int, rows: int) -> int {
    if oy + rows <= HEIGHT {
        rows
    } else {
        HEIGHT - oy
    }
}

proof fn lemma_cell(x: int, y: int)
    requires
        0 <= x < 64,
        0 <= y,
    ensures
        col_of(y * 64 + x) == x,
        row_of(y * 64 + x) == y,
{
    assert((y * 64 + x) % 64 == x && (y * 64 + x) / 64 == y) by (nonlinear_arith)
        requires
            0 <= x < 64,
            0 <= y,
    ;
}

proof fn lemma_cell_unique(k: int)
    requires
        0 <= k,
    ensures
        k == row_of(k) * 64 + col_of(k),
        0 <= col_of(k) < 64,
{
}

/// XOR-composites a sprite of `rows` rows, read from `memory` at `addr`, onto the
/// display with its top-left corner at `(ox, oy)`, clipping at the edges. Returns
/// whether a lit cell was turned off.
pub fn composite(
    screen: &mut Vec<bool>,
    memory: &Vec<u8>,
    addr: usize,
    ox: usize,
    oy: usize,
    rows: usize,
) -> (collided: bool)
    requires
        old(screen)@.len() == CELLS,
        ox < WIDTH,
        oy < HEIGHT,
        rows <= 16,
        addr + visible_rows(oy as int, rows as int) <= memory@.len(),
    ensures
        final(screen)@ == composited(
            old(screen)@,
            memory@,
            addr as int,
            ox as int,
            oy as int,
            rows as int,
        ),
        collided == collides(old(screen)@, memory@, addr as int, ox as int, oy as int, rows as int),
{
    let ghost s0 = screen@;
    let ghost a = addr as int;
    let ghost x0 = ox as int;
    let ghost y0 = oy as int;
    let ghost h = rows as int;
    let vis_rows: usize = if oy + rows <= HEIGHT {
        rows
    } else {
        HEIGHT - oy
    };
    let vis_cols: usize = if ox + 8 <= WIDTH {
        8
    } else {
        WIDTH - ox
    };
    let mem_len = memory.len();
    let mut collided = false;
    let mut r: usize = 0;
    while r < vis_rows
        invariant
            screen@.len() == CELLS,
            ox < WIDTH,
            oy < HEIGHT,
            vis_rows == visible_rows(y0, h),
            oy + vis_rows <= HEIGHT,
            vis_cols <= 8,
            ox + vis_cols <= WIDTH,
            ox + vis_cols == WIDTH || vis_cols == 8,
            addr + vis_rows <= memory@.len(),
            mem_len == memory@.len(),
            s0.len() == CELLS,
            a == addr && x0 == ox && y0 == oy && h == rows,
            r <= vis_rows,
            forall|k: int|
                0 <= k < CELLS ==> #[trigger] screen@[k] == if under_sprite(x0, y0, h, k) && row_of(
                    k,
                ) < y0 + r {
                    s0[k] != sprite_pixel(memory@, a, x0, y0, k)
                } else {
                    s0[k]
                },
            collided ==> exists|k: int|
                under_sprite(x0, y0, h, k) && row_of(k) < y0 + r && #[trigger] s0[k] && sprite_pixel(
                    memory@,
                    a,
                    x0,
                    y0,
                    k,
                ),
            !collided ==> forall|k: int|
                under_sprite(x0, y0, h, k) && row_of(k) < y0 + r && #[trigger] s0[k]
                    ==> !sprite_pixel(memory@, a, x0, y0, k),
        decreases vis_rows - r,
    {
        let byte = memory[addr + r];
        let mut c: usize = 0;
        while c < vis_cols
            invariant
                screen@.len() == CELLS,
                ox < WIDTH,
                oy < HEIGHT,
                vis_rows == visible_rows(y0, h),
                oy + vis_rows <= HEIGHT,
                vis_cols <= 8,
                ox + vis_cols <= WIDTH,
                ox + vis_cols == WIDTH || vis_cols == 8,
                addr + vis_rows <= memory@.len(),
                mem_len == memory@.len(),
                s0.len() == CELLS,
                a == addr && x0 == ox && y0 == oy && h == rows,
            a == addr && x0 == ox && y0 == oy && h == rows,
            mem_len == memory@.len(),
            s0.len() == CELLS,
            a == addr && x0 == ox && y0 == oy && h == rows,
                r < vis_rows,
                c <= vis_cols,
                byte == memory@[a + r],
                forall|k: int|
                    0 <= k < CELLS ==> #[trigger] screen@[k] == if under_sprite(x0, y0, h, k) && (
                    row_of(k) < y0 + r || (row_of(k) == y0 + r && col_of(k) < x0 + c)) {
                        s0[k] != sprite_pixel(memory@, a, x0, y0, k)
                    } else {
                        s0[k]
                    },
                collided ==> exists|k: int|
                    under_sprite(x0, y0, h, k) && (row_of(k) < y0 + r || (row_of(k) == y0 + r
                        && col_of(k) < x0 + c)) && #[trigger] s0[k] && sprite_pixel(
                        memory@,
                        a,
                        x0,
                        y0,
                        k,
                    ),
                !collided ==> forall|k: int|
                    under_sprite(x0, y0, h, k) && (row_of(k) < y0 + r || (row_of(k) == y0 + r
                        && col_of(k) < x0 + c)) && #[trigger] s0[k] ==> !sprite_pixel(
                        memory@,
                        a,
                        x0,
                        y0,
                        k,
                    ),
            decreases vis_cols - c,
        {
            let k: usize = (oy + r) * WIDTH + ox + c;
            proof {
                lemma_cell((x0 + c) as int, (y0 + r) as int);
                assert forall|j: int| 0 <= j && #[trigger] row_of(j) == y0 + r && col_of(j) == x0 + c
                    implies j == k by {
                    lemma_cell_unique(j);
                }
            }
            let lit = (byte >> (7 - c) as u8) & 1u8 == 1u8;
            assert(lit == sprite_pixel(memory@, a, x0, y0, k as int));
            if lit {
                if screen[k] {
                    assert(s0[k as int]);
                    collided = true;
                }
                let old_cell = screen[k];
                screen.set(k, !old_cell);
            }
            c = c + 1;
        }
        proof {
            assert forall|k: int|
                under_sprite(x0, y0, h, k) && row_of(k) == y0 + r implies col_of(k) < x0 + c by {
                lemma_cell_unique(k);
            }
        }
        r = r + 1;
    }
    proof {
        assert forall|k: int| under_sprite(x0, y0, h, k) implies row_of(k) < y0 + r by {
            lemma_cell_unique(k);
            assert(k < 2048);
            assert(row_of(k) < 32);
        }
    }
    assert(screen@ =~= composited(s0, memory@, a, x0, y0, h));
    collided
}

} // verus!
