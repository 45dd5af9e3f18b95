use vstd::prelude::*;

verus! {

/// Width of the display grid, in cells.
pub const WIDTH: usize = 64;

/// Height of the display grid, in cells.
pub const HEIGHT: usize = 32;

/// Number of cells in the display grid; cell `(row, col)` is stored at `row * WIDTH + col`.
pub const PIXELS: usize = 2048;

/// Whether column `j` of a sprite row is set; the most significant bit is column 0.
pub open spec fn sprite_bit(row: u8, j: int) -> bool {
    row & (0x80u8 >> (j as u8)) != 0
}

/// Whether the sprite with rows `rows`, anchored at `(x0, y0)`, has a set pixel on the
/// cell at row `r` and column `c`.
pub open spec fn sprite_covers(rows: Seq<u8>, x0: int, y0: int, r: int, c: int) -> bool {
    &&& y0 <= r < y0 + rows.len()
    &&& x0 <= c < x0 + 8
    &&& sprite_bit(rows[r - y0], c - x0)
}

/// Whether the sprite has a set pixel on grid cell `k`. Sprite pixels that would fall
/// past the right or bottom edge have no cell, so they are dropped.
pub open spec fn sprite_hits(rows: Seq<u8>, x0: int, y0: int, k: int) -> bool {
    sprite_covers(rows, x0, y0, k / (WIDTH as int), k % (WIDTH as int))
}

/// The grid after XOR-ing the sprite into it.
pub open spec fn blit(grid: Seq<bool>, rows: Seq<u8>, x0: int, y0: int) -> Seq<bool> {
    Seq::new(grid.len(), |k: int| grid[k] != sprite_hits(rows, x0, y0, k))
}

/// Whether some set sprite pixel lands on a cell that is already on.
pub open spec fn collides(grid: Seq<bool>, rows: Seq<u8>, x0: int, y0: int) -> bool {
    exists|k: int| 0 <= k < grid.len() && grid[k] && #[trigger] sprite_hits(rows, x0, y0, k)
}

/// Cells that a row-major sweep has visited once it has finished `i` sprite rows and
/// `j` columns of the next one.
spec fn swept(x0: int, y0: int, i: int, j: int, k: int) -> bool {
    let r = k / (WIDTH as int);
    let c = k % (WIDTH as int);
    ||| (y0 <= r < y0 + i && x0 <= c < x0 + 8)
    ||| (r == y0 + i && x0 <= c < x0 + j)
}

/// XORs the `n`-row sprite stored at `mem[start..start + n]` into `grid` with its top-left
/// corner at `(x0, y0)`, clipping at the grid's edges, and reports whether any lit cell
/// was turned off.
pub fn draw_sprite(grid: &mut Vec<bool>, mem: &Vec<u8>, start: usize, n: usize, x0: usize, y0: usize) -> (collided: bool)
    requires
        old(grid).len() == PIXELS,
        start + n <= mem.len(),
        x0 < WIDTH,
        y0 < HEIGHT,
    ensures
        final(grid)@ == blit(old(grid)@, mem@.subrange(start as int, start + n), x0 as int, y0 as int),
        collided == collides(old(grid)@, mem@.subrange(start as int, start + n), x0 as int, y0 as int),
{
    let ghost g0 = grid@;
    let ghost rows = mem@.subrange(start as int, start + n);
    let mut collided = false;
    let mut i: usize = 0;
    while i < n && y0 + i < HEIGHT
        invariant
            grid.len() == PIXELS,
            g0.len() == PIXELS,
            rows == mem@.subrange(start as int, start + n),
            start + n <= mem.len(),
            x0 < WIDTH,
            y0 < HEIGHT,
            i <= n,
            y0 + i <= HEIGHT,
            forall|k: int|
                0 <= k < PIXELS ==> grid@[k] == if swept(x0 as int, y0 as int, i as int, 0, k) {
                    g0[k] != sprite_hits(rows, x0 as int, y0 as int, k)
                } else {
                    g0[k]
                },
            !collided ==> forall|k: int|
                0 <= k < PIXELS && swept(x0 as int, y0 as int, i as int, 0, k) ==> !(g0[k]
                    && sprite_hits(rows, x0 as int, y0 as int, k)),
            collided ==> exists|k: int|
                0 <= k < PIXELS && swept(x0 as int, y0 as int, i as int, 0, k) && g0[k]
                    && #[trigger] sprite_hits(rows, x0 as int, y0 as int, k),
        decreases n - i,
    {
        let byte = mem[start + i];
        let mut j: usize = 0;
        while j < 8 && x0 + j < WIDTH
            invariant
                grid.len() == PIXELS,
                g0.len() == PIXELS,
                rows == mem@.subrange(start as int, start + n),
                start + n <= mem.len(),
                x0 < WIDTH,
                y0 < HEIGHT,
                i < n,
                y0 + i < HEIGHT,
                j <= 8,
                byte == rows[i as int],
                forall|k: int|
                    0 <= k < PIXELS ==> grid@[k] == if swept(x0 as int, y0 as int, i as int, j as int, k) {
                        g0[k] != sprite_hits(rows, x0 as int, y0 as int, k)
                    } else {
                        g0[k]
                    },
                !collided ==> forall|k: int|
                    0 <= k < PIXELS && swept(x0 as int, y0 as int, i as int, j as int, k) ==> !(g0[k]
                        && sprite_hits(rows, x0 as int, y0 as int, k)),
                collided ==> exists|k: int|
                    0 <= k < PIXELS && swept(x0 as int, y0 as int, i as int, j as int, k) && g0[k]
                        && #[trigger] sprite_hits(rows, x0 as int, y0 as int, k),
            decreases 8 - j,
        {
            let idx = (y0 + i) * WIDTH + x0 + j;
            assert(idx as int / (WIDTH as int) == y0 + i && idx as int % (WIDTH as int) == x0 + j);
            let cur = grid[idx];
            let lit = byte & (0x80u8 >> (j as u8)) != 0;
            assert(lit == sprite_hits(rows, x0 as int, y0 as int, idx as int));
            assert(!swept(x0 as int, y0 as int, i as int, j as int, idx as int));
            assert(cur == g0[idx as int]);
            if cur && lit {
                collided = true;
            }
            grid.set(idx, cur != lit);
            assert(swept(x0 as int, y0 as int, i as int, j + 1, idx as int));
            assert forall|k: int| 0 <= k < PIXELS && k != idx implies
                swept(x0 as int, y0 as int, i as int, j + 1, k) == swept(x0 as int, y0 as int, i as int, j as int, k) by {
                assert(k == (k / (WIDTH as int)) * (WIDTH as int) + k % (WIDTH as int));
            }
            j += 1;
        }
        assert forall|k: int| 0 <= k < PIXELS implies
            swept(x0 as int, y0 as int, i as int, j as int, k) == swept(x0 as int, y0 as int, i + 1, 0, k) by {
            assert(k % (WIDTH as int) < WIDTH);
        }
        i += 1;
    }
    assert forall|k: int| 0 <= k < PIXELS implies
        (swept(x0 as int, y0 as int, i as int, 0, k) || !sprite_hits(rows, x0 as int, y0 as int, k)) by {
        assert(k / (WIDTH as int) < HEIGHT);
    }
    assert(grid@ =~= blit(g0, rows, x0 as int, y0 as int));
    collided
}

} // verus!
