use vstd::prelude::*;

verus! {

broadcast use vstd::array::group_array_axioms;

/// Pixel grid width in columns.
pub const GRID_WIDTH: usize = 64;

/// Pixel grid height in rows.
pub const GRID_HEIGHT: usize = 32;

/// Bit `c` (0-based from the most significant bit) of one sprite row byte,
/// as a pixel value `0` or `1`.
pub open spec fn bit_of(byte: u8, c: int) -> u8 {
    if c == 0 {
        ((byte / 128) % 2) as u8
    } else if c == 1 {
        ((byte / 64) % 2) as u8
    } else if c == 2 {
        ((byte / 32) % 2) as u8
    } else if c == 3 {
        ((byte / 16) % 2) as u8
    } else if c == 4 {
        ((byte / 8) % 2) as u8
    } else if c == 5 {
        ((byte / 4) % 2) as u8
    } else if c == 6 {
        ((byte / 2) % 2) as u8
    } else {
        (byte % 2) as u8
    }
}

/// A well-formed pixel grid: 32 rows of 64 one-bit cells.
pub open spec fn grid_wf(g: Seq<Seq<u8>>) -> bool {
    &&& g.len() == 32
    &&& forall|r: int| 0 <= r < 32 ==> (#[trigger] g[r]).len() == 64
    &&& forall|r: int, c: int| 0 <= r < 32 && 0 <= c < 64 ==> #[trigger] g[r][c] <= 1
}

/// One grid row after a sprite row byte is XOR-blitted into it starting at
/// column `x`: the eight bits of `byte` land on columns `(x + c) % 64`,
/// every other column keeps its old value.
pub open spec fn row_after_blit(row: Seq<u8>, byte: u8, x: int) -> Seq<u8> {
    Seq::new(64, |j: int|
        {
            let c = (j - x) % 64;
            if c < 8 {
                (row[j] ^ bit_of(byte, c)) as u8
            } else {
                row[j]
            }
        },
    )
}

/// Whether XOR-blitting `byte` into `row` at column `x` erases some pixel:
/// a source bit is `1` where the row already holds a `1`.
pub open spec fn row_collides(row: Seq<u8>, byte: u8, x: int) -> bool {
    exists|c: int| 0 <= c < 8 && bit_of(byte, c) == 1 && row[(x + c) % 64] == 1
}

/// The grid after the first `k` rows of sprite `s` are XOR-blitted at
/// `(x, y)`: sprite row `sr` lands on grid row `(y + sr) % 32`.  Sound for
/// sprites of at most 32 rows, where no two sprite rows share a grid row.
pub open spec fn blit_grid_prefix(g: Seq<Seq<u8>>, s: Seq<u8>, x: int, y: int, k: int) -> Seq<
    Seq<u8>,
> {
    Seq::new(32, |r: int|
        {
            let sr = (r - y) % 32;
            if sr < k {
                row_after_blit(g[r], s[sr], x)
            } else {
                g[r]
            }
        },
    )
}

/// The grid after all rows of sprite `s` are XOR-blitted at `(x, y)`.
pub open spec fn blit_grid(g: Seq<Seq<u8>>, s: Seq<u8>, x: int, y: int) -> Seq<Seq<u8>> {
    blit_grid_prefix(g, s, x, y, s.len() as int)
}

/// Whether blitting one of the first `k` rows of `s` erases some pixel of `g`.
pub open spec fn blit_collides_prefix(g: Seq<Seq<u8>>, s: Seq<u8>, x: int, y: int, k: int) -> bool {
    exists|sr: int| 0 <= sr < k && row_collides(g[(y + sr) % 32], s[sr], x)
}

/// Whether blitting sprite `s` into `g` at `(x, y)` erases some pixel:
/// the collision flag a draw call reports.
pub open spec fn blit_collides(g: Seq<Seq<u8>>, s: Seq<u8>, x: int, y: int) -> bool {
    blit_collides_prefix(g, s, x, y, s.len() as int)
}

/// The 64x32 one-bit pixel grid, row-major, with the XOR sprite blit.
pub struct GamePixels {
    pub value: [[u8; 64]; 32],
}

impl GamePixels {
    /// The grid as a sequence of rows of cells.
    pub open spec fn grid(&self) -> Seq<Seq<u8>> {
        self.value.deep_view()
    }

    pub open spec fn wf(&self) -> bool {
        grid_wf(self.grid())
    }

    pub fn new() -> (p: GamePixels)
        ensures
            p.wf(),
            forall|r: int, c: int| 0 <= r < 32 && 0 <= c < 64 ==> #[trigger] p.grid()[r][c] == 0,
    {
        let p = GamePixels { value: [[0u8; 64]; 32] };
        proof {
            assert forall|r: int, c: int|
                0 <= r < 32 && 0 <= c < 64 implies #[trigger] p.grid()[r][c] == 0 by {
                assert(p.value@[r]@[c] == 0);
            }
        }
        p
    }

    /// XOR-blits the sprite rows `bytes` into the grid starting at
    /// `start_coord`, wrapping modulo the grid size, and reports whether any
    /// already-set pixel was erased.  A sprite has at most 32 rows (the
    /// height of the grid); a taller one would wrap onto itself.
    pub fn fill_in_bytes(&mut self, bytes: &[u8], start_coord: (usize, usize)) -> (total_collision:
        bool)
        requires
            old(self).wf(),
            bytes@.len() <= 32,
        ensures
            final(self).wf(),
            final(self).grid() == blit_grid(
                old(self).grid(),
                bytes@,
                start_coord.0 as int,
                start_coord.1 as int,
            ),
            total_collision == blit_collides(
                old(self).grid(),
                bytes@,
                start_coord.0 as int,
                start_coord.1 as int,
            ),
    {
        let (x, y) = start_coord;
        let mut total_collision: bool = false;
        let mut y_idx: usize = 0;
        proof {
            assert(self.grid() =~= blit_grid_prefix(old(self).grid(), bytes@, x as int, y as int, 0));
            assert(!blit_collides_prefix(old(self).grid(), bytes@, x as int, y as int, 0));
        }
        while y_idx < bytes.len()
            invariant
                old(self).wf(),
                bytes@.len() <= 32,
                y_idx <= bytes@.len(),
                self.wf(),
                self.grid() == blit_grid_prefix(
                    old(self).grid(),
                    bytes@,
                    x as int,
                    y as int,
                    y_idx as int,
                ),
                total_collision == blit_collides_prefix(
                    old(self).grid(),
                    bytes@,
                    x as int,
                    y as int,
                    y_idx as int,
                ),
            decreases bytes@.len() - y_idx,
        {
            let byte = bytes[y_idx];
            let cur_y = (y % 32 + y_idx) % 32;
            proof {
                lemma_target_row(y as int, y_idx as int);
                lemma_untouched_row(old(self).grid(), bytes@, x as int, y as int, y_idx as int);
            }
            let row_collision = self.blit_row(cur_y, byte, x);
            total_collision = total_collision || row_collision;
            proof {
                lemma_prefix_step(old(self).grid(), bytes@, x as int, y as int, y_idx as int);
            }
            y_idx = y_idx + 1;
        }
        total_collision
    }

    /// XOR-blits one sprite row byte into grid row `cur_y` starting at
    /// column `x`, and reports whether a set pixel of that row was erased.
    fn blit_row(&mut self, cur_y: usize, byte: u8, x: usize) -> (collision: bool)
        requires
            old(self).wf(),
            cur_y < 32,
        ensures
            final(self).wf(),
            final(self).grid() == old(self).grid().update(
                cur_y as int,
                row_after_blit(old(self).grid()[cur_y as int], byte, x as int),
            ),
            collision == row_collides(old(self).grid()[cur_y as int], byte, x as int),
    {
        let mut row: [u8; 64] = self.value[cur_y];
        let ghost row0 = old(self).grid()[cur_y as int];
        proof {
            assert(row@ =~= row0);
        }
        let mut collision: bool = false;
        let x0 = x % 64;
        let mut x_idx: usize = 0;
        while x_idx < 8
            invariant
                x_idx <= 8,
                x0 == x % 64,
                row0.len() == 64,
                forall|c: int| 0 <= c < 64 ==> #[trigger] row0[c] <= 1,
                row@.len() == 64,
                forall|j: int|
                    0 <= j < 64 ==> #[trigger] row@[j] == ({
                        let c = (j - x) % 64;
                        if c < x_idx {
                            (row0[j] ^ bit_of(byte, c)) as u8
                        } else {
                            row0[j]
                        }
                    }),
                collision == exists|c: int|
                    0 <= c < x_idx && bit_of(byte, c) == 1 && row0[#[trigger] ((x + c) % 64)]
                        == 1,
            decreases 8 - x_idx,
        {
            let cur_x = (x0 + x_idx) % 64;
            proof {
                lemma_target_col(x as int, x_idx as int);
                assert((cur_x - x) % 64 == x_idx);
            }
            let color = sprite_bit(byte, x_idx);
            let curr_val = row[cur_x];
            proof {
                assert(curr_val == row0[cur_x as int]);
                lemma_pixel_xor(color, curr_val);
            }
            let ghost prev_coll = collision;
            if (color & curr_val) == 1 {
                collision = true;
            }
            row[cur_x] = curr_val ^ color;
            proof {
                assert forall|j: int|
                    0 <= j < 64 && #[trigger] ((j - x as int) % 64) == x_idx as int implies j
                    == cur_x as int by {
                    lemma_col_of_offset(x as int, j);
                }
                if collision {
                    if prev_coll {
                        let c = choose|c: int|
                            0 <= c < x_idx && bit_of(byte, c) == 1 && row0[#[trigger] ((x + c)
                                % 64)] == 1;
                        assert(0 <= c < x_idx + 1 && bit_of(byte, c) == 1 && row0[(x + c) % 64]
                            == 1);
                    } else {
                        assert(bit_of(byte, x_idx as int) == 1 && row0[(x as int
                            + x_idx as int) % 64] == 1);
                        assert(0 <= x_idx && x_idx < x_idx + 1);
                    }
                    assert(exists|c: int|
                        0 <= c < x_idx + 1 && bit_of(byte, c) == 1 && row0[#[trigger] ((x + c)
                            % 64)] == 1);
                } else {
                    assert forall|c: int|
                        0 <= c < x_idx + 1 implies !(bit_of(byte, c) == 1 && row0[#[trigger] ((x
                        + c) % 64)] == 1) by {
                        if c == x_idx as int {
                            assert((x + c) % 64 == cur_x as int);
                            assert(!((color & curr_val) == 1));
                        }
                    }
                }
            }
            x_idx = x_idx + 1;
        }
        self.value[cur_y] = row;
        proof {
            assert(row@ =~= row_after_blit(row0, byte, x as int));
            assert forall|j: int| 0 <= j < 64 implies #[trigger] row_after_blit(
                row0,
                byte,
                x as int,
            )[j] <= 1 by {
                let c = (j - x as int) % 64;
                if c < 8 {
                    lemma_pixel_xor(row0[j], bit_of(byte, c));
                }
            }
            assert(row.deep_view() =~= row_after_blit(row0, byte, x as int));
            assert(self.grid() =~= old(self).grid().update(
                cur_y as int,
                row_after_blit(row0, byte, x as int),
            ));
        }
        collision
    }

    pub fn clear(&mut self)
        ensures
            final(self).wf(),
            forall|r: int, c: int|
                0 <= r < 32 && 0 <= c < 64 ==> #[trigger] final(self).grid()[r][c] == 0,
    {
        *self = GamePixels::new();
    }
}

/// Bit `c` of a sprite row byte, extracted the executable way.
fn sprite_bit(byte: u8, c: usize) -> (b: u8)
    requires
        c < 8,
    ensures
        b == bit_of(byte, c as int),
        b <= 1,
{
    let b = ((byte as u32 >> (7 - c) as u32) & 1) as u8;
    proof {
        lemma_sprite_bit(byte, c as u32);
    }
    b
}

/// Shifting out bit `c` (from the most significant end) agrees with the
/// arithmetic definition `bit_of`.
proof fn lemma_sprite_bit(byte: u8, c: u32)
    requires
        c < 8,
    ensures
        ((byte as u32 >> (7 - c) as u32) & 1) as u8 == bit_of(byte, c as int),
        ((byte as u32 >> (7 - c) as u32) & 1) <= 1,
{
    assert(((byte as u32 >> ((7 - c) as u32)) & 1) == if c == 0 {
        (byte / 128) % 2
    } else if c == 1 {
        (byte / 64) % 2
    } else if c == 2 {
        (byte / 32) % 2
    } else if c == 3 {
        (byte / 16) % 2
    } else if c == 4 {
        (byte / 8) % 2
    } else if c == 5 {
        (byte / 4) % 2
    } else if c == 6 {
        (byte / 2) % 2
    } else {
        byte % 2
    }) by (bit_vector)
        requires
            c < 8,
    ;
}

/// XOR on one-bit pixel values: the result is one-bit, an erase happens
/// exactly when both bits are set, and the masked test `(a & b) == 1`
/// detects it.
proof fn lemma_pixel_xor(a: u8, b: u8)
    requires
        a <= 1,
        b <= 1,
    ensures
        (a ^ b) <= 1,
        ((a & b) == 1) <==> (a == 1 && b == 1),
{
    assert((a ^ b) <= 1 && (((a & b) == 1) <==> (a == 1 && b == 1))) by (bit_vector)
        requires
            a <= 1 && b <= 1,
    ;
}

/// Sprite row `sr` of a draw at row `y` lands on grid row `(y + sr) % 32`,
/// and that row looks back at `sr`: for `sr < 32` the offset of the target
/// row from `y` is `sr` itself.
proof fn lemma_target_row(y: int, sr: int)
    requires
        0 <= y,
        0 <= sr < 32,
    ensures
        ((y % 32 + sr) % 32) == ((y + sr) % 32),
        (((y + sr) % 32) - y) % 32 == sr,
{
    let m = 32int;
    vstd::arithmetic::div_mod::lemma_add_mod_noop(y % m, sr, m);
    vstd::arithmetic::div_mod::lemma_add_mod_noop(y, sr, m);
    vstd::arithmetic::div_mod::lemma_mod_twice(y, m);
    vstd::arithmetic::div_mod::lemma_small_mod(sr as nat, m as nat);
    vstd::arithmetic::div_mod::lemma_sub_mod_noop((y + sr) % m, y, m);
    vstd::arithmetic::div_mod::lemma_mod_twice(y + sr, m);
    assert(((y + sr) % m - y) % m == ((y + sr) % m % m - y % m) % m);
    assert(((y + sr) % m % m - y % m) % m == ((y + sr) - y) % m);
    assert((y + sr - y) % m == sr % m);
}

/// The same fact for columns: bit `c` of a draw at column `x` lands on
/// column `(x + c) % 64`, whose offset from `x` is `c` itself.
proof fn lemma_target_col(x: int, c: int)
    requires
        0 <= x,
        0 <= c < 64,
    ensures
        ((x % 64 + c) % 64) == ((x + c) % 64),
        (((x + c) % 64) - x) % 64 == c,
{
    let m = 64int;
    vstd::arithmetic::div_mod::lemma_add_mod_noop(x % m, c, m);
    vstd::arithmetic::div_mod::lemma_add_mod_noop(x, c, m);
    vstd::arithmetic::div_mod::lemma_mod_twice(x, m);
    vstd::arithmetic::div_mod::lemma_small_mod(c as nat, m as nat);
    vstd::arithmetic::div_mod::lemma_sub_mod_noop((x + c) % m, x, m);
    vstd::arithmetic::div_mod::lemma_mod_twice(x + c, m);
    assert(((x + c) % m - x) % m == ((x + c) % m % m - x % m) % m);
    assert(((x + c) % m % m - x % m) % m == ((x + c) - x) % m);
    assert((x + c - x) % m == c % m);
}

/// A grid row `r` is the target of at most one sprite row: recovering the
/// offset `(r - y) % 32` and adding it back to `y` returns to `r`.
proof fn lemma_row_of_offset(y: int, r: int)
    requires
        0 <= y,
        0 <= r < 32,
    ensures
        (y + (r - y) % 32) % 32 == r,
{
    let m = 32int;
    vstd::arithmetic::div_mod::lemma_add_mod_noop(y, (r - y) % m, m);
    vstd::arithmetic::div_mod::lemma_mod_twice(r - y, m);
    vstd::arithmetic::div_mod::lemma_add_mod_noop(y, r - y, m);
    assert((y % m + (r - y) % m % m) % m == (y + (r - y) % m) % m);
    assert((y % m + (r - y) % m) % m == (y + (r - y)) % m);
    vstd::arithmetic::div_mod::lemma_small_mod(r as nat, m as nat);
}

/// The column version: a grid column `j` is covered by at most one bit of
/// a sprite row.
proof fn lemma_col_of_offset(x: int, j: int)
    requires
        0 <= x,
        0 <= j < 64,
    ensures
        (x + (j - x) % 64) % 64 == j,
{
    let m = 64int;
    vstd::arithmetic::div_mod::lemma_add_mod_noop(x, (j - x) % m, m);
    vstd::arithmetic::div_mod::lemma_mod_twice(j - x, m);
    vstd::arithmetic::div_mod::lemma_add_mod_noop(x, j - x, m);
    assert((x % m + (j - x) % m % m) % m == (x + (j - x) % m) % m);
    assert((x % m + (j - x) % m) % m == (x + (j - x)) % m);
    vstd::arithmetic::div_mod::lemma_small_mod(j as nat, m as nat);
}

/// While the first `k` sprite rows have been blitted, the target row of
/// sprite row `k` itself is still untouched.
proof fn lemma_untouched_row(g: Seq<Seq<u8>>, s: Seq<u8>, x: int, y: int, k: int)
    requires
        grid_wf(g),
        0 <= y,
        s.len() <= 32,
        0 <= k < s.len(),
    ensures
        blit_grid_prefix(g, s, x, y, k)[(y + k) % 32] == g[(y + k) % 32],
{
    let r = (y + k) % 32;
    lemma_target_row(y, k);
    vstd::arithmetic::div_mod::lemma_mod_bound(y + k, 32);
    assert((r - y) % 32 == k);
}

/// Blitting sprite row `k` on top of the first `k` rows yields the first
/// `k + 1` rows: one step of the outer draw loop.
proof fn lemma_prefix_step(g: Seq<Seq<u8>>, s: Seq<u8>, x: int, y: int, k: int)
    requires
        grid_wf(g),
        0 <= y,
        s.len() <= 32,
        0 <= k < s.len(),
    ensures
        blit_grid_prefix(g, s, x, y, k).update(
            (y + k) % 32,
            row_after_blit(blit_grid_prefix(g, s, x, y, k)[(y + k) % 32], s[k], x),
        ) == blit_grid_prefix(g, s, x, y, k + 1),
        (blit_collides_prefix(g, s, x, y, k) || row_collides(
            blit_grid_prefix(g, s, x, y, k)[(y + k) % 32],
            s[k],
            x,
        )) == blit_collides_prefix(g, s, x, y, k + 1),
{
    let rk = (y + k) % 32;
    lemma_untouched_row(g, s, x, y, k);
    lemma_target_row(y, k);
    vstd::arithmetic::div_mod::lemma_mod_bound(y + k, 32);
    assert forall|r: int| 0 <= r < 32 implies #[trigger] blit_grid_prefix(g, s, x, y, k).update(
        rk,
        row_after_blit(g[rk], s[k], x),
    )[r] == blit_grid_prefix(g, s, x, y, k + 1)[r] by {
        vstd::arithmetic::div_mod::lemma_mod_bound(r - y, 32);
        if r != rk {
            if (r - y) % 32 == k {
                lemma_row_of_offset(y, r);
                assert(r == (y + k) % 32);
            }
            assert((r - y) % 32 != k);
        }
    }
    assert(blit_grid_prefix(g, s, x, y, k).update(rk, row_after_blit(g[rk], s[k], x))
        =~= blit_grid_prefix(g, s, x, y, k + 1));
    if blit_collides_prefix(g, s, x, y, k) {
        let sr = choose|sr: int| 0 <= sr < k && row_collides(g[(y + sr) % 32], s[sr], x);
        assert(0 <= sr < k + 1 && row_collides(g[(y + sr) % 32], s[sr], x));
    }
    if row_collides(g[rk], s[k], x) {
        assert(0 <= k < k + 1 && row_collides(g[(y + k) % 32], s[k], x));
    }
    if blit_collides_prefix(g, s, x, y, k + 1) {
        let sr = choose|sr: int| 0 <= sr < k + 1 && row_collides(g[(y + sr) % 32], s[sr], x);
        if sr < k {
            assert(blit_collides_prefix(g, s, x, y, k));
        } else {
            assert(row_collides(g[rk], s[k], x));
        }
    }
}

/// XOR is its own inverse on pixel values, and XOR with a set bit flips a
/// one-bit pixel.
proof fn lemma_xor_cancel(a: u8, b: u8)
    ensures
        ((a ^ b) ^ b) == a,
        a <= 1 ==> ((a ^ 1) == 1 - a),
{
    assert(((a ^ b) ^ b) == a && (a <= 1 ==> (a ^ 1) == (1 - a) as u8)) by (bit_vector);
}

/// One row blitted twice with the same byte at the same column is restored.
proof fn lemma_row_blit_twice(row: Seq<u8>, byte: u8, x: int)
    requires
        row.len() == 64,
    ensures
        row_after_blit(row_after_blit(row, byte, x), byte, x) == row,
{
    assert forall|j: int| 0 <= j < 64 implies #[trigger] row_after_blit(
        row_after_blit(row, byte, x),
        byte,
        x,
    )[j] == row[j] by {
        let c = (j - x) % 64;
        if c < 8 {
            lemma_xor_cancel(row[j], bit_of(byte, c));
        }
    }
    assert(row_after_blit(row_after_blit(row, byte, x), byte, x) =~= row);
}

/// Drawing the same sprite twice at the same coordinates, with no other
/// writes in between, restores the grid to its prior state: the XOR blit is
/// its own inverse.  And the second call reports a collision exactly when
/// the first call turned some pixel on — a sprite bit that landed on an
/// off pixel — since every such pixel is still covered and set when the
/// second call erases it.
pub proof fn lemma_draw_twice_restores(g: Seq<Seq<u8>>, s: Seq<u8>, x: int, y: int)
    requires
        grid_wf(g),
        s.len() <= 32,
        0 <= x,
        0 <= y,
    ensures
        blit_grid(blit_grid(g, s, x, y), s, x, y) == g,
        blit_collides(blit_grid(g, s, x, y), s, x, y) <==> (exists|sr: int, c: int|
            0 <= sr < s.len() && 0 <= c < 8 && #[trigger] bit_of(s[sr], c) == 1 && g[(y + sr)
                % 32][#[trigger] ((x + c) % 64)] == 0),
{
    let g1 = blit_grid(g, s, x, y);
    let n = s.len() as int;
    assert forall|r: int| 0 <= r < 32 implies #[trigger] blit_grid(g1, s, x, y)[r] == g[r] by {
        let sr = (r - y) % 32;
        vstd::arithmetic::div_mod::lemma_mod_bound(r - y, 32);
        if sr < n {
            assert(g1[r] == row_after_blit(g[r], s[sr], x));
            lemma_row_blit_twice(g[r], s[sr], x);
        }
    }
    assert(blit_grid(g1, s, x, y) =~= g);
    if blit_collides(g1, s, x, y) {
        let sr = choose|sr: int| 0 <= sr < n && row_collides(g1[(y + sr) % 32], s[sr], x);
        let rk = (y + sr) % 32;
        lemma_target_row(y, sr);
        vstd::arithmetic::div_mod::lemma_mod_bound(y + sr, 32);
        assert(g1[rk] == row_after_blit(g[rk], s[sr], x));
        let c = choose|c: int|
            0 <= c < 8 && bit_of(s[sr], c) == 1 && g1[rk][#[trigger] ((x + c) % 64)] == 1;
        let j = (x + c) % 64;
        lemma_target_col(x, c);
        vstd::arithmetic::div_mod::lemma_mod_bound(x + c, 64);
        assert(g1[rk][j] == (g[rk][j] ^ bit_of(s[sr], c)));
        lemma_xor_cancel(g[rk][j], 0);
        assert(g[rk][j] <= 1);
        assert((g[rk][j] ^ 1) == 1 - g[rk][j]) by {
            lemma_xor_cancel(g[rk][j], 1);
        }
        assert(g[rk][j] == 0);
    }
    if exists|sr: int, c: int|
        0 <= sr < s.len() && 0 <= c < 8 && #[trigger] bit_of(s[sr], c) == 1 && g[(y + sr)
            % 32][#[trigger] ((x + c) % 64)] == 0 {
        let (sr, c) = choose|sr: int, c: int|
            0 <= sr < s.len() && 0 <= c < 8 && #[trigger] bit_of(s[sr], c) == 1 && g[(y + sr)
                % 32][#[trigger] ((x + c) % 64)] == 0;
        let rk = (y + sr) % 32;
        let j = (x + c) % 64;
        lemma_target_row(y, sr);
        lemma_target_col(x, c);
        vstd::arithmetic::div_mod::lemma_mod_bound(y + sr, 32);
        vstd::arithmetic::div_mod::lemma_mod_bound(x + c, 64);
        assert(g1[rk] == row_after_blit(g[rk], s[sr], x));
        assert(g1[rk][j] == (g[rk][j] ^ bit_of(s[sr], c)));
        assert((g[rk][j] ^ 1) == 1 - g[rk][j]) by {
            lemma_xor_cancel(g[rk][j], 1);
        }
        assert(g1[rk][j] == 1);
        assert(row_collides(g1[rk], s[sr], x));
        assert(blit_collides(g1, s, x, y));
    }
}

/// A draw-call consumer: renders sprite bytes into its pixel state and
/// reports collisions; `grid()` is the abstract pixel state the contract
/// speaks of.
pub trait Drawable {
    spec fn grid(&self) -> Seq<Seq<u8>>;

    spec fn wf(&self) -> bool;

    /// Renders the binary representation of `bytes` starting at
    /// `start_coord`, wrapping at the display edges, by the XOR blit;
    /// returns true exactly when a set pixel was erased.
    fn draw_at(&mut self, bytes: &[u8], start_coord: (usize, usize)) -> (collided: bool)
        requires
            old(self).wf(),
            bytes@.len() <= 32,
        ensures
            final(self).wf(),
            final(self).grid() == blit_grid(
                old(self).grid(),
                bytes@,
                start_coord.0 as int,
                start_coord.1 as int,
            ),
            collided == blit_collides(
                old(self).grid(),
                bytes@,
                start_coord.0 as int,
                start_coord.1 as int,
            ),
    ;

    /// Sets every pixel to zero.
    fn clear(&mut self)
        requires
            old(self).wf(),
        ensures
            final(self).wf(),
            forall|r: int, c: int|
                0 <= r < 32 && 0 <= c < 64 ==> #[trigger] final(self).grid()[r][c] == 0,
    ;
}

impl Drawable for GamePixels {
    open spec fn grid(&self) -> Seq<Seq<u8>> {
        self.value.deep_view()
    }

    open spec fn wf(&self) -> bool {
        grid_wf(self.value.deep_view())
    }

    fn draw_at(&mut self, bytes: &[u8], start_coord: (usize, usize)) -> (collided: bool) {
        self.fill_in_bytes(bytes, start_coord)
    }

    fn clear(&mut self) {
        GamePixels::clear(self)
    }
}

} // verus!
