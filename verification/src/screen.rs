//! The framebuffer: a 64 by 32 grid of one-bit cells, drawn on by XOR.

use vstd::prelude::*;

verus! {

/// Cells per row.
pub const WIDTH: usize = 64;

/// Rows.
pub const HEIGHT: usize = 32;

/// Cells in the grid, stored row after row.
pub const CELLS: usize = 2048;

/// `cells` has one entry per cell of the grid, and each entry is 0 or 1.
pub open spec fn is_grid(cells: Seq<u8>) -> bool {
    &&& cells.len() == CELLS
    &&& forall|k: int| 0 <= k < CELLS ==> #[trigger] cells[k] == 0 || cells[k] == 1
}

/// The grid with every cell off.
pub open spec fn blank() -> Seq<u8> {
    Seq::new(CELLS as nat, |k: int| 0u8)
}

/// The cell that bit `col` of sprite row `row` lands on when the sprite is
/// drawn at (`x`, `y`). A position past the end of the grid lands on the last
/// cell; it does not wrap around.
pub open spec fn target(x: u8, y: u8, row: int, col: int) -> int {
    let k = x + col + (y + row) * 64;
    if k >= CELLS {
        CELLS - 1
    } else {
        k
    }
}

/// Whether bit `col` of the sprite row `bits` is set, counting from the most
/// significant bit.
pub open spec fn lit(bits: u8, col: u8) -> bool {
    bits & (0x80u8 >> col) != 0
}

/// `cells` with cell `k` inverted.
pub open spec fn flip(cells: Seq<u8>, k: int) -> Seq<u8> {
    cells.update(k, (1 - cells[k]) as u8)
}

/// Whether bit number `q` of `sprite` is set. Bits are numbered row by row
/// and, within a row, from the most significant bit down.
pub open spec fn bit_set(sprite: Seq<u8>, q: int) -> bool {
    lit(sprite[q / 8], (q % 8) as u8)
}

/// The cell that bit number `q` of a sprite drawn at (`x`, `y`) lands on.
pub open spec fn bit_target(x: u8, y: u8, q: int) -> int {
    target(x, y, q / 8, q % 8)
}

/// Bit number `q` of `sprite`, drawn at (`x`, `y`), is set and lands on
/// cell `k`.
pub open spec fn lands(x: u8, y: u8, sprite: Seq<u8>, q: int, k: int) -> bool {
    bit_set(sprite, q) && bit_target(x, y, q) == k
}

/// The grid, and whether a collision has occurred, after the first `p` bits
/// of `sprite` have been drawn at (`x`, `y`). A set bit inverts its target
/// cell, and collides if that cell was on at that moment.
pub open spec fn blit_upto(cells: Seq<u8>, x: u8, y: u8, sprite: Seq<u8>, p: nat) -> (
    Seq<u8>,
    bool,
)
    decreases p,
{
    if p == 0 {
        (cells, false)
    } else {
        let before = blit_upto(cells, x, y, sprite, (p - 1) as nat);
        if bit_set(sprite, p - 1) {
            let k = bit_target(x, y, p - 1);
            (flip(before.0, k), before.1 || before.0[k] == 1)
        } else {
            before
        }
    }
}

/// The grid after all of `sprite` has been drawn at (`x`, `y`), and whether
/// any bit collided.
pub open spec fn blit(cells: Seq<u8>, x: u8, y: u8, sprite: Seq<u8>) -> (Seq<u8>, bool) {
    blit_upto(cells, x, y, sprite, 8 * sprite.len())
}

/// How many of the first `p` bits of `sprite`, drawn at (`x`, `y`), are set
/// and land on cell `k`.
pub open spec fn hits_upto(x: u8, y: u8, sprite: Seq<u8>, k: int, p: nat) -> nat
    decreases p,
{
    if p == 0 {
        0
    } else if lands(x, y, sprite, p - 1, k) {
        hits_upto(x, y, sprite, k, (p - 1) as nat) + 1
    } else {
        hits_upto(x, y, sprite, k, (p - 1) as nat)
    }
}

/// How many set bits of `sprite`, drawn at (`x`, `y`), land on cell `k`.
pub open spec fn hits(x: u8, y: u8, sprite: Seq<u8>, k: int) -> nat {
    hits_upto(x, y, sprite, k, 8 * sprite.len())
}

/// Cell `k` is hit while it is on: it is hit and was on before the draw, or
/// it is hit twice.
pub open spec fn hit_while_on(cells: Seq<u8>, k: int, count: nat) -> bool {
    count >= 1 && (cells[k] == 1 || count >= 2)
}

/// Some cell is hit while it is on by the first `p` bits of `sprite`.
pub open spec fn collides_upto(cells: Seq<u8>, x: u8, y: u8, sprite: Seq<u8>, p: nat) -> bool {
    exists|k: int|
        0 <= k < CELLS && hit_while_on(cells, k, #[trigger] hits_upto(x, y, sprite, k, p))
}

/// Drawing is cell-wise: a cell ends up inverted exactly when an odd number
/// of set bits land on it, and the draw collides exactly when some cell is
/// hit while on.
pub proof fn lemma_blit_upto(cells: Seq<u8>, x: u8, y: u8, sprite: Seq<u8>, p: nat)
    requires
        is_grid(cells),
    ensures
        is_grid(blit_upto(cells, x, y, sprite, p).0),
        forall|k: int|
            0 <= k < CELLS ==> #[trigger] blit_upto(cells, x, y, sprite, p).0[k] == (cells[k]
                + hits_upto(x, y, sprite, k, p)) % 2,
        blit_upto(cells, x, y, sprite, p).1 <==> collides_upto(cells, x, y, sprite, p),
    decreases p,
{
    if p > 0 {
        let q = (p - 1) as nat;
        lemma_blit_upto(cells, x, y, sprite, q);
        let before = blit_upto(cells, x, y, sprite, q);
        let t = bit_target(x, y, p - 1);
        if collides_upto(cells, x, y, sprite, q) {
            // The cell that was hit while on still counts as one.
            let k = choose|k: int|
                0 <= k < CELLS && hit_while_on(cells, k, #[trigger] hits_upto(x, y, sprite, k, q));
            assert(hit_while_on(cells, k, hits_upto(x, y, sprite, k, p)));
        } else if bit_set(sprite, p - 1) && before.0[t] == 1 {
            // The cell just hit was on: it was on from the start, or an
            // earlier bit had switched it on.
            assert(hit_while_on(cells, t, hits_upto(x, y, sprite, t, p)));
        } else if collides_upto(cells, x, y, sprite, p) {
            // No cell was hit while on before, and the one just hit was off.
            let k = choose|k: int|
                0 <= k < CELLS && hit_while_on(cells, k, #[trigger] hits_upto(x, y, sprite, k, p));
            assert(hit_while_on(cells, k, hits_upto(x, y, sprite, k, q)) || lands(
                x,
                y,
                sprite,
                p - 1,
                k,
            ));
            assert(false);
        }
    }
}

/// A cell that is hit is where one of the set bits lands.
pub proof fn lemma_hit_has_source(x: u8, y: u8, sprite: Seq<u8>, k: int, p: nat)
    ensures
        hits_upto(x, y, sprite, k, p) >= 1 ==> exists|q: int|
            0 <= q < p && #[trigger] lands(x, y, sprite, q, k),
    decreases p,
{
    if p > 0 && !lands(x, y, sprite, p - 1, k) {
        lemma_hit_has_source(x, y, sprite, k, (p - 1) as nat);
        if hits_upto(x, y, sprite, k, p) >= 1 {
            let q = choose|q: int| 0 <= q < p - 1 && #[trigger] lands(x, y, sprite, q, k);
            assert(0 <= q < p && lands(x, y, sprite, q, k));
        }
    }
}

/// No two bits of a sprite land on the same cell, unless that cell is the
/// last one, which also receives every bit that falls past the end of the
/// grid.
pub proof fn lemma_hits_at_most_once(x: u8, y: u8, sprite: Seq<u8>, k: int, p: nat)
    requires
        0 <= k < CELLS - 1,
    ensures
        hits_upto(x, y, sprite, k, p) <= 1,
    decreases p,
{
    if p > 0 {
        lemma_hits_at_most_once(x, y, sprite, k, (p - 1) as nat);
        if lands(x, y, sprite, p - 1, k) && hits_upto(x, y, sprite, k, (p - 1) as nat) >= 1 {
            // An earlier bit with the same target would stand in the same
            // row and column as this one.
            lemma_hit_has_source(x, y, sprite, k, (p - 1) as nat);
            let q = choose|q: int| 0 <= q < p - 1 && #[trigger] lands(x, y, sprite, q, k);
            assert(q % 8 + (q / 8) * 64 == (p - 1) % 8 + ((p - 1) / 8) * 64);
            assert(false);
        }
    }
}

/// The closed form of a whole draw: each cell's new value is its old value
/// plus the number of set bits that land on it, modulo 2; the draw collides
/// exactly when some cell that is hit was on before, or is hit twice.
pub proof fn lemma_blit(cells: Seq<u8>, x: u8, y: u8, sprite: Seq<u8>)
    requires
        is_grid(cells),
    ensures
        is_grid(blit(cells, x, y, sprite).0),
        forall|k: int|
            0 <= k < CELLS ==> #[trigger] blit(cells, x, y, sprite).0[k] == (cells[k] + hits(
                x,
                y,
                sprite,
                k,
            )) % 2,
        blit(cells, x, y, sprite).1 <==> exists|k: int|
            0 <= k < CELLS && hit_while_on(cells, k, #[trigger] hits(x, y, sprite, k)),
{
    let p = 8 * sprite.len();
    lemma_blit_upto(cells, x, y, sprite, p);
    if collides_upto(cells, x, y, sprite, p) {
        let k = choose|k: int|
            0 <= k < CELLS && hit_while_on(cells, k, #[trigger] hits_upto(x, y, sprite, k, p));
        assert(hit_while_on(cells, k, hits(x, y, sprite, k)));
    }
    if exists|k: int| 0 <= k < CELLS && hit_while_on(cells, k, #[trigger] hits(x, y, sprite, k)) {
        let k = choose|k: int|
            0 <= k < CELLS && hit_while_on(cells, k, #[trigger] hits(x, y, sprite, k));
        assert(hit_while_on(cells, k, hits_upto(x, y, sprite, k, p)));
    }
}

/// Drawing the same sprite twice at the same place restores the grid: every
/// cell that the first draw switched is switched back by the second.
pub proof fn lemma_redraw_restores(cells: Seq<u8>, x: u8, y: u8, sprite: Seq<u8>)
    requires
        is_grid(cells),
    ensures
        blit(blit(cells, x, y, sprite).0, x, y, sprite).0 == cells,
{
    let once = blit(cells, x, y, sprite).0;
    lemma_blit(cells, x, y, sprite);
    lemma_blit(once, x, y, sprite);
    assert(blit(once, x, y, sprite).0 =~= cells);
}

/// Drawing `sprite` at (`x`, `y`) on `cells` leaves a mark that a second,
/// identical draw runs into: a set bit lands on a cell that is off, or two
/// set bits land on one cell.
pub open spec fn marks(cells: Seq<u8>, x: u8, y: u8, sprite: Seq<u8>) -> bool {
    exists|k: int|
        0 <= k < CELLS && #[trigger] hits(x, y, sprite, k) >= 1 && (cells[k] == 0 || hits(
            x,
            y,
            sprite,
            k,
        ) >= 2)
}

/// The second of two identical draws collides exactly when the first left a
/// mark. In particular it collides whenever a sprite with a set bit is drawn
/// twice over an area that was clear.
pub proof fn lemma_redraw_collides(cells: Seq<u8>, x: u8, y: u8, sprite: Seq<u8>)
    requires
        is_grid(cells),
    ensures
        blit(blit(cells, x, y, sprite).0, x, y, sprite).1 <==> marks(cells, x, y, sprite),
{
    let once = blit(cells, x, y, sprite).0;
    lemma_blit(cells, x, y, sprite);
    lemma_blit(once, x, y, sprite);
    if blit(once, x, y, sprite).1 {
        let k = choose|k: int|
            0 <= k < CELLS && hit_while_on(once, k, #[trigger] hits(x, y, sprite, k));
        assert(cells[k] == 0 || hits(x, y, sprite, k) >= 2);
    }
    if marks(cells, x, y, sprite) {
        let k = choose|k: int|
            0 <= k < CELLS && #[trigger] hits(x, y, sprite, k) >= 1 && (cells[k] == 0 || hits(
                x,
                y,
                sprite,
                k,
            ) >= 2);
        assert(hit_while_on(once, k, hits(x, y, sprite, k)));
    }
}

/// A set bit among the first `p` is counted as a hit on the cell it lands
/// on.
pub proof fn lemma_source_is_hit(x: u8, y: u8, sprite: Seq<u8>, q: int, p: nat)
    requires
        0 <= q < p,
        bit_set(sprite, q),
    ensures
        0 <= bit_target(x, y, q) < CELLS,
        hits_upto(x, y, sprite, bit_target(x, y, q), p) >= 1,
    decreases p,
{
    if q < p - 1 {
        lemma_source_is_hit(x, y, sprite, q, (p - 1) as nat);
    }
}

/// A sprite with a set bit, drawn twice over an area that was clear: the
/// second draw collides, and every cell that the first draw switched on is
/// off again.
pub proof fn lemma_redraw_on_clear_area(cells: Seq<u8>, x: u8, y: u8, sprite: Seq<u8>, q: int)
    requires
        is_grid(cells),
        0 <= q < 8 * sprite.len(),
        bit_set(sprite, q),
        forall|k: int| 0 <= k < CELLS && #[trigger] hits(x, y, sprite, k) >= 1 ==> cells[k] == 0,
    ensures
        blit(blit(cells, x, y, sprite).0, x, y, sprite).1,
        blit(blit(cells, x, y, sprite).0, x, y, sprite).0 == cells,
{
    lemma_source_is_hit(x, y, sprite, q, 8 * sprite.len());
    assert(hits(x, y, sprite, bit_target(x, y, q)) >= 1);
    lemma_redraw_collides(cells, x, y, sprite);
    lemma_redraw_restores(cells, x, y, sprite);
}

/// The framebuffer. It only records the grid; showing it is up to the host,
/// which samples the cells after a step that drew.
pub struct Screen {
    buffer: [u8; 2048],
}

impl View for Screen {
    type V = Seq<u8>;

    closed spec fn view(&self) -> Seq<u8> {
        self.buffer@
    }
}

impl Screen {
    #[verifier::type_invariant]
    pub open spec fn inv(&self) -> bool {
        is_grid(self@)
    }

    /// A screen with every cell off.
    pub fn new() -> (screen: Screen)
        ensures
            screen@ == blank(),
    {
        Screen { buffer: [0u8; 2048] }
    }

    /// Switches every cell off.
    pub fn clear(&mut self)
        ensures
            final(self)@ == blank(),
    {
        self.buffer = [0u8; 2048];
    }

    /// Draws `sprite`, one byte per row and eight cells per byte, with its
    /// top left corner at column `x` of row `y`, and tells whether any set
    /// bit landed on a cell that was on.
    pub fn draw_sprite(&mut self, x: u8, y: u8, sprite: &[u8]) -> (collided: bool)
        ensures
            is_grid(final(self)@),
            final(self)@ == blit(old(self)@, x, y, sprite@).0,
            collided == blit(old(self)@, x, y, sprite@).1,
    {
        let mut collided: bool = false;
        let mut i: usize = 0;
        while i < sprite.len()
            invariant
                i <= sprite@.len(),
                self@ == blit_upto(old(self)@, x, y, sprite@, (8 * i) as nat).0,
                collided == blit_upto(old(self)@, x, y, sprite@, (8 * i) as nat).1,
            decreases sprite@.len() - i,
        {
            let px: u8 = sprite[i];
            let mut j: u8 = 0;
            while j < 8
                invariant
                    j <= 8,
                    i < sprite@.len(),
                    px == sprite@[i as int],
                    self@ == blit_upto(old(self)@, x, y, sprite@, (8 * i + j) as nat).0,
                    collided == blit_upto(old(self)@, x, y, sprite@, (8 * i + j) as nat).1,
                decreases 8 - j,
            {
                proof {
                    use_type_invariant(&*self);
                }
                if px & (0x80u8 >> j) != 0 {
                    let at: usize = if i < 32 {
                        x as usize + j as usize + (y as usize + i) * 64
                    } else {
                        CELLS
                    };
                    let k: usize = if at >= CELLS {
                        CELLS - 1
                    } else {
                        at
                    };
                    let cell: u8 = self.buffer[k];
                    if cell == 1 {
                        collided = true;
                    }
                    assert(cell ^ 1 == 1 - cell) by (bit_vector)
                        requires
                            cell == 0 || cell == 1,
                    ;
                    self.buffer[k] = cell ^ 1;
                }
                j += 1;
            }
            i += 1;
        }
        proof {
            use_type_invariant(&*self);
        }
        collided
    }

    /// The cells, row after row; each is 0 or 1.
    pub fn buffer(&self) -> (cells: &[u8; 2048])
        ensures
            cells@ == self@,
            is_grid(self@),
    {
        proof {
            use_type_invariant(self);
        }
        &self.buffer
    }

    /// Whether the cell in column `x` of row `y` is on.
    pub fn pixel(&self, x: usize, y: usize) -> (on: bool)
        requires
            x < WIDTH,
            y < HEIGHT,
        ensures
            on == (self@[x + y * 64] == 1),
    {
        self.buffer[x + y * 64] == 1
    }
}

} // verus!
