use vstd::prelude::*;
use crate::lcg::{lcg_bits, lcg_step, WorldRng};
use crate::rng::{draw_bits, lemma_draw_bits_bound, range_i32_value, xorshift, Rng};
use crate::rounding::lemma_range_within;

verus! {

/// Absolute value over the integers.
pub open spec fn abs_int(x: int) -> int {
    if x < 0 { -x } else { x }
}

/// Hex distance from the origin of the axial cell `(q, r)`:
/// `max(|q|, |r|, |q + r|)`.
pub open spec fn hex_dist_spec(q: int, r: int) -> int {
    let a = abs_int(q);
    let b = abs_int(r);
    let c = abs_int(q + r);
    if a >= b && a >= c { a } else if b >= c { b } else { c }
}

/// Hex distance of the axial cell `(q, r)` from the origin.
pub fn hex_dist(q: i32, r: i32) -> (d: i32)
    requires
        q > i32::MIN,
        r > i32::MIN,
        i32::MIN < q + r <= i32::MAX,
    ensures
        d == hex_dist_spec(q as int, r as int),
{
    let aq = if q < 0 { -q } else { q };
    let ar = if r < 0 { -r } else { r };
    let s = q + r;
    let asum = if s < 0 { -s } else { s };
    let m = if aq >= ar { aq } else { ar };
    if m >= asum { m } else { asum }
}


/// The cell that one respawn attempt draws from generator state `s`: two
/// draws of `range_i32(-3, 4)`, first `q`, then `r`.
pub open spec fn respawn_attempt(s: u64) -> (int, int) {
    (range_i32_value(draw_bits(s) as int, -3, 4), range_i32_value(draw_bits(xorshift(s)) as int, -3, 4))
}

/// An attempt is kept when its cell lies one to three steps from the centre.
pub open spec fn respawn_accepts(s: u64) -> bool {
    let (q, r) = respawn_attempt(s);
    1 <= hex_dist_spec(q, r) <= 3
}

/// The generator state after `n` respawn attempts (two draws each).
pub open spec fn after_attempts(s: u64, n: nat) -> u64
    decreases n,
{
    if n == 0 {
        s
    } else {
        xorshift(xorshift(after_attempts(s, (n - 1) as nat)))
    }
}

/// Draws cells until one lies one to three steps from the centre and returns
/// it: the first accepted attempt, with the generator left just after it.
/// The loop ends only if some attempt is accepted, which `requires` states.
pub fn respawn_cell(rng: &mut Rng) -> (cell: (i32, i32))
    requires
        exists|n: nat| respawn_accepts(#[trigger] after_attempts(old(rng).state(), n)),
    ensures
        exists|n: nat|
            {
                &&& forall|m: nat| m < n ==> !respawn_accepts(#[trigger] after_attempts(old(rng).state(), m))
                &&& respawn_accepts(after_attempts(old(rng).state(), n))
                &&& (cell.0 as int, cell.1 as int) == respawn_attempt(#[trigger] after_attempts(old(rng).state(), n))
                &&& final(rng).state() == after_attempts(old(rng).state(), n + 1)
            },
        1 <= hex_dist_spec(cell.0 as int, cell.1 as int) <= 3,
{
    let ghost s0 = rng.state();
    let ghost n0 = choose|n: nat| respawn_accepts(#[trigger] after_attempts(s0, n));
    let ghost mut i: nat = 0;
    loop
        invariant
            rng.state() == after_attempts(s0, i),
            forall|m: nat| m < i ==> !respawn_accepts(#[trigger] after_attempts(s0, m)),
            respawn_accepts(after_attempts(s0, n0)),
            i <= n0,
            s0 == old(rng).state(),
        decreases n0 - i,
    {
        let ghost s = rng.state();
        proof {
            lemma_draw_bits_bound(s);
            lemma_draw_bits_bound(xorshift(s));
            lemma_range_within(draw_bits(s) as int, -3, 4);
            lemma_range_within(draw_bits(xorshift(s)) as int, -3, 4);
        }
        let q = rng.range_i32(-3, 4);
        let r = rng.range_i32(-3, 4);
        let d = hex_dist(q, r);
        if 1 <= d && d <= 3 {
            assert(after_attempts(s0, i + 1) == xorshift(xorshift(after_attempts(s0, i))));
            return (q, r);
        }
        proof {
            assert(!respawn_accepts(after_attempts(s0, i)));
            assert(i != n0);
            i = i + 1;
            assert(after_attempts(s0, i) == xorshift(xorshift(after_attempts(s0, (i - 1) as nat))));
        }
    }
}

/// The cell that one respawn attempt of the world generator draws from
/// state `s`: `range(0, 7) - 3` twice, first `q`, then `r`.
pub open spec fn world_attempt(s: u64) -> (int, int) {
    (lcg_bits(s) % 7 - 3, lcg_bits(lcg_step(s)) % 7 - 3)
}

/// A world attempt is kept when its cell lies one to three steps from the
/// centre.
pub open spec fn world_accepts(s: u64) -> bool {
    let (q, r) = world_attempt(s);
    1 <= hex_dist_spec(q, r) <= 3
}

/// The world generator state after `n` respawn attempts.
pub open spec fn world_after_attempts(s: u64, n: nat) -> u64
    decreases n,
{
    if n == 0 {
        s
    } else {
        lcg_step(lcg_step(world_after_attempts(s, (n - 1) as nat)))
    }
}

/// The world generator's respawn draw: the first accepted attempt, with the
/// generator left just after it. The loop ends only if some attempt is
/// accepted, which `requires` states.
pub fn respawn_cell_world(rng: &mut WorldRng) -> (cell: (i32, i32))
    requires
        exists|n: nat| world_accepts(#[trigger] world_after_attempts(old(rng).state(), n)),
    ensures
        exists|n: nat|
            {
                &&& forall|m: nat| m < n ==> !world_accepts(#[trigger] world_after_attempts(old(rng).state(), m))
                &&& world_accepts(world_after_attempts(old(rng).state(), n))
                &&& (cell.0 as int, cell.1 as int) == world_attempt(#[trigger] world_after_attempts(old(rng).state(), n))
                &&& final(rng).state() == world_after_attempts(old(rng).state(), n + 1)
            },
        1 <= hex_dist_spec(cell.0 as int, cell.1 as int) <= 3,
{
    let ghost s0 = rng.state();
    let ghost n0 = choose|n: nat| world_accepts(#[trigger] world_after_attempts(s0, n));
    let ghost mut i: nat = 0;
    loop
        invariant
            rng.state() == world_after_attempts(s0, i),
            forall|m: nat| m < i ==> !world_accepts(#[trigger] world_after_attempts(s0, m)),
            world_accepts(world_after_attempts(s0, n0)),
            i <= n0,
            s0 == old(rng).state(),
        decreases n0 - i,
    {
        let q = rng.range(0, 7) as i32 - 3;
        let r = rng.range(0, 7) as i32 - 3;
        let d = hex_dist(q, r);
        if 1 <= d && d <= 3 {
            assert(world_after_attempts(s0, i + 1) == lcg_step(lcg_step(world_after_attempts(s0, i))));
            return (q, r);
        }
        proof {
            assert(!world_accepts(world_after_attempts(s0, i)));
            assert(i != n0);
            i = i + 1;
            assert(world_after_attempts(s0, i) == lcg_step(lcg_step(world_after_attempts(s0, (i - 1) as nat))));
        }
    }
}


/// What the arena puts on a cell: a wall on the outer ring, otherwise one of
/// two floor shades in a checkerboard.
#[derive(Clone, Copy, PartialEq, Eq, Structural, Debug)]
pub enum Tile {
    Wall,
    FloorA,
    FloorB,
}

/// One arena cell: axial coordinates and what stands there.
#[derive(Clone, Copy, PartialEq, Eq, Structural, Debug)]
pub struct Cell {
    pub q: i32,
    pub r: i32,
    pub tile: Tile,
}

/// The tile of cell `(q, r)` in an arena of the given radius.
pub open spec fn tile_of(q: int, r: int, radius: int) -> Tile {
    if hex_dist_spec(q, r) == radius {
        Tile::Wall
    } else if (q + r) % 2 == 0 {
        Tile::FloorA
    } else {
        Tile::FloorB
    }
}

/// Cell `a` comes before cell `b`: by `q`, then by `r`.
pub open spec fn cell_before(a: Cell, b: Cell) -> bool {
    a.q < b.q || (a.q == b.q && a.r < b.r)
}

/// Number of cells in the rows `q' < q` of an arena of the given radius.
pub open spec fn cells_before(q: int, radius: int) -> int
    decreases q + radius,
{
    if q <= -radius {
        0
    } else {
        cells_before(q - 1, radius) + 2 * radius + 1 - abs_int(q - 1)
    }
}

/// Closed form of `cells_before`, doubled.
proof fn lemma_cells_before(q: int, radius: int)
    requires
        radius >= 0,
        -radius <= q <= radius + 1,
    ensures
        q <= 1 ==> 2 * cells_before(q, radius) == 2 * (q + radius) * (radius + 1) + (q + radius) * (
        q + radius - 1),
        q >= 1 ==> 2 * cells_before(q, radius) == 2 * (radius + 1) * (radius + 1) + (radius + 1)
            * radius + 2 * (q - 1) * (2 * radius + 1) - (q - 1) * q,
    decreases q + radius,
{
    if q > -radius {
        lemma_cells_before(q - 1, radius);
        let c = cells_before(q - 1, radius);
        assert(cells_before(q, radius) == c + 2 * radius + 1 - abs_int(q - 1));
        if q <= 1 {
            assert(2 * (c + 2 * radius + 1 - abs_int(q - 1)) == 2 * (q + radius) * (radius + 1) + (q
                + radius) * (q + radius - 1)) by (nonlinear_arith)
                requires
                    2 * c == 2 * (q - 1 + radius) * (radius + 1) + (q - 1 + radius) * (q - 1 + radius
                        - 1),
                    q <= 1,
                    abs_int(q - 1) == 1 - q,
            ;
            if q == 1 {
                assert(2 * (q + radius) * (radius + 1) + (q + radius) * (q + radius - 1) == 2 * (radius
                    + 1) * (radius + 1) + (radius + 1) * radius + 2 * (q - 1) * (2 * radius + 1) - (q
                    - 1) * q) by (nonlinear_arith)
                    requires
                        q == 1,
                ;
            }
        } else {
            assert(2 * (c + 2 * radius + 1 - abs_int(q - 1)) == 2 * (radius + 1) * (radius + 1) + (
            radius + 1) * radius + 2 * (q - 1) * (2 * radius + 1) - (q - 1) * q) by (nonlinear_arith)
                requires
                    q - 1 <= 1 ==> 2 * c == 2 * (q - 1 + radius) * (radius + 1) + (q - 1 + radius) * (
                    q - 1 + radius - 1),
                    q - 1 >= 1 ==> 2 * c == 2 * (radius + 1) * (radius + 1) + (radius + 1) * radius
                        + 2 * (q - 2) * (2 * radius + 1) - (q - 2) * (q - 1),
                    q >= 2,
                    abs_int(q - 1) == q - 1,
            ;
        }
    } else {
        assert(q == -radius);
        assert(2 * (q + radius) * (radius + 1) + (q + radius) * (q + radius - 1) == 0) by (
        nonlinear_arith)
            requires
                q + radius == 0,
        ;
    }
}

/// A hexagonal arena of the given radius holds `3 * radius * (radius + 1) + 1`
/// cells.
pub proof fn lemma_arena_cell_count(radius: int)
    requires
        radius >= 0,
    ensures
        cells_before(radius + 1, radius) == 3 * radius * (radius + 1) + 1,
{
    lemma_cells_before(radius + 1, radius);
    assert(2 * (radius + 1) * (radius + 1) + (radius + 1) * radius + 2 * radius * (2 * radius + 1)
        - radius * (radius + 1) == 2 * (3 * radius * (radius + 1) + 1)) by (nonlinear_arith);
}

/// A cell is a wall exactly when it lies on the outer ring, at distance
/// `radius` from the centre; every other cell is one of the two floor shades,
/// chosen by the parity of `q + r`.
pub proof fn lemma_tile_wall_iff_ring(q: int, r: int, radius: int)
    ensures
        (tile_of(q, r, radius) == Tile::Wall) == (hex_dist_spec(q, r) == radius),
        hex_dist_spec(q, r) != radius ==> ((tile_of(q, r, radius) == Tile::FloorA) == ((q + r) % 2
            == 0)),
        hex_dist_spec(q, r) != radius ==> ((tile_of(q, r, radius) == Tile::FloorB) == ((q + r) % 2
            != 0)),
{
}

/// Number of walls among `cells`.
pub open spec fn wall_count(cells: Seq<Cell>) -> int
    decreases cells.len(),
{
    if cells.len() == 0 {
        0
    } else {
        wall_count(cells.drop_last()) + (if cells.last().tile == Tile::Wall { 1int } else { 0int })
    }
}

/// Number of cells at distance `radius` in the rows `q' < q` of an arena of
/// that radius: a whole row on the two outermost rows, two cells elsewhere.
pub open spec fn ring_cells_before(q: int, radius: int) -> int
    decreases q + radius,
{
    if q <= -radius {
        0
    } else {
        ring_cells_before(q - 1, radius) + (if abs_int(q - 1) == radius { radius + 1 } else { 2 })
    }
}

proof fn lemma_ring_cells_before(q: int, radius: int)
    requires
        radius >= 1,
        -radius < q <= radius,
    ensures
        ring_cells_before(q, radius) == radius + 1 + 2 * (q + radius - 1),
    decreases q + radius,
{
    if q > -radius + 1 {
        lemma_ring_cells_before(q - 1, radius);
    } else {
        assert(ring_cells_before(q - 1, radius) == 0);
    }
}

/// The outer ring of an arena of radius `radius >= 1` holds `6 * radius`
/// cells.
pub proof fn lemma_ring_count(radius: int)
    requires
        radius >= 1,
    ensures
        ring_cells_before(radius + 1, radius) == 6 * radius,
{
    lemma_ring_cells_before(radius, radius);
}

/// A respawn cell (one to three steps out) lies on the floor of any arena of
/// radius greater than three: inside it, off its wall ring, off its centre.
pub proof fn lemma_respawn_on_floor(q: int, r: int, radius: int)
    requires
        1 <= hex_dist_spec(q, r) <= 3,
        radius > 3,
    ensures
        hex_dist_spec(q, r) <= radius,
        tile_of(q, r, radius) != Tile::Wall,
        q != 0 || r != 0,
{
}

/// The cells of a hexagonal arena of the given radius, row by row (`q`
/// ascending, then `r` ascending): every cell at most `radius` steps from
/// the centre, each once, the outer ring walls and the rest a checkerboard
/// of the two floor shades.
pub fn arena_layout(radius: i32) -> (cells: Vec<Cell>)
    requires
        radius <= 0x3fff_ffff,
    ensures
        forall|i: int|
            0 <= i < cells.len() ==> hex_dist_spec(#[trigger] cells@[i].q as int, cells@[i].r as int)
                <= radius && cells@[i].tile == tile_of(cells@[i].q as int, cells@[i].r as int, radius as int),
        forall|i: int, j: int| 0 <= i < j < cells.len() ==> cell_before(#[trigger] cells@[i], #[trigger] cells@[j]),
        forall|q: int, r: int|
            hex_dist_spec(q, r) <= radius ==> exists|i: int|
                0 <= i < cells.len() && (#[trigger] cells@[i]).q == q && cells@[i].r == r,
        radius >= 0 ==> cells.len() == 3 * radius * (radius + 1) + 1,
        forall|i: int|
            0 <= i < cells.len() ==> ((#[trigger] cells@[i].tile == Tile::Wall) == (hex_dist_spec(
                cells@[i].q as int,
                cells@[i].r as int,
            ) == radius)),
        forall|i: int|
            0 <= i < cells.len() && #[trigger] cells@[i].tile != Tile::Wall ==> ((cells@[i].tile
                == Tile::FloorA) == ((cells@[i].q + cells@[i].r) % 2 == 0)),
        radius >= 1 ==> wall_count(cells@) == 6 * radius,
        radius == 0 ==> wall_count(cells@) == 1,
{
    let mut cells: Vec<Cell> = Vec::new();
    if radius < 0 {
        return cells;
    }
    let mut q: i32 = -radius;
    while q <= radius
        invariant
            0 <= radius <= 0x3fff_ffff,
            -radius <= q <= radius + 1,
            cells.len() == cells_before(q as int, radius as int),
            wall_count(cells@) == ring_cells_before(q as int, radius as int),
            forall|i: int|
                0 <= i < cells.len() ==> hex_dist_spec(#[trigger] cells@[i].q as int, cells@[i].r as int)
                    <= radius && cells@[i].tile == tile_of(cells@[i].q as int, cells@[i].r as int, radius as int)
                    && cells@[i].q < q,
            forall|i: int, j: int| 0 <= i < j < cells.len() ==> cell_before(#[trigger] cells@[i], #[trigger] cells@[j]),
            forall|qq: int, rr: int|
                hex_dist_spec(qq, rr) <= radius && qq < q ==> exists|i: int|
                    0 <= i < cells.len() && (#[trigger] cells@[i]).q == qq && cells@[i].r == rr,
        decreases radius + 1 - q,
    {
        let r_min = if -radius >= -q - radius { -radius } else { -q - radius };
        let r_max = if radius <= -q + radius { radius } else { -q + radius };
        let mut r: i32 = r_min;
        let ghost start = cells.len();
        while r <= r_max
            invariant
                0 <= radius <= 0x3fff_ffff,
                -radius <= q <= radius,
                r_min == (if -radius >= -q - radius { -radius as int } else { -q - radius }),
                r_max == (if radius <= -q + radius { radius as int } else { -q + radius }),
                r_min <= r <= r_max + 1,
                start == cells_before(q as int, radius as int),
                cells.len() == start + (r - r_min),
                wall_count(cells@) == ring_cells_before(q as int, radius as int) + (if abs_int(q as int)
                    == radius { r - r_min } else { (if r > r_min { 1int } else { 0int }) + (if r > r_max {
                    1int } else { 0int }) }),
                forall|i: int|
                    0 <= i < cells.len() ==> hex_dist_spec(#[trigger] cells@[i].q as int, cells@[i].r as int)
                        <= radius && cells@[i].tile == tile_of(cells@[i].q as int, cells@[i].r as int, radius as int)
                        && (cells@[i].q < q || (cells@[i].q == q && cells@[i].r < r)),
                forall|i: int, j: int| 0 <= i < j < cells.len() ==> cell_before(#[trigger] cells@[i], #[trigger] cells@[j]),
                forall|qq: int, rr: int|
                    hex_dist_spec(qq, rr) <= radius && (qq < q || (qq == q && rr < r)) ==> exists|i: int|
                        0 <= i < cells.len() && (#[trigger] cells@[i]).q == qq && cells@[i].r == rr,
            decreases r_max + 1 - r,
        {
            let d = hex_dist(q, r);
            let tile = if d == radius {
                Tile::Wall
            } else if (q + r) % 2 == 0 {
                Tile::FloorA
            } else {
                Tile::FloorB
            };
            let cell = Cell { q, r, tile };
            let ghost old_cells = cells@;
            cells.push(cell);
            proof {
                assert(cells@.drop_last() =~= old_cells);
                assert(cells@.last() == cell);
                if abs_int(q as int) != radius {
                    assert((hex_dist_spec(q as int, r as int) == radius) == (r == r_min || r == r_max));
                    assert(r_min < r_max);
                }
                assert(cells@[cells.len() - 1] == cell);
                assert forall|qq: int, rr: int|
                    hex_dist_spec(qq, rr) <= radius && (qq < q || (qq == q && rr < r + 1)) implies exists|i: int|
                        0 <= i < cells.len() && (#[trigger] cells@[i]).q == qq && cells@[i].r == rr by {
                    if qq == q && rr == r {
                        assert(cells@[cells.len() - 1].q == qq);
                    } else {
                        let i = choose|i: int| 0 <= i < old_cells.len() && (#[trigger] old_cells[i]).q == qq && old_cells[i].r == rr;
                        assert(cells@[i] == old_cells[i]);
                    }
                }
            }
            r = r + 1;
        }
        proof {
            assert(cells_before(q + 1, radius as int) == cells_before(q as int, radius as int) + 2 * radius + 1 - abs_int(q as int));
            assert(ring_cells_before(q + 1, radius as int) == ring_cells_before(q as int, radius as int) + (if abs_int(q as int) == radius { radius + 1 } else { 2 }));
        }
        q = q + 1;
    }
    proof {
        lemma_arena_cell_count(radius as int);
        if radius >= 1 {
            lemma_ring_count(radius as int);
        } else {
            assert(ring_cells_before(1, 0) == ring_cells_before(0, 0) + 1);
        }
        assert forall|i: int| 0 <= i < cells.len() implies ((#[trigger] cells@[i].tile == Tile::Wall) == (
        hex_dist_spec(cells@[i].q as int, cells@[i].r as int) == radius)) by {
            lemma_tile_wall_iff_ring(cells@[i].q as int, cells@[i].r as int, radius as int);
        }
        assert forall|i: int|
            0 <= i < cells.len() && #[trigger] cells@[i].tile != Tile::Wall implies ((cells@[i].tile
                == Tile::FloorA) == ((cells@[i].q + cells@[i].r) % 2 == 0)) by {
            lemma_tile_wall_iff_ring(cells@[i].q as int, cells@[i].r as int, radius as int);
        }
    }
    cells
}

} // verus!
