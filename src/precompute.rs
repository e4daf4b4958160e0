use vstd::arithmetic::div_mod::lemma_fundamental_div_mod_converse;
use vstd::prelude::*;

use crate::geometry::{
    box_distance_squared, box_ordered, box_small, boxes_meet, circle_meets_box, clamp_int,
    lemma_circle_meets_box_bounds, lemma_collider_box_small, lemma_square_bound, Aabb, Collider,
    Direction, Point, Rect,
};
use crate::spatial::SpatialIndex;

verus! {

/// Travel distances saturate here: the value means "nothing in reach".
pub const CAP: u8 = 255;

/// Width of the character's hitbox, in grid cells.
pub const HITBOX_W: i64 = 8;

/// Height of the character's hitbox, in grid cells.
pub const HITBOX_H: i64 = 11;

/// Height of the footprint that is tested against lethal shapes.
pub const HURT_H: i64 = 9;

/// Why a movement table cannot be built.
#[derive(Clone, Copy, Debug, PartialEq, Eq, Structural)]
pub enum PrecomputeError {
    /// The bounds have no cell: their width or their height is not positive.
    EmptyBounds,
}

/// Number of grid columns of the bounds.
pub open spec fn grid_width(b: Rect) -> int {
    b.dr.x - b.ul.x + 1
}

/// Number of grid rows of the bounds.
pub open spec fn grid_height(b: Rect) -> int {
    b.dr.y - b.ul.y + 1
}

/// The bounds hold at least one cell.
pub open spec fn bounds_valid(b: Rect) -> bool {
    grid_width(b) > 0 && grid_height(b) > 0
}

/// Number of entries of a table over the bounds: one per cell and direction.
pub open spec fn table_len(b: Rect) -> int {
    grid_width(b) * grid_height(b) * 4
}

/// The cell `(x, y)` lies within the bounds.
pub open spec fn cell_in(b: Rect, x: int, y: int) -> bool {
    b.ul.x <= x <= b.dr.x && b.ul.y <= y <= b.dr.y
}

pub open spec fn dir_index(d: Direction) -> int {
    match d {
        Direction::Left => 0,
        Direction::Up => 1,
        Direction::Right => 2,
        Direction::Down => 3,
    }
}

pub open spec fn dir_of(i: int) -> Direction {
    if i == 0 {
        Direction::Left
    } else if i == 1 {
        Direction::Up
    } else if i == 2 {
        Direction::Right
    } else {
        Direction::Down
    }
}

/// Where the entry of cell `(x, y)` and direction `d` stands: rows first, then
/// columns, then the four directions.
pub open spec fn cell_index(b: Rect, x: int, y: int, d: Direction) -> int {
    ((y - b.ul.y) * grid_width(b) + (x - b.ul.x)) * 4 + dir_index(d)
}

/// The column of entry `k`.
pub open spec fn entry_x(b: Rect, k: int) -> int {
    b.ul.x + (k / 4) % grid_width(b)
}

/// The row of entry `k`.
pub open spec fn entry_y(b: Rect, k: int) -> int {
    b.ul.y + (k / 4) / grid_width(b)
}

/// The direction of entry `k`.
pub open spec fn entry_dir(k: int) -> Direction {
    dir_of(k % 4)
}

/// The box swept by the hitbox placed at `(x, y)` when it travels up to the cap in `d`.
pub open spec fn probe_box(x: int, y: int, d: Direction) -> Aabb {
    let c = CAP as int;
    match d {
        Direction::Left => ((x - c) as i64, y as i64, (x + HITBOX_W - 1) as i64, (y + HITBOX_H - 1) as i64),
        Direction::Up => (x as i64, (y - c) as i64, (x + HITBOX_W - 1) as i64, (y + HITBOX_H - 1) as i64),
        Direction::Right => (x as i64, y as i64, (x + HITBOX_W - 1 + c) as i64, (y + HITBOX_H - 1) as i64),
        Direction::Down => (x as i64, y as i64, (x + HITBOX_W - 1) as i64, (y + HITBOX_H - 1 + c) as i64),
    }
}

/// The free cells between the hitbox at `(x, y)` and box `s`, along `d`.
pub open spec fn raw_gap(s: Aabb, x: int, y: int, d: Direction) -> int {
    match d {
        Direction::Left => x - s.2 - 1,
        Direction::Up => y - s.3 - 1,
        Direction::Right => s.0 - x - HITBOX_W,
        Direction::Down => s.1 - y - HITBOX_H,
    }
}

/// What one blocking shape allows: its gap, saturated to `0..=CAP`, where its box meets
/// the probe; the cap where it does not.
pub open spec fn shape_gap(c: Collider, x: int, y: int, d: Direction) -> int {
    if boxes_meet(c.spec_box(), probe_box(x, y, d)) {
        clamp_int(raw_gap(c.spec_box(), x, y, d), 0, CAP as int)
    } else {
        CAP as int
    }
}

/// The distance that the hitbox at `(x, y)` can travel in `d` before the first of the
/// shapes `s[0..n]` stops it: the least of their gaps, or the cap.
pub open spec fn blocking_gap_upto(s: Seq<Collider>, n: int, x: int, y: int, d: Direction) -> int
    decreases n,
{
    if n <= 0 {
        CAP as int
    } else {
        let rest = blocking_gap_upto(s, n - 1, x, y, d);
        let g = shape_gap(s[n - 1], x, y, d);
        if g < rest {
            g
        } else {
            rest
        }
    }
}

/// The distance that the hitbox at `(x, y)` can travel in `d` among the blocking shapes `s`.
pub open spec fn blocking_gap(s: Seq<Collider>, x: int, y: int, d: Direction) -> int {
    blocking_gap_upto(s, s.len() as int, x, y, d)
}

/// The footprint tested against lethal shapes for the character at `(x, y)`.
pub open spec fn hurt_box(x: int, y: int) -> Aabb {
    (x as i64, y as i64, (x + HITBOX_W - 1) as i64, (y + HURT_H - 1) as i64)
}

/// A lethal shape touches the footprint `f`: a rectangle where it meets it, borders
/// included; a circle where it holds one of its points.
pub open spec fn lethal_hit(c: Collider, f: Aabb) -> bool {
    match c {
        Collider::Rectangular(r) => boxes_meet(r.spec_box(), f),
        Collider::Circular(circ) => circle_meets_box(circ, f),
    }
}

/// Some lethal shape of `s` touches the character at `(x, y)`.
pub open spec fn lethal_at(s: Seq<Collider>, x: int, y: int) -> bool {
    exists|i: int| 0 <= i < s.len() && lethal_hit(#[trigger] s[i], hurt_box(x, y))
}

/// The blocking table over bounds `b`: entry `k` holds the travel distance of its cell
/// and direction.
pub open spec fn solids_table(s: Seq<Collider>, b: Rect) -> Seq<u8> {
    Seq::new(
        table_len(b) as nat,
        |k: int| blocking_gap(s, entry_x(b, k), entry_y(b, k), entry_dir(k)) as u8,
    )
}

/// The lethal table over bounds `b`: entry `k` tells whether its cell is deadly.
pub open spec fn death_table(s: Seq<Collider>, b: Rect) -> Seq<bool> {
    Seq::new(table_len(b) as nat, |k: int| lethal_at(s, entry_x(b, k), entry_y(b, k)))
}

/// The outcome of one frame.
#[derive(Clone, Copy, Debug, PartialEq, Eq, Structural)]
pub enum FrameResult {
    Nothing,
    CheckpointHit,
    Death,
}

/// For every cell of the bounds and each direction: how far the character can travel
/// before blocking geometry stops it, and whether lethal geometry touches it there.
pub struct MovementPrecomputer {
    solids: Vec<u8>,
    death: Vec<bool>,
    bounds: Rect,
    blocking: Ghost<Seq<Collider>>,
    lethal: Ghost<Seq<Collider>>,
}

fn probe_of(x: i64, y: i64, d: Direction) -> (r: Aabb)
    requires
        i32::MIN <= x <= i32::MAX,
        i32::MIN <= y <= i32::MAX,
    ensures
        r == probe_box(x as int, y as int, d),
        box_ordered(r),
{
    let c = CAP as i64;
    match d {
        Direction::Left => (x - c, y, x + HITBOX_W - 1, y + HITBOX_H - 1),
        Direction::Up => (x, y - c, x + HITBOX_W - 1, y + HITBOX_H - 1),
        Direction::Right => (x, y, x + HITBOX_W - 1 + c, y + HITBOX_H - 1),
        Direction::Down => (x, y, x + HITBOX_W - 1, y + HITBOX_H - 1 + c),
    }
}

/// The gap of a box that meets the probe, saturated to `0..=CAP`.
fn clamped_gap(s: Aabb, x: i64, y: i64, d: Direction) -> (r: u8)
    requires
        i32::MIN <= x <= i32::MAX,
        i32::MIN <= y <= i32::MAX,
        boxes_meet(s, probe_box(x as int, y as int, d)),
        box_small(s),
    ensures
        r as int == clamp_int(raw_gap(s, x as int, y as int, d), 0, CAP as int),
{
    let g: i64 = match d {
        Direction::Left => x - s.2 - 1,
        Direction::Up => y - s.3 - 1,
        Direction::Right => s.0 - x - HITBOX_W,
        Direction::Down => s.1 - y - HITBOX_H,
    };
    if g < 0 {
        0
    } else if g > CAP as i64 {
        CAP
    } else {
        g as u8
    }
}

proof fn lemma_gap_bounds(s: Seq<Collider>, n: int, x: int, y: int, d: Direction)
    requires
        0 <= n <= s.len(),
    ensures
        0 <= blocking_gap_upto(s, n, x, y, d) <= CAP,
        forall|i: int| 0 <= i < n ==> blocking_gap_upto(s, n, x, y, d) <= shape_gap(#[trigger] s[i], x, y, d),
        blocking_gap_upto(s, n, x, y, d) == CAP || exists|i: int|
            0 <= i < n && boxes_meet(s[i].spec_box(), probe_box(x, y, d))
                && blocking_gap_upto(s, n, x, y, d) == #[trigger] shape_gap(s[i], x, y, d),
    decreases n,
{
    if n > 0 {
        lemma_gap_bounds(s, n - 1, x, y, d);
    }
}

/// The travel distance from `(x, y)` in `d`: the least gap among the shapes that the
/// index finds in the probe box.
fn blocking_distance(solids: &SpatialIndex, x: i64, y: i64, d: Direction) -> (r: u8)
    requires
        solids.wf(),
        i32::MIN <= x <= i32::MAX,
        i32::MIN <= y <= i32::MAX,
    ensures
        r as int == blocking_gap(solids@, x as int, y as int, d),
{
    let probe = probe_of(x, y, d);
    let cands = solids.candidates(probe);
    let n = solids.len();
    let ghost s = solids@;
    let mut best: u8 = CAP;
    let mut j: usize = 0;
    while j < cands.len()
        invariant
            solids.wf(),
            s == solids@,
            n == s.len(),
            i32::MIN <= x <= i32::MAX,
            i32::MIN <= y <= i32::MAX,
            probe == probe_box(x as int, y as int, d),
            j <= cands@.len(),
            forall|i: int| 0 <= i < cands@.len() ==> cands@[i] < s.len(),
            forall|i: int|
                0 <= i < cands@.len() ==> boxes_meet(#[trigger] s[cands@[i] as int].spec_box(), probe),
            forall|i: int| 0 <= i < j ==> best as int <= shape_gap(s[#[trigger] cands@[i] as int], x as int, y as int, d),
            best == CAP || exists|i: int|
                0 <= i < j && best as int == shape_gap(s[#[trigger] cands@[i] as int], x as int, y as int, d),
        decreases cands@.len() - j,
    {
        let c = cands[j];
        let shape = solids.get(c);
        proof {
            lemma_collider_box_small(*shape);
        }
        let g = clamped_gap(shape.to_aabb(), x, y, d);
        if g < best {
            best = g;
        }
        j = j + 1;
    }
    proof {
        let n = s.len() as int;
        lemma_gap_bounds(s, n, x as int, y as int, d);
        let v = blocking_gap_upto(s, n, x as int, y as int, d);
        if v != CAP {
            let i = choose|i: int|
                0 <= i < n && boxes_meet(s[i].spec_box(), probe_box(x as int, y as int, d))
                    && v == #[trigger] shape_gap(s[i], x as int, y as int, d);
            assert(cands@.contains(i as usize));
            let jj = choose|jj: int| 0 <= jj < cands@.len() && cands@[jj] == i as usize;
            assert(best as int <= shape_gap(s[cands@[jj] as int], x as int, y as int, d));
        }
        if best != CAP {
            let jj = choose|jj: int|
                0 <= jj < j && best as int == shape_gap(s[#[trigger] cands@[jj] as int], x as int, y as int, d);
            assert(v <= shape_gap(s[cands@[jj] as int], x as int, y as int, d));
        }
    }
    best
}

fn hurt_of(x: i64, y: i64) -> (r: Aabb)
    requires
        i32::MIN <= x <= i32::MAX,
        i32::MIN <= y <= i32::MAX,
    ensures
        r == hurt_box(x as int, y as int),
        box_ordered(r),
{
    (x, y, x + HITBOX_W - 1, y + HURT_H - 1)
}

fn lethal_touch(c: &Collider, f: Aabb) -> (r: bool)
    requires
        box_ordered(f),
        i32::MIN <= f.0 && f.2 <= i32::MAX + HITBOX_W,
        i32::MIN <= f.1 && f.3 <= i32::MAX + HURT_H,
    ensures
        r == lethal_hit(*c, f),
{
    match c {
        Collider::Rectangular(rect) => {
            let b = rect.to_aabb();
            b.0 <= f.2 && f.0 <= b.2 && b.1 <= f.3 && f.1 <= b.3
        },
        Collider::Circular(circ) => {
            let d2 = box_distance_squared(f, circ.origin.x as i64, circ.origin.y as i64);
            let rad = circ.radius as i128;
            proof {
                lemma_square_bound(rad as int, 0x1_0000_0000);
            }
            circ.radius >= 0 && d2 < rad * rad
        },
    }
}

/// Whether a lethal shape touches the character at `(x, y)`: the index finds the shapes
/// whose box meets the footprint, and each is tested exactly.
fn lethal_lookup(death: &SpatialIndex, x: i64, y: i64) -> (r: bool)
    requires
        death.wf(),
        i32::MIN <= x <= i32::MAX,
        i32::MIN <= y <= i32::MAX,
    ensures
        r == lethal_at(death@, x as int, y as int),
{
    let f = hurt_of(x, y);
    let cands = death.candidates(f);
    let n = death.len();
    let ghost s = death@;
    let mut j: usize = 0;
    while j < cands.len()
        invariant
            death.wf(),
            s == death@,
            n == s.len(),
            f == hurt_box(x as int, y as int),
            box_ordered(f),
            i32::MIN <= x <= i32::MAX,
            i32::MIN <= y <= i32::MAX,
            j <= cands@.len(),
            forall|i: int| 0 <= i < cands@.len() ==> cands@[i] < s.len(),
            forall|i: int| 0 <= i < j ==> !lethal_hit(s[#[trigger] cands@[i] as int], f),
        decreases cands@.len() - j,
    {
        let c = cands[j];
        if lethal_touch(death.get(c), f) {
            return true;
        }
        j = j + 1;
    }
    proof {
        if lethal_at(s, x as int, y as int) {
            let i = choose|i: int| 0 <= i < s.len() && lethal_hit(#[trigger] s[i], f);
            match s[i] {
                Collider::Rectangular(_) => {},
                Collider::Circular(circ) => lemma_circle_meets_box_bounds(circ, f),
            }
            assert(cands@.contains(i as usize));
            let jj = choose|jj: int| 0 <= jj < cands@.len() && cands@[jj] == i as usize;
            assert(!lethal_hit(s[cands@[jj] as int], f));
        }
    }
    false
}

/// Where entry `k` stands: column, row and direction.
proof fn lemma_entry_in_grid(b: Rect, k: int)
    requires
        bounds_valid(b),
        0 <= k < table_len(b),
    ensures
        cell_in(b, entry_x(b, k), entry_y(b, k)),
        0 <= k % 4 < 4,
{
    let w = grid_width(b);
    let h = grid_height(b);
    let c = k / 4;
    assert(0 <= c < w * h) by (nonlinear_arith)
        requires
            0 <= k < w * h * 4,
            c == k / 4,
    ;
    assert(0 <= c / w < h) by (nonlinear_arith)
        requires
            0 <= c < w * h,
            w > 0,
    ;
    assert(0 <= c % w < w) by (nonlinear_arith)
        requires
            w > 0,
            c >= 0,
    ;
}

/// The entry of cell `(x, y)` and direction `d` lies in the table and decodes back.
proof fn lemma_cell_index(b: Rect, x: int, y: int, d: Direction)
    requires
        bounds_valid(b),
        cell_in(b, x, y),
    ensures
        0 <= cell_index(b, x, y, d) < table_len(b),
        entry_x(b, cell_index(b, x, y, d)) == x,
        entry_y(b, cell_index(b, x, y, d)) == y,
        entry_dir(cell_index(b, x, y, d)) == d,
{
    let w = grid_width(b);
    let h = grid_height(b);
    let cx = x - b.ul.x;
    let cy = y - b.ul.y;
    let c = cy * w + cx;
    let k = cell_index(b, x, y, d);
    assert(0 <= c < w * h) by (nonlinear_arith)
        requires
            0 <= cx < w,
            0 <= cy < h,
            c == cy * w + cx,
    ;
    assert(0 <= k < w * h * 4) by (nonlinear_arith)
        requires
            0 <= c < w * h,
            k == c * 4 + dir_index(d),
            0 <= dir_index(d) < 4,
    ;
    lemma_fundamental_div_mod_converse(k, 4, c, dir_index(d));
    lemma_fundamental_div_mod_converse(c, w, cy, cx);
}

impl MovementPrecomputer {
    /// The blocking shapes the table was built from.
    pub closed spec fn blocking(&self) -> Seq<Collider> {
        self.blocking@
    }

    /// The lethal shapes the table was built from.
    pub closed spec fn lethal(&self) -> Seq<Collider> {
        self.lethal@
    }

    pub closed spec fn bounds(&self) -> Rect {
        self.bounds
    }

    /// The blocking table, one travel distance per cell and direction.
    pub closed spec fn solid_table(&self) -> Seq<u8> {
        self.solids@
    }

    /// The lethal table, one flag per cell and direction.
    pub closed spec fn death_table(&self) -> Seq<bool> {
        self.death@
    }

    /// Both tables are what the shapes and the bounds determine.
    pub closed spec fn wf(&self) -> bool {
        &&& bounds_valid(self.bounds)
        &&& table_len(self.bounds) <= usize::MAX
        &&& self.solids@ == solids_table(self.blocking@, self.bounds)
        &&& self.death@ == death_table(self.lethal@, self.bounds)
    }

    /// Builds the tables for every cell of `bounds` from the blocking shapes of `solids`
    /// and the lethal shapes of `death`.
    pub fn new(solids: &SpatialIndex, death: &SpatialIndex, bounds: Rect) -> (r: Result<
        MovementPrecomputer,
        PrecomputeError,
    >)
        requires
            solids.wf(),
            death.wf(),
            bounds_valid(bounds) ==> table_len(bounds) <= usize::MAX,
        ensures
            r is Ok <==> bounds_valid(bounds),
            !bounds_valid(bounds) ==> r == Err::<MovementPrecomputer, PrecomputeError>(
                PrecomputeError::EmptyBounds,
            ),
            r matches Ok(t) ==> {
                &&& t.wf()
                &&& t.blocking() == solids@
                &&& t.lethal() == death@
                &&& t.bounds() == bounds
                &&& t.solid_table() == solids_table(solids@, bounds)
                &&& t.death_table() == death_table(death@, bounds)
            },
    {
        if bounds.dr.x < bounds.ul.x || bounds.dr.y < bounds.ul.y {
            return Err(PrecomputeError::EmptyBounds);
        }
        let w = bounds.dr.x as i64 - bounds.ul.x as i64 + 1;
        let h = bounds.dr.y as i64 - bounds.ul.y as i64 + 1;
        assert(w <= w * h * 4 && h <= w * h * 4 && w * h <= w * h * 4) by (nonlinear_arith)
            requires
                w >= 1,
                h >= 1,
        ;
        let wu = w as usize;
        let total = wu * (h as usize) * 4;
        let mut solid_vals: Vec<u8> = Vec::new();
        let mut death_vals: Vec<bool> = Vec::new();
        let mut k: usize = 0;
        while k < total
            invariant
                solids.wf(),
                death.wf(),
                bounds_valid(bounds),
                w == grid_width(bounds),
                wu == w,
                total == table_len(bounds),
                k <= total,
                solid_vals@ == solids_table(solids@, bounds).subrange(0, k as int),
                death_vals@ == death_table(death@, bounds).subrange(0, k as int),
            decreases total - k,
        {
            proof {
                lemma_entry_in_grid(bounds, k as int);
            }
            let c = k / 4;
            let x = bounds.ul.x as i64 + (c % wu) as i64;
            let y = bounds.ul.y as i64 + (c / wu) as i64;
            let d = match k % 4 {
                0 => Direction::Left,
                1 => Direction::Up,
                2 => Direction::Right,
                _ => Direction::Down,
            };
            solid_vals.push(blocking_distance(solids, x, y, d));
            death_vals.push(lethal_lookup(death, x, y));
            k = k + 1;
            assert(solid_vals@ =~= solids_table(solids@, bounds).subrange(0, k as int));
            assert(death_vals@ =~= death_table(death@, bounds).subrange(0, k as int));
        }
        assert(solid_vals@ =~= solids_table(solids@, bounds));
        assert(death_vals@ =~= death_table(death@, bounds));
        Ok(
            MovementPrecomputer {
                solids: solid_vals,
                death: death_vals,
                bounds,
                blocking: Ghost(solids@),
                lethal: Ghost(death@),
            },
        )
    }

    fn get_index(&self, position: &Point, direction: Direction) -> (r: usize)
        requires
            self.wf(),
            cell_in(self.bounds(), position.x as int, position.y as int),
        ensures
            r == cell_index(self.bounds(), position.x as int, position.y as int, direction),
            r < self.solids@.len(),
            r < self.death@.len(),
    {
        proof {
            lemma_cell_index(self.bounds, position.x as int, position.y as int, direction);
        }
        let dir: usize = match direction {
            Direction::Left => 0,
            Direction::Up => 1,
            Direction::Right => 2,
            Direction::Down => 3,
        };
        let ghost k = cell_index(self.bounds, position.x as int, position.y as int, direction);
        let w64: i64 = self.bounds.dr.x as i64 - self.bounds.ul.x as i64 + 1;
        let cx64: i64 = position.x as i64 - self.bounds.ul.x as i64;
        let cy64: i64 = position.y as i64 - self.bounds.ul.y as i64;
        assert(w64 == grid_width(self.bounds));
        assert(0 <= cx64 < w64);
        assert(0 <= cy64 < grid_height(self.bounds));
        assert(k == (cy64 * w64 + cx64) * 4 + dir);
        let ghost h = grid_height(self.bounds);
        assert(0 <= cy64 * w64 <= cy64 * w64 + cx64 <= k && w64 <= w64 * h * 4) by (nonlinear_arith)
            requires
                0 <= cx64 < w64,
                0 <= cy64,
                h >= 1,
                k == (cy64 * w64 + cx64) * 4 + dir,
                0 <= dir,
        ;
        let w = w64 as usize;
        let cx = cx64 as usize;
        let cy = cy64 as usize;
        (cy * w + cx) * 4 + dir
    }

    /// How far the character at `position` can travel in `direction` before blocking
    /// geometry stops it, saturated at the cap.
    pub fn get_solid(&self, position: &Point, direction: Direction) -> (r: u8)
        requires
            self.wf(),
            cell_in(self.bounds(), position.x as int, position.y as int),
        ensures
            r as int == blocking_gap(self.blocking(), position.x as int, position.y as int, direction),
    {
        proof {
            lemma_cell_index(self.bounds, position.x as int, position.y as int, direction);
            lemma_gap_bounds(self.blocking@, self.blocking@.len() as int, position.x as int, position.y as int, direction);
        }
        self.solids[self.get_index(position, direction)]
    }

    /// The same lookup as `get_solid`, for a position already on the grid.
    pub fn get_solid_prerounded(&self, position: &Point, direction: Direction) -> (r: u8)
        requires
            self.wf(),
            cell_in(self.bounds(), position.x as int, position.y as int),
        ensures
            r as int == blocking_gap(self.blocking(), position.x as int, position.y as int, direction),
    {
        self.get_solid(position, direction)
    }

    /// Whether lethal geometry touches the character at `position`, approached from
    /// `direction`.
    pub fn get_death(&self, position: &Point, direction: Direction) -> (r: bool)
        requires
            self.wf(),
            cell_in(self.bounds(), position.x as int, position.y as int),
        ensures
            r == lethal_at(self.lethal(), position.x as int, position.y as int),
    {
        proof {
            lemma_cell_index(self.bounds, position.x as int, position.y as int, direction);
        }
        self.death[self.get_index(position, direction)]
    }

    /// The same lookup as `get_death`, for a position already on the grid.
    pub fn get_death_prerounded(&self, position: &Point, direction: Direction) -> (r: bool)
        requires
            self.wf(),
            cell_in(self.bounds(), position.x as int, position.y as int),
        ensures
            r == lethal_at(self.lethal(), position.x as int, position.y as int),
    {
        self.get_death(position, direction)
    }

    /// The outcome of a frame that leaves the character at `position`, moving with the
    /// signs of `vx` and `vy`: death where lethal geometry touches it from a direction it
    /// moves in, else a checkpoint hit where its hitbox overlaps the current checkpoint
    /// (`in_checkpoint`), else nothing. The three outcomes exclude each other.
    pub fn collide(&self, position: &Point, vx: i32, vy: i32, in_checkpoint: bool) -> (r:
        FrameResult)
        requires
            self.wf(),
            cell_in(self.bounds(), position.x as int, position.y as int),
        ensures
            r == frame_outcome(self.lethal(), position.x as int, position.y as int, in_checkpoint),
    {
        if vx <= 0 && self.get_death_prerounded(position, Direction::Left) {
            return FrameResult::Death;
        }
        if vx >= 0 && self.get_death_prerounded(position, Direction::Right) {
            return FrameResult::Death;
        }
        if vy <= 0 && self.get_death_prerounded(position, Direction::Up) {
            return FrameResult::Death;
        }
        if vy >= 0 && self.get_death_prerounded(position, Direction::Down) {
            return FrameResult::Death;
        }
        if in_checkpoint {
            FrameResult::CheckpointHit
        } else {
            FrameResult::Nothing
        }
    }
}

/// What a frame ends in for the character at `(x, y)`.
pub open spec fn frame_outcome(s: Seq<Collider>, x: int, y: int, in_checkpoint: bool) -> FrameResult {
    if lethal_at(s, x, y) {
        FrameResult::Death
    } else if in_checkpoint {
        FrameResult::CheckpointHit
    } else {
        FrameResult::Nothing
    }
}

/// Building the tables twice from the same shapes and bounds gives the same tables,
/// entry for entry.
pub proof fn lemma_rebuild_identical(a: MovementPrecomputer, b: MovementPrecomputer)
    requires
        a.wf(),
        b.wf(),
        a.blocking() == b.blocking(),
        a.lethal() == b.lethal(),
        a.bounds() == b.bounds(),
    ensures
        a.solid_table() == b.solid_table(),
        a.death_table() == b.death_table(),
{
}

/// A blocking shape in reach of the hitbox at `p` in direction `d` brings the travel
/// distance below the cap, to at most its own gap; with no blocking shape in reach the
/// distance is the cap.
pub proof fn lemma_blocking_sound(s: Seq<Collider>, p: Point, d: Direction)
    ensures
        forall|i: int|
            0 <= i < s.len() && boxes_meet(#[trigger] s[i].spec_box(), probe_box(p.x as int, p.y as int, d))
                ==> blocking_gap(s, p.x as int, p.y as int, d) <= clamp_int(
                raw_gap(s[i].spec_box(), p.x as int, p.y as int, d),
                0,
                CAP as int,
            ) < CAP,
        (forall|i: int|
            0 <= i < s.len() ==> !boxes_meet(#[trigger] s[i].spec_box(), probe_box(p.x as int, p.y as int, d)))
            ==> blocking_gap(s, p.x as int, p.y as int, d) == CAP,
{
    lemma_gap_bounds(s, s.len() as int, p.x as int, p.y as int, d);
    let v = blocking_gap(s, p.x as int, p.y as int, d);
    if v != CAP {
        let i = choose|i: int|
            0 <= i < s.len() && boxes_meet(s[i].spec_box(), probe_box(p.x as int, p.y as int, d))
                && v == #[trigger] shape_gap(s[i], p.x as int, p.y as int, d);
        assert(boxes_meet(s[i].spec_box(), probe_box(p.x as int, p.y as int, d)));
    }
}

/// The stored travel distance of a cell next to a blocking shape, in the shape's
/// direction, is below the cap; with no blocking shape in reach it is the cap.
pub proof fn lemma_table_blocking_sound(t: MovementPrecomputer, p: Point, d: Direction)
    requires
        t.wf(),
        cell_in(t.bounds(), p.x as int, p.y as int),
    ensures
        0 <= cell_index(t.bounds(), p.x as int, p.y as int, d) < t.solid_table().len(),
        (exists|i: int|
            0 <= i < t.blocking().len() && boxes_meet(
                #[trigger] t.blocking()[i].spec_box(),
                probe_box(p.x as int, p.y as int, d),
            )) ==> t.solid_table()[cell_index(t.bounds(), p.x as int, p.y as int, d)] < CAP,
        (forall|i: int|
            0 <= i < t.blocking().len() ==> !boxes_meet(
                #[trigger] t.blocking()[i].spec_box(),
                probe_box(p.x as int, p.y as int, d),
            )) ==> t.solid_table()[cell_index(t.bounds(), p.x as int, p.y as int, d)] == CAP,
{
    lemma_cell_index(t.bounds, p.x as int, p.y as int, d);
    lemma_blocking_sound(t.blocking(), p, d);
    lemma_gap_bounds(t.blocking(), t.blocking().len() as int, p.x as int, p.y as int, d);
}

/// A character whose footprint lies inside a lethal rectangle dies, whichever way it
/// moves and whether or not it touches the checkpoint.
pub proof fn lemma_inside_lethal_dies(s: Seq<Collider>, i: int, p: Point, in_checkpoint: bool)
    requires
        0 <= i < s.len(),
        s[i] is Rectangular,
        s[i].spec_box().0 <= p.x,
        s[i].spec_box().1 <= p.y,
        p.x + HITBOX_W - 1 <= s[i].spec_box().2,
        p.y + HURT_H - 1 <= s[i].spec_box().3,
    ensures
        frame_outcome(s, p.x as int, p.y as int, in_checkpoint) == FrameResult::Death,
{
    assert(lethal_hit(s[i], hurt_box(p.x as int, p.y as int)));
}

} // verus!
