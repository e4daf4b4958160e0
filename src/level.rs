use vstd::prelude::*;

use crate::geometry::{Collider, Rect};
use crate::precompute::{
    bounds_valid, death_table, solids_table, table_len, MovementPrecomputer, PrecomputeError,
};
use crate::spatial::SpatialIndex;

verus! {

/// Why a world cannot be built.
#[derive(Clone, Copy, Debug, PartialEq, Eq, Structural)]
pub enum LevelError {
    /// The bounds have no cell: their width or their height is not positive.
    EmptyBounds,
    /// The blocking shape at this position does not lie within the bounds.
    BlockingOutsideBounds(usize),
    /// The lethal shape at this position does not lie within the bounds.
    LethalOutsideBounds(usize),
}

/// The bounding box of shape `c` lies within the bounds `b`, borders included.
pub open spec fn shape_within(c: Collider, b: Rect) -> bool {
    let s = c.spec_box();
    &&& b.ul.x <= s.0
    &&& b.ul.y <= s.1
    &&& s.2 <= b.dr.x
    &&& s.3 <= b.dr.y
}

/// The first `n` shapes of `s` lie within the bounds `b`.
pub open spec fn all_within(s: Seq<Collider>, n: int, b: Rect) -> bool {
    forall|i: int| 0 <= i < n ==> shape_within(#[trigger] s[i], b)
}

/// The shape at `i` is the first of `s` that does not lie within the bounds `b`.
pub open spec fn first_outside(s: Seq<Collider>, i: int, b: Rect) -> bool {
    0 <= i < s.len() && !shape_within(s[i], b) && all_within(s, i, b)
}

fn within(c: &Collider, b: &Rect) -> (r: bool)
    ensures
        r == shape_within(*c, *b),
{
    let s = c.to_aabb();
    b.ul.x as i64 <= s.0 && b.ul.y as i64 <= s.1 && s.2 <= b.dr.x as i64 && s.3 <= b.dr.y as i64
}

/// The position of the first shape of `shapes` outside the bounds, if any.
fn find_outside(shapes: &Vec<Collider>, b: &Rect) -> (r: Option<usize>)
    ensures
        r is None <==> all_within(shapes@, shapes@.len() as int, *b),
        r matches Some(i) ==> first_outside(shapes@, i as int, *b),
{
    let mut i: usize = 0;
    while i < shapes.len()
        invariant
            i <= shapes@.len(),
            all_within(shapes@, i as int, *b),
        decreases shapes@.len() - i,
    {
        if !within(&shapes[i], b) {
            return Some(i);
        }
        i = i + 1;
    }
    None
}

/// A loaded world: its bounds, its blocking and lethal shapes, each indexed, and the
/// movement table built from them.
pub struct Level {
    pub bounds: Rect,
    pub solids: SpatialIndex,
    pub death: SpatialIndex,
    pub precomputed: MovementPrecomputer,
}

impl Level {
    /// The indexes hold the world's shapes and the table was built from them.
    pub open spec fn wf(&self) -> bool {
        &&& self.solids.wf()
        &&& self.death.wf()
        &&& self.precomputed.wf()
        &&& self.precomputed.bounds() == self.bounds
        &&& self.precomputed.blocking() == self.solids@
        &&& self.precomputed.lethal() == self.death@
    }

    /// Checks the world, indexes the blocking shapes `solids` and the lethal shapes
    /// `death`, then builds the movement table over `bounds`. Fails where the bounds hold
    /// no cell, else on the first blocking shape, then the first lethal shape, that does
    /// not lie within the bounds; nothing is clamped.
    pub fn new(bounds: Rect, solids: Vec<Collider>, death: Vec<Collider>) -> (r: Result<
        Level,
        LevelError,
    >)
        requires
            bounds_valid(bounds) ==> table_len(bounds) <= usize::MAX,
        ensures
            r is Ok <==> (bounds_valid(bounds) && all_within(solids@, solids@.len() as int, bounds)
                && all_within(death@, death@.len() as int, bounds)),
            !bounds_valid(bounds) ==> r == Err::<Level, LevelError>(LevelError::EmptyBounds),
            r matches Err(LevelError::BlockingOutsideBounds(i)) ==> bounds_valid(bounds)
                && first_outside(solids@, i as int, bounds),
            r matches Err(LevelError::LethalOutsideBounds(i)) ==> bounds_valid(bounds)
                && all_within(solids@, solids@.len() as int, bounds) && first_outside(
                death@,
                i as int,
                bounds,
            ),
            r matches Ok(l) ==> {
                &&& l.wf()
                &&& l.bounds == bounds
                &&& l.solids@ == solids@
                &&& l.death@ == death@
                &&& l.precomputed.solid_table() == solids_table(solids@, bounds)
                &&& l.precomputed.death_table() == death_table(death@, bounds)
            },
    {
        if bounds.dr.x < bounds.ul.x || bounds.dr.y < bounds.ul.y {
            return Err(LevelError::EmptyBounds);
        }
        if let Some(i) = find_outside(&solids, &bounds) {
            return Err(LevelError::BlockingOutsideBounds(i));
        }
        if let Some(i) = find_outside(&death, &bounds) {
            return Err(LevelError::LethalOutsideBounds(i));
        }
        let solids = SpatialIndex::bulk_load(solids);
        let death = SpatialIndex::bulk_load(death);
        match MovementPrecomputer::new(&solids, &death, bounds) {
            Ok(precomputed) => Ok(Level { bounds, solids, death, precomputed }),
            Err(PrecomputeError::EmptyBounds) => Err(LevelError::EmptyBounds),
        }
    }
}

} // verus!
