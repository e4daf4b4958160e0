use vstd::prelude::*;

use crate::precompute::FrameResult;

verus! {

/// Genomes longer than this have their oldest frames committed.
pub const WINDOW: usize = 50;

/// How many frames are committed at a time.
pub const COMMIT: usize = 25;

/// A genome after fresh genes are appended: where it outgrows the window, its first
/// `COMMIT` genes (already committed to the canonical timeline) are dropped.
pub open spec fn slid(g: Seq<u32>) -> Seq<u32> {
    if g.len() > WINDOW {
        g.subrange(COMMIT as int, g.len() as int)
    } else {
        g
    }
}

fn copy_range(v: &Vec<u32>, from: usize, to: usize) -> (r: Vec<u32>)
    requires
        from <= to <= v@.len(),
    ensures
        r@ == v@.subrange(from as int, to as int),
{
    let mut r: Vec<u32> = Vec::new();
    let mut i = from;
    while i < to
        invariant
            from <= i <= to <= v@.len(),
            r@ == v@.subrange(from as int, i as int),
        decreases to - i,
    {
        r.push(v[i]);
        i = i + 1;
        assert(r@ =~= v@.subrange(from as int, i as int));
    }
    r
}

/// The frames of the best genome to commit: its first `COMMIT` genes, once it is longer
/// than the window; none before.
pub fn committed_prefix(best: &Vec<u32>) -> (r: Option<Vec<u32>>)
    ensures
        best@.len() > WINDOW ==> (r matches Some(p) && p@ == best@.subrange(0, COMMIT as int)),
        best@.len() <= WINDOW ==> r is None,
{
    if best.len() > WINDOW {
        Some(copy_range(best, 0, COMMIT))
    } else {
        None
    }
}

/// Appends the freshly drawn genes `fresh` to `genome` and slides it back into the window.
pub fn extend_genome(genome: &Vec<u32>, fresh: &Vec<u32>) -> (r: Vec<u32>)
    requires
        genome@.len() + fresh@.len() <= usize::MAX,
    ensures
        r@ == slid(genome@ + fresh@),
{
    let mut g = copy_range(genome, 0, genome.len());
    let mut i: usize = 0;
    while i < fresh.len()
        invariant
            i <= fresh@.len(),
            g@ == genome@ + fresh@.subrange(0, i as int),
        decreases fresh@.len() - i,
    {
        g.push(fresh[i]);
        i = i + 1;
        assert(g@ =~= genome@ + fresh@.subrange(0, i as int));
    }
    assert(fresh@.subrange(0, i as int) =~= fresh@);
    if g.len() > WINDOW {
        copy_range(&g, COMMIT, g.len())
    } else {
        g
    }
}

/// How a replay goes on after one frame aimed at checkpoint `index` of `total`: a death
/// stops it where it is; a checkpoint hit moves on to the next checkpoint (after the last
/// one, `index` equals `total` and the replay tests no further checkpoint); otherwise
/// nothing changes. Returns the new index and whether the replay stops.
pub fn advance_checkpoint(index: usize, total: usize, result: FrameResult) -> (r: (usize, bool))
    requires
        index < total,
    ensures
        result == FrameResult::Death ==> r == (index, true),
        result == FrameResult::CheckpointHit ==> r == ((index + 1) as usize, false),
        result == FrameResult::Nothing ==> r == (index, false),
        r.0 <= total,
{
    match result {
        FrameResult::Death => (index, true),
        FrameResult::CheckpointHit => (index + 1, false),
        FrameResult::Nothing => (index, false),
    }
}

} // verus!
