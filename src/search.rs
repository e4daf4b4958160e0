use vstd::prelude::*;

verus! {

/// Angles are thousandths of a degree in `0..FULL_TURN`.
pub const FULL_TURN: u32 = 360000;

/// Number of scan passes, from the coarsest step to the finest.
pub const PASSES: usize = 4;

/// The step of pass `p`: a degree, then a tenth, a hundredth and a thousandth.
pub open spec fn pass_step(p: int) -> int {
    if p == 0 {
        1000
    } else if p == 1 {
        100
    } else if p == 2 {
        10
    } else {
        1
    }
}

/// How many angles pass `p` scans: the whole turn at first; later, the angles within one
/// step of the previous pass around the best angle so far.
pub open spec fn pass_len(p: int) -> int {
    if p == 0 {
        360
    } else {
        21
    }
}

/// The `i`-th angle scanned by pass `p` around `center`.
pub open spec fn candidate_angle(p: int, center: int, i: int) -> int {
    if p == 0 {
        i * 1000
    } else {
        (center + (i - 10) * pass_step(p) + FULL_TURN) % (FULL_TURN as int)
    }
}

/// A score is better than the best so far where it avoids death and is strictly lower:
/// on equal scores the angle scanned first stays.
pub open spec fn improves(score: Option<u64>, best: Option<(u32, u64)>) -> bool {
    match score {
        None => false,
        Some(v) => match best {
            None => true,
            Some(b) => v < b.1,
        },
    }
}

/// The best (angle, score) among the evaluations `e`, in their order.
pub open spec fn first_best(e: Seq<(u32, Option<u64>)>) -> Option<(u32, u64)>
    decreases e.len(),
{
    if e.len() == 0 {
        None
    } else {
        let prev = first_best(e.drop_last());
        if improves(e.last().1, prev) {
            Some((e.last().0, e.last().1->0))
        } else {
            prev
        }
    }
}

/// The best score `a` is at least as good as `b`; a missing score (death) is the worst.
pub open spec fn score_le(a: Option<u64>, b: Option<u64>) -> bool {
    match b {
        None => true,
        Some(y) => match a {
            None => false,
            Some(x) => x <= y,
        },
    }
}

pub open spec fn best_score(b: Option<(u32, u64)>) -> Option<u64> {
    match b {
        None => None,
        Some(p) => Some(p.1),
    }
}

/// Where the scan goes after the evaluation at `index` of pass `pass`, given the best so
/// far `best`: the next angle of the pass; or the next pass, around the best angle; or the
/// end (written as pass `PASSES`), after the last pass or after a first pass in which
/// every angle meant death.
pub open spec fn next_position(pass: int, index: int, center: int, best: Option<(u32, u64)>) -> (
    int,
    int,
    int,
) {
    if index + 1 < pass_len(pass) {
        (pass, index + 1, center)
    } else if best is None {
        (PASSES as int, 0, center)
    } else if pass + 1 < PASSES {
        (pass + 1, 0, (best->0).0 as int)
    } else {
        (PASSES as int, 0, center)
    }
}

/// A coarse-to-fine scan of the angle domain for one frame. The caller asks for the next
/// angle, evaluates it (a score, or `None` where the frame ends in death), and records the
/// score; lower scores are better.
pub struct AngleSearch {
    pass: usize,
    index: usize,
    center: u32,
    best: Option<(u32, u64)>,
    evaluated: Ghost<Seq<(u32, Option<u64>)>>,
    pass_bests: Ghost<Seq<Option<u64>>>,
}

impl AngleSearch {
    pub closed spec fn pass(&self) -> int {
        self.pass as int
    }

    pub closed spec fn index(&self) -> int {
        self.index as int
    }

    pub closed spec fn center(&self) -> int {
        self.center as int
    }

    /// The best (angle, score) so far.
    pub closed spec fn best(&self) -> Option<(u32, u64)> {
        self.best
    }

    /// Every (angle, score) recorded so far, in order.
    pub closed spec fn evaluated(&self) -> Seq<(u32, Option<u64>)> {
        self.evaluated@
    }

    /// The best score at the end of each finished pass, in order.
    pub closed spec fn pass_bests(&self) -> Seq<Option<u64>> {
        self.pass_bests@
    }

    pub open spec fn is_done(&self) -> bool {
        self.pass() >= PASSES
    }

    pub closed spec fn wf(&self) -> bool {
        &&& self.pass <= PASSES
        &&& self.pass < PASSES ==> self.index < pass_len(self.pass as int)
        &&& self.center < FULL_TURN
        &&& self.best == first_best(self.evaluated@)
        &&& (self.best matches Some(b) ==> b.0 < FULL_TURN)
        &&& forall|k: int|
            0 <= k < self.pass_bests@.len() ==> score_le(
                best_score(self.best),
                #[trigger] self.pass_bests@[k],
            )
        &&& forall|i: int, j: int|
            0 <= i < j < self.pass_bests@.len() ==> score_le(
                #[trigger] self.pass_bests@[j],
                #[trigger] self.pass_bests@[i],
            )
    }

    /// A scan that has evaluated nothing yet.
    pub fn new() -> (r: AngleSearch)
        ensures
            r.wf(),
            r.pass() == 0,
            r.index() == 0,
            r.center() == 0,
            r.evaluated() == Seq::<(u32, Option<u64>)>::empty(),
            r.pass_bests() == Seq::<Option<u64>>::empty(),
            r.best() is None,
    {
        AngleSearch {
            pass: 0,
            index: 0,
            center: 0,
            best: None,
            evaluated: Ghost(Seq::empty()),
            pass_bests: Ghost(Seq::empty()),
        }
    }

    /// The angle to evaluate next, or `None` once the scan is over.
    pub fn candidate(&self) -> (r: Option<u32>)
        requires
            self.wf(),
        ensures
            self.is_done() ==> r is None,
            !self.is_done() ==> r == Some(
                candidate_angle(self.pass(), self.center(), self.index()) as u32,
            ),
            r matches Some(a) ==> a < FULL_TURN,
    {
        if self.pass >= PASSES {
            return None;
        }
        let i = self.index as u64;
        if self.pass == 0 {
            return Some((i * 1000) as u32);
        }
        let step: u64 = if self.pass == 1 {
            100
        } else if self.pass == 2 {
            10
        } else {
            1
        };
        let a = (self.center as u64 + FULL_TURN as u64 + i * step - 10 * step) % (FULL_TURN as u64);
        Some(a as u32)
    }

    /// Records the score of the current candidate angle (`None`: death) and moves on.
    pub fn record(&mut self, score: Option<u64>)
        requires
            old(self).wf(),
            !old(self).is_done(),
        ensures
            final(self).wf(),
            final(self).evaluated() == old(self).evaluated().push(
                (
                    candidate_angle(old(self).pass(), old(self).center(), old(self).index()) as u32,
                    score,
                ),
            ),
            final(self).best() == first_best(final(self).evaluated()),
            (final(self).pass(), final(self).index(), final(self).center()) == next_position(
                old(self).pass(),
                old(self).index(),
                old(self).center(),
                final(self).best(),
            ),
            final(self).pass() == old(self).pass() ==> final(self).pass_bests()
                == old(self).pass_bests(),
            final(self).pass() != old(self).pass() ==> final(self).pass_bests()
                == old(self).pass_bests().push(best_score(final(self).best())),
    {
        let angle = match self.candidate() {
            Some(a) => a,
            None => 0,
        };
        let ghost e = self.evaluated@.push((angle, score));
        assert(e.drop_last() =~= self.evaluated@);
        let better = match score {
            None => false,
            Some(v) => match self.best {
                None => true,
                Some(b) => v < b.1,
            },
        };
        if better {
            if let Some(v) = score {
                self.best = Some((angle, v));
            }
        }
        self.evaluated = Ghost(e);
        if self.index + 1 < (if self.pass == 0 {
            360
        } else {
            21
        }) {
            self.index = self.index + 1;
            return ;
        }
        self.pass_bests = Ghost(
            self.pass_bests@.push(
                match self.best {
                    None => None,
                    Some(b) => Some(b.1),
                },
            ),
        );
        self.index = 0;
        match self.best {
            None => {
                self.pass = PASSES;
            },
            Some(b) => {
                if self.pass + 1 < PASSES {
                    self.pass = self.pass + 1;
                    self.center = b.0;
                } else {
                    self.pass = PASSES;
                }
            },
        }
    }

    /// The best angle found, or `None` where every evaluated angle meant death.
    pub fn result(&self) -> (r: Option<u32>)
        requires
            self.wf(),
        ensures
            r == (match first_best(self.evaluated()) {
                None => None,
                Some(b) => Some(b.0),
            }),
    {
        match self.best {
            None => None,
            Some(b) => Some(b.0),
        }
    }
}

/// Each pass ends with a best score no worse than the pass before it.
pub proof fn lemma_passes_never_regress(s: AngleSearch, i: int, j: int)
    requires
        s.wf(),
        0 <= i < j < s.pass_bests().len(),
    ensures
        score_le(s.pass_bests()[j], s.pass_bests()[i]),
{
}

} // verus!
