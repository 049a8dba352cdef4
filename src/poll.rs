//! A bounded poll: every wait of the driver tries a fixed number of times,
//! pausing between tries, and gives up when the budget is spent.
use vstd::prelude::*;

verus! {

/// What to do after one try.
#[derive(Debug, Copy, Clone, PartialEq, Eq, Structural)]
pub enum PollStep {
    /// The awaited condition holds.
    Done,
    /// Pause, then try again.
    Retry,
    /// The try missed and was the last one allowed: pause, then give up.
    Exhausted,
}

/// Counts the unsuccessful tries of one wait.
#[derive(Debug, Copy, Clone, PartialEq, Eq, Structural)]
pub struct Poller {
    pub misses: u32,
    pub limit: u32,
}

impl Poller {
    /// A well-formed poller has tries left or has just used its last.
    pub open spec fn wf(self) -> bool {
        self.misses <= self.limit
    }

    /// Whether another try may follow.
    pub open spec fn can_retry(self) -> bool {
        self.misses < self.limit
    }

    /// The step after one try: `hit` says whether the condition held.
    pub open spec fn next(self, hit: bool) -> (Poller, PollStep) {
        if hit {
            (self, PollStep::Done)
        } else if self.misses + 1 >= self.limit {
            (Poller { misses: (self.misses + 1) as u32, ..self }, PollStep::Exhausted)
        } else {
            (Poller { misses: (self.misses + 1) as u32, ..self }, PollStep::Retry)
        }
    }

    /// A fresh poll that allows `limit` tries.
    pub fn new(limit: u32) -> (r: Poller)
        requires
            limit > 0,
        ensures
            r == (Poller { misses: 0, limit }),
            r.wf(),
            r.can_retry(),
    {
        Poller { misses: 0, limit }
    }

    /// Records one try.
    pub fn observe(&mut self, hit: bool) -> (r: PollStep)
        requires
            old(self).can_retry(),
        ensures
            (*final(self), r) == old(self).next(hit),
            final(self).wf(),
            r == PollStep::Retry ==> final(self).can_retry(),
    {
        if hit {
            PollStep::Done
        } else {
            self.misses = self.misses + 1;
            if self.misses >= self.limit {
                PollStep::Exhausted
            } else {
                PollStep::Retry
            }
        }
    }
}

/// The poller and the last step after a run of tries, each step taken while
/// tries were left.
pub open spec fn run(p: Poller, hits: Seq<bool>) -> (Poller, PollStep)
    decreases hits.len(),
{
    if hits.len() <= 1 {
        p.next(hits.len() == 1 && hits[0])
    } else {
        run(p.next(hits[0]).0, hits.drop_first())
    }
}

/// A run of `n` misses from a fresh poll of `limit` tries: every step but the
/// `limit`-th is a retry, and the `limit`-th gives up. So a wait gives up after
/// exactly `limit` unsuccessful tries, never sooner.
pub proof fn lemma_gives_up_after_exactly_limit(limit: u32, n: nat)
    requires
        1 <= n <= limit,
    ensures
        run(Poller { misses: 0, limit }, Seq::new(n, |i: int| false)).0.misses == n,
        run(Poller { misses: 0, limit }, Seq::new(n, |i: int| false)).1
            == (if n == limit { PollStep::Exhausted } else { PollStep::Retry }),
{
    lemma_misses_from(Poller { misses: 0, limit }, n);
}

proof fn lemma_misses_from(p: Poller, n: nat)
    requires
        1 <= n,
        p.misses + n <= p.limit,
    ensures
        run(p, Seq::new(n, |i: int| false)).0.misses == p.misses + n,
        run(p, Seq::new(n, |i: int| false)).1
            == (if p.misses + n == p.limit { PollStep::Exhausted } else { PollStep::Retry }),
    decreases n,
{
    let s = Seq::new(n, |i: int| false);
    if n > 1 {
        let q = p.next(false).0;
        assert(s.drop_first() =~= Seq::new((n - 1) as nat, |i: int| false));
        lemma_misses_from(q, (n - 1) as nat);
    }
}

} // verus!
