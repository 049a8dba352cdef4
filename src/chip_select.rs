//! The readiness handshake that guards every bus transaction.
//!
//! Before selecting the co-processor, wait for its busy line to read low
//! (ready); then drive chip-select low and wait for the busy line to read high
//! (the co-processor has taken the transaction). Each wait polls the line a
//! fixed number of times, pausing a millisecond after each unsuccessful read.
use vstd::prelude::*;

use crate::poll::{run, PollStep, Poller};

verus! {

/// Polls of the busy line allowed before chip-select is asserted.
pub const READY_POLLS: u32 = 10_000;

/// Polls of the busy line allowed after chip-select is asserted.
pub const ACK_POLLS: u32 = 1_000;

/// Pause between two polls of the busy line, in milliseconds.
pub const BUSY_POLL_PAUSE_MS: u16 = 1;

/// Why selecting the co-processor failed.
#[derive(Debug)]
pub enum WifiNinaChipSelectError<CsPinError, BusyPinError> {
    CsPinError(CsPinError),
    BusyPinError(BusyPinError),
    DeviceReadyTimeout,
}

/// Where a handshake stands.
#[derive(Debug, Copy, Clone, PartialEq, Eq, Structural)]
pub enum SelectPhase {
    /// Waiting for the busy line to read low.
    AwaitIdle,
    /// Ready seen; chip-select is being driven low.
    Asserting,
    /// Waiting for the busy line to read high.
    AwaitAck,
    /// The bus is ours until chip-select is driven high again.
    Selected,
    /// A wait ran out of polls.
    TimedOut,
}

/// What the caller does next.
#[derive(Debug, Copy, Clone, PartialEq, Eq, Structural)]
pub enum SelectAction {
    ReadBusy,
    PauseThenReadBusy,
    DriveCsLow,
    Selected,
    /// Pause, then fail with a readiness timeout.
    PauseThenTimeOut,
}

/// One handshake in progress.
#[derive(Debug, Copy, Clone, PartialEq, Eq, Structural)]
pub struct SelectHandshake {
    pub phase: SelectPhase,
    pub poll: Poller,
}

/// The level of the busy line that ends the wait of a phase: low before
/// chip-select is asserted, high after.
pub open spec fn awaited_level(phase: SelectPhase) -> bool {
    phase == SelectPhase::AwaitAck
}

/// The handshake after reading the busy line at level `busy_high`.
pub open spec fn on_busy_spec(h: SelectHandshake, busy_high: bool) -> (SelectHandshake, SelectAction) {
    let (p, step) = h.poll.next(busy_high == awaited_level(h.phase));
    match step {
        PollStep::Done => if h.phase == SelectPhase::AwaitIdle {
            (SelectHandshake { phase: SelectPhase::Asserting, poll: p }, SelectAction::DriveCsLow)
        } else {
            (SelectHandshake { phase: SelectPhase::Selected, poll: p }, SelectAction::Selected)
        },
        PollStep::Retry => (SelectHandshake { phase: h.phase, poll: p }, SelectAction::PauseThenReadBusy),
        PollStep::Exhausted => (SelectHandshake { phase: SelectPhase::TimedOut, poll: p }, SelectAction::PauseThenTimeOut),
    }
}

impl SelectHandshake {
    /// Whether the handshake is waiting on the busy line with polls left.
    pub open spec fn awaiting(self) -> bool {
        (self.phase == SelectPhase::AwaitIdle || self.phase == SelectPhase::AwaitAck) && self.poll.can_retry()
    }

    /// A handshake that starts by reading the busy line.
    pub fn new() -> (r: SelectHandshake)
        ensures
            r == (SelectHandshake { phase: SelectPhase::AwaitIdle, poll: Poller { misses: 0, limit: READY_POLLS } }),
            r.awaiting(),
    {
        SelectHandshake { phase: SelectPhase::AwaitIdle, poll: Poller::new(READY_POLLS) }
    }

    /// Takes in one reading of the busy line.
    pub fn on_busy_level(&mut self, busy_high: bool) -> (r: SelectAction)
        requires
            old(self).awaiting(),
        ensures
            (*final(self), r) == on_busy_spec(*old(self), busy_high),
            r == SelectAction::PauseThenReadBusy ==> final(self).awaiting(),
    {
        let hit = busy_high == (self.phase == SelectPhase::AwaitAck);
        let step = self.poll.observe(hit);
        match step {
            PollStep::Done => {
                if self.phase == SelectPhase::AwaitIdle {
                    self.phase = SelectPhase::Asserting;
                    SelectAction::DriveCsLow
                } else {
                    self.phase = SelectPhase::Selected;
                    SelectAction::Selected
                }
            },
            PollStep::Retry => SelectAction::PauseThenReadBusy,
            PollStep::Exhausted => {
                self.phase = SelectPhase::TimedOut;
                SelectAction::PauseThenTimeOut
            },
        }
    }

    /// Chip-select is now low: wait, with a fresh budget, for the busy line to
    /// read high.
    pub fn on_cs_asserted(&mut self) -> (r: SelectAction)
        requires
            old(self).phase == SelectPhase::Asserting,
        ensures
            *final(self) == (SelectHandshake { phase: SelectPhase::AwaitAck, poll: Poller { misses: 0, limit: ACK_POLLS } }),
            final(self).awaiting(),
            r == SelectAction::ReadBusy,
    {
        self.phase = SelectPhase::AwaitAck;
        self.poll = Poller::new(ACK_POLLS);
        SelectAction::ReadBusy
    }
}

/// The handshake and the last action after a run of busy-line readings.
pub open spec fn run_levels(h: SelectHandshake, levels: Seq<bool>) -> (SelectHandshake, SelectAction)
    decreases levels.len(),
{
    if levels.len() <= 1 {
        on_busy_spec(h, levels.len() == 1 && levels[0])
    } else {
        run_levels(on_busy_spec(h, levels[0]).0, levels.drop_first())
    }
}

/// Selecting gives up with a timeout after exactly 10,000 readings of a busy
/// line that stays high before chip-select is asserted, and after exactly
/// 1,000 readings of a line that stays low once it is; with fewer readings it
/// pauses and reads again.
pub proof fn lemma_select_budgets(n: nat)
    ensures
        1 <= n <= READY_POLLS ==> run_levels(
            SelectHandshake { phase: SelectPhase::AwaitIdle, poll: Poller { misses: 0, limit: READY_POLLS } },
            Seq::new(n, |i: int| true),
        ).1 == (if n == READY_POLLS { SelectAction::PauseThenTimeOut } else { SelectAction::PauseThenReadBusy }),
        1 <= n <= ACK_POLLS ==> run_levels(
            SelectHandshake { phase: SelectPhase::AwaitAck, poll: Poller { misses: 0, limit: ACK_POLLS } },
            Seq::new(n, |i: int| false),
        ).1 == (if n == ACK_POLLS { SelectAction::PauseThenTimeOut } else { SelectAction::PauseThenReadBusy }),
{
    if 1 <= n <= READY_POLLS {
        lemma_run_misses(SelectPhase::AwaitIdle, Poller { misses: 0, limit: READY_POLLS }, n);
    }
    if 1 <= n <= ACK_POLLS {
        lemma_run_misses(SelectPhase::AwaitAck, Poller { misses: 0, limit: ACK_POLLS }, n);
    }
}

/// While the awaited level never comes, the handshake follows its poller.
proof fn lemma_run_misses(phase: SelectPhase, p: Poller, n: nat)
    requires
        phase == SelectPhase::AwaitIdle || phase == SelectPhase::AwaitAck,
        1 <= n,
        p.misses + n <= p.limit,
    ensures
        ({
            let levels = Seq::new(n, |i: int| !awaited_level(phase));
            let (h, a) = run_levels(SelectHandshake { phase, poll: p }, levels);
            &&& h.poll == run(p, Seq::new(n, |i: int| false)).0
            &&& a == (if run(p, Seq::new(n, |i: int| false)).1 == PollStep::Exhausted {
                SelectAction::PauseThenTimeOut
            } else {
                SelectAction::PauseThenReadBusy
            })
            &&& h.poll.misses == p.misses + n
            &&& a == (if p.misses + n == p.limit { SelectAction::PauseThenTimeOut } else { SelectAction::PauseThenReadBusy })
        }),
    decreases n,
{
    let levels = Seq::new(n, |i: int| !awaited_level(phase));
    let misses = Seq::new(n, |i: int| false);
    if n > 1 {
        let q = p.next(false).0;
        assert(levels.drop_first() =~= Seq::new((n - 1) as nat, |i: int| !awaited_level(phase)));
        assert(misses.drop_first() =~= Seq::new((n - 1) as nat, |i: int| false));
        lemma_run_misses(phase, q, (n - 1) as nat);
    }
}

} // verus!
