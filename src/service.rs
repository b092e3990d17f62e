//! The guard service: its construction gate, its scheduling state machine and
//! the decision loop run on every tick.
use vstd::prelude::*;

use crate::decision::{
    decide, intents, intents_upto, needs_vote, qualifying_indices_upto,
    PendingSubmission, VoteIntent,
};
use crate::parcel::{AccountId, Parcel};

verus! {

/// The largest interval, in seconds, whose length in milliseconds fits a `u64`.
pub const MAX_STEP: u64 = 18446744073709551;

/// Where a guard instance stands. `Disabled` and `Stopped` are terminal.
#[derive(Clone, Copy, Debug, PartialEq, Eq, Structural)]
pub enum GuardState {
    Disabled,
    Idle,
    Evaluating,
    Stopped,
}

/// What happens to a guard instance.
#[derive(Clone, Copy, Debug, PartialEq, Eq, Structural)]
pub enum GuardEvent {
    /// The interval timer fired.
    Tick,
    /// The decision loop started by an earlier tick has finished, whether it
    /// succeeded or handled a failure.
    CycleDone,
    /// Shutdown was requested.
    Stop,
}

/// The next state after `event`, and whether a decision loop starts. A tick
/// that arrives while a cycle is still running is skipped, so cycles never
/// overlap; a stop lets the running cycle finish but starts no other.
pub open spec fn transition(state: GuardState, event: GuardEvent) -> (GuardState, bool) {
    match (state, event) {
        (GuardState::Idle, GuardEvent::Tick) => (GuardState::Evaluating, true),
        (GuardState::Evaluating, GuardEvent::CycleDone) => (GuardState::Idle, false),
        (GuardState::Idle, GuardEvent::Stop) => (GuardState::Stopped, false),
        (GuardState::Evaluating, GuardEvent::Stop) => (GuardState::Stopped, false),
        _ => (state, false),
    }
}

/// The state reached after `events`, and how many decision loops they started.
pub open spec fn run(state: GuardState, events: Seq<GuardEvent>) -> (GuardState, nat)
    decreases events.len(),
{
    if events.len() == 0 {
        (state, 0)
    } else {
        let (next, started) = transition(state, events[0]);
        let (last, count) = run(next, events.drop_first());
        (last, count + if started {
            1nat
        } else {
            0nat
        })
    }
}

impl GuardState {
    /// The state of a freshly constructed instance: only committee members run.
    pub fn initial(is_tech_comm_member: bool) -> (r: GuardState)
        ensures
            r == (if is_tech_comm_member {
                GuardState::Idle
            } else {
                GuardState::Disabled
            }),
    {
        if is_tech_comm_member {
            GuardState::Idle
        } else {
            GuardState::Disabled
        }
    }

    /// Applies `event`; the flag says whether a decision loop is to start.
    pub fn on_event(self, event: GuardEvent) -> (r: (GuardState, bool))
        ensures
            r == transition(self, event),
    {
        match (self, event) {
            (GuardState::Idle, GuardEvent::Tick) => (GuardState::Evaluating, true),
            (GuardState::Evaluating, GuardEvent::CycleDone) => (GuardState::Idle, false),
            (GuardState::Idle, GuardEvent::Stop) => (GuardState::Stopped, false),
            (GuardState::Evaluating, GuardEvent::Stop) => (GuardState::Stopped, false),
            _ => (self, false),
        }
    }
}

/// A disabled or stopped guard stays as it is and starts no decision loop,
/// whatever happens to it.
pub proof fn lemma_terminal_states_are_inert(state: GuardState, events: Seq<GuardEvent>)
    requires
        state == GuardState::Disabled || state == GuardState::Stopped,
    ensures
        run(state, events) == (state, 0nat),
    decreases events.len(),
{
    if events.len() > 0 {
        lemma_terminal_states_are_inert(state, events.drop_first());
    }
}

/// A finished cycle leaves no trace: the instance is back where it was, and
/// the next tick starts a fresh evaluation, exactly as the first one did.
pub proof fn lemma_cycles_repeat(rounds: nat)
    ensures
        run(GuardState::Idle, cycle_events(rounds)) == (GuardState::Idle, rounds),
    decreases rounds,
{
    if rounds > 0 {
        let rest = cycle_events((rounds - 1) as nat);
        lemma_cycles_repeat((rounds - 1) as nat);
        let evs = cycle_events(rounds);
        let mid = evs.drop_first();
        assert(evs[0] == GuardEvent::Tick);
        assert(mid =~= seq![GuardEvent::CycleDone] + rest);
        assert(mid[0] == GuardEvent::CycleDone);
        assert(mid.drop_first() =~= rest);
        assert(run(GuardState::Evaluating, mid) == run(GuardState::Idle, rest));
    }
}

/// `rounds` complete cycles: a tick, then the end of the loop it started.
pub open spec fn cycle_events(rounds: nat) -> Seq<GuardEvent>
    decreases rounds,
{
    if rounds == 0 {
        seq![]
    } else {
        seq![GuardEvent::Tick, GuardEvent::CycleDone] + cycle_events((rounds - 1) as nat)
    }
}

/// A guard for one account, ticking every `step` seconds.
pub struct GuardService {
    pub step: u64,
    pub guard_account: AccountId,
}

impl GuardService {
    pub open spec fn wf(&self) -> bool {
        1 <= self.step <= MAX_STEP
    }

    /// A guard exists only for a technical committee member; for anyone else
    /// there is nothing to schedule.
    pub fn new(guard_account: AccountId, step: u64, is_tech_comm_member: bool) -> (r: Option<
        GuardService,
    >)
        requires
            1 <= step <= MAX_STEP,
        ensures
            r is Some <==> is_tech_comm_member,
            r matches Some(g) ==> g.wf() && g.step == step && g.guard_account@ == guard_account@,
    {
        if is_tech_comm_member {
            Some(GuardService { step, guard_account })
        } else {
            None
        }
    }

    /// The tick interval in milliseconds.
    pub fn interval_millis(&self) -> (r: u64)
        requires
            self.wf(),
        ensures
            r == self.step * 1000,
    {
        self.step * 1000
    }

    /// Indices of the submissions whose ground truth must be fetched this
    /// cycle: those above `last_confirmed` that this account has not voted on.
    pub fn pending_to_check(&self, last_confirmed: u64, pending: &Vec<PendingSubmission>) -> (r: Vec<
        usize,
    >)
        ensures
            r@ == qualifying_indices_upto(
                last_confirmed,
                self.guard_account@,
                pending@,
                pending.len() as nat,
            ),
    {
        let mut out: Vec<usize> = Vec::new();
        let mut i: usize = 0;
        while i < pending.len()
            invariant
                i <= pending.len(),
                out@ == qualifying_indices_upto(
                    last_confirmed,
                    self.guard_account@,
                    pending@,
                    i as nat,
                ),
            decreases pending.len() - i,
        {
            if needs_vote(&pending[i], last_confirmed, &self.guard_account) {
                out.push(i);
            }
            i = i + 1;
        }
        out
    }

    /// One decision cycle: for each pending submission, in order, a vote when
    /// it lies above `last_confirmed`, this account has not voted on it, and
    /// its ground truth `truths[i]` was fetched; valid exactly when the
    /// relayed parcel equals the ground truth.
    pub fn guard(
        &self,
        last_confirmed: u64,
        pending: &Vec<PendingSubmission>,
        truths: &Vec<Option<Parcel>>,
    ) -> (r: Vec<VoteIntent>)
        requires
            truths.len() == pending.len(),
        ensures
            r@ == intents(last_confirmed, self.guard_account@, pending@, truths@),
    {
        let mut out: Vec<VoteIntent> = Vec::new();
        let mut i: usize = 0;
        while i < pending.len()
            invariant
                i <= pending.len(),
                truths.len() == pending.len(),
                out@ == intents_upto(
                    last_confirmed,
                    self.guard_account@,
                    pending@,
                    truths@,
                    i as nat,
                ),
            decreases pending.len() - i,
        {
            if needs_vote(&pending[i], last_confirmed, &self.guard_account) {
                match &truths[i] {
                    Some(truth) => {
                        let vote = decide(&pending[i], truth);
                        out.push(vote);
                    },
                    None => {},
                }
            }
            i = i + 1;
        }
        out
    }
}

} // verus!
