//! The poll loop: what one cycle does with the outcome of a read.
//!
//! A cycle starts with the outcome of a read: a report, or nothing where the
//! read failed, which counts as a controller that nobody touches. Before it
//! compares, every seventh cycle clears the record, so that a transition that
//! was missed is made up for within a bounded number of cycles. A cycle ends
//! with what the keyboard did: where it refused an event, the record is
//! cleared as well, and the next cycle starts afresh.

use crate::controller::{
    every_event, lemma_cleared_record_reports_every_button, lemma_same_input_is_quiet,
    planned_events, Controller, State,
};
use crate::history::{in_step, lemma_accepted_poll_brings_keys_into_step};
use crate::keyboard::{Keyboard, Refusal};
use crate::keys::KeyEvent;
use crate::report::Input;
use vstd::prelude::*;

verus! {

/// Every cycle whose number is a multiple of this one clears the record
/// before it compares.
pub const RESYNC_PERIOD: u8 = 7;

/// The number of the cycle after the one numbered `cycle`: the count starts
/// again from zero after 255.
pub open spec fn next_cycle(cycle: u8) -> u8 {
    if cycle == u8::MAX {
        0
    } else {
        (cycle + 1) as u8
    }
}

/// Where a poller stands between two steps.
pub struct PollState {
    /// The record of the controller.
    pub state: State,
    /// The number of the next cycle to begin.
    pub cycle: u8,
    /// The input of the cycle that has begun and not ended.
    pub pending: Option<Input>,
}

impl PollState {
    /// Whether the cycle about to begin clears the record.
    pub open spec fn resync_due(self) -> bool {
        self.cycle % RESYNC_PERIOD == 0
    }

    /// The record that the cycle about to begin compares with.
    pub open spec fn entry(self) -> State {
        if self.resync_due() {
            State::unknown()
        } else {
            self.state
        }
    }

    /// The key events of the cycle about to begin, for the outcome of its
    /// read.
    pub open spec fn events(self, report: Option<[u8; 8]>) -> Seq<KeyEvent> {
        planned_events(self.entry(), Input::of_read(report))
    }

    /// The poller after it began a cycle.
    pub open spec fn begun(self, report: Option<[u8; 8]>) -> PollState {
        PollState {
            state: self.entry(),
            cycle: next_cycle(self.cycle),
            pending: Some(Input::of_read(report)),
        }
    }

    /// The poller after the cycle that had begun ended with the keyboard
    /// accepting the first `accepted` events. Where no cycle had begun,
    /// nothing changes.
    pub open spec fn finished(self, accepted: int) -> PollState {
        match self.pending {
            Some(input) => PollState {
                state: if accepted >= planned_events(self.state, input).len() {
                    State::synced(input)
                } else {
                    State::unknown()
                },
                cycle: self.cycle,
                pending: None,
            },
            None => self,
        }
    }

    /// The poller after `n` whole cycles that all read `report` and in which
    /// the keyboard accepted every event.
    pub open spec fn after_cycles(self, report: Option<[u8; 8]>, n: nat) -> PollState
        decreases n,
    {
        if n == 0 {
            self
        } else {
            let before = self.after_cycles(report, (n - 1) as nat);
            before.begun(report).finished(before.events(report).len() as int)
        }
    }
}

/// The decisions of the poll loop: the controller and the count of cycles.
pub struct Poller {
    controller: Controller,
    cycle: u8,
    pending: Option<Input>,
}

impl View for Poller {
    type V = PollState;

    closed spec fn view(&self) -> PollState {
        PollState { state: self.controller@, cycle: self.cycle, pending: self.pending }
    }
}

impl Poller {
    /// A poller before its first cycle, over a keyboard with every key
    /// released.
    pub fn new() -> (poller: Poller)
        ensures
            poller@ == (PollState { state: State::released(), cycle: 0, pending: None }),
    {
        Poller { controller: Controller::new(), cycle: 0, pending: None }
    }

    /// The record of the controller.
    pub fn state(&self) -> (state: State)
        ensures
            state == self@.state,
    {
        self.controller.state()
    }

    /// Begins a cycle with the outcome of its read, and returns the key events
    /// to hand to the keyboard, in order.
    pub fn begin(&mut self, report: Option<[u8; 8]>) -> (events: Vec<KeyEvent>)
        ensures
            final(self)@ == old(self)@.begun(report),
            events@ == old(self)@.events(report),
            events@.len() <= 17,
    {
        if self.cycle % RESYNC_PERIOD == 0 {
            self.controller.clear_state();
        }
        self.cycle = self.cycle.wrapping_add(1);
        let input = Input::from_read(report);
        self.pending = Some(input);
        self.controller.plan(input)
    }

    /// Ends the cycle that has begun: the keyboard accepted the first
    /// `accepted` events, and refused the next unless it accepted them all.
    /// Tells whether it accepted them all; where it did not, the record is
    /// cleared.
    pub fn finish(&mut self, accepted: usize) -> (complete: bool)
        ensures
            final(self)@ == old(self)@.finished(accepted as int),
            complete == match old(self)@.pending {
                Some(input) => accepted >= planned_events(old(self)@.state, input).len(),
                None => true,
            },
    {
        match self.pending.take() {
            Some(input) => {
                let complete = self.controller.settle(input, accepted);
                if !complete {
                    self.controller.clear_state();
                }
                complete
            },
            None => true,
        }
    }

    /// Runs a whole cycle on the keyboard: begins it, hands over the key
    /// events up to the first that the keyboard refuses, and ends it.
    /// Whatever the keyboard does, the keys stay in step with the record.
    pub fn cycle(&mut self, report: Option<[u8; 8]>, keyboard: &mut Keyboard) -> (result: Result<
        (),
        Refusal,
    >)
        ensures
            in_step(old(keyboard).accepted(), old(self)@.state) ==> in_step(
                final(keyboard).accepted(),
                final(self)@.state,
            ),
            match result {
                Ok(()) => {
                    &&& final(self)@ == old(self)@.begun(report).finished(
                        old(self)@.events(report).len() as int,
                    )
                    &&& final(keyboard).requests() == old(keyboard).requests() + old(
                        self,
                    )@.events(report)
                    &&& final(keyboard).accepted() == old(keyboard).accepted() + old(
                        self,
                    )@.events(report)
                },
                Err(refusal) => {
                    &&& refusal.position < old(self)@.events(report).len()
                    &&& refusal.event == old(self)@.events(report)[refusal.position as int]
                    &&& final(self)@ == old(self)@.begun(report).finished(refusal.position as int)
                    &&& final(keyboard).requests() == old(keyboard).requests() + old(
                        self,
                    )@.events(report).take(refusal.position + 1)
                    &&& final(keyboard).accepted() == old(keyboard).accepted() + old(
                        self,
                    )@.events(report).take(refusal.position as int)
                },
            },
    {
        let events = self.begin(report);
        match keyboard.inject_all(&events) {
            Ok(()) => {
                self.finish(events.len());
                proof {
                    if in_step(old(keyboard).accepted(), old(self)@.state) {
                        lemma_cycle_keeps_keys_in_step(
                            old(keyboard).accepted(),
                            old(self)@,
                            report,
                            events.len() as int,
                        );
                    }
                }
                Ok(())
            },
            Err(refusal) => {
                self.finish(refusal.position);
                Err(refusal)
            },
        }
    }
}

/// No cycle leaves a key stuck. Where the keys stand as the record says
/// before a cycle, they do so after it, whatever the keyboard accepted: after
/// a cycle that it accepted in full every key stands where its button stands
/// in the input, and after a refusal nothing is recorded that the keys could
/// contradict.
pub proof fn lemma_cycle_keeps_keys_in_step(
    history: Seq<KeyEvent>,
    start: PollState,
    report: Option<[u8; 8]>,
    accepted: int,
)
    requires
        in_step(history, start.state),
        0 <= accepted,
    ensures
        accepted >= start.events(report).len() ==> in_step(
            history + start.events(report),
            start.begun(report).finished(accepted).state,
        ),
        accepted < start.events(report).len() ==> in_step(
            history + start.events(report).take(accepted),
            start.begun(report).finished(accepted).state,
        ),
{
    if accepted >= start.events(report).len() {
        lemma_accepted_poll_brings_keys_into_step(history, start.entry(), Input::of_read(report));
    }
}

/// After `n` whole cycles the count has advanced by `n`, and from the first
/// cycle on the record says what the input said.
pub proof fn lemma_after_cycles(start: PollState, report: Option<[u8; 8]>, n: nat)
    ensures
        start.after_cycles(report, n).cycle == (start.cycle + n) % 256,
        n > 0 ==> start.after_cycles(report, n).state == State::synced(Input::of_read(report)),
    decreases n,
{
    if n > 0 {
        lemma_after_cycles(start, report, (n - 1) as nat);
    }
}

/// A cycle in which the keyboard refused an event is made up for at once:
/// the next cycle tells the keyboard where every button stands, whatever its
/// number and whatever it reads.
pub proof fn lemma_refusal_forces_resync(
    start: PollState,
    report: Option<[u8; 8]>,
    accepted: int,
    next: Option<[u8; 8]>,
)
    requires
        accepted < start.events(report).len(),
    ensures
        start.begun(report).finished(accepted).state == State::unknown(),
        start.begun(report).finished(accepted).events(next) == every_event(Input::of_read(next)),
{
    lemma_cleared_record_reports_every_button(Input::of_read(next));
}

/// The number of cycles from the one numbered `cycle` to the next that clears
/// the record.
pub open spec fn cycles_until_resync(cycle: u8) -> nat {
    let rest = cycle % RESYNC_PERIOD;
    if rest == 0 {
        0
    } else if cycle + RESYNC_PERIOD - rest <= u8::MAX {
        (RESYNC_PERIOD - rest) as nat
    } else {
        (u8::MAX + 1 - cycle) as nat
    }
}

proof fn lemma_resync_offsets(cycle: u8, j: nat)
    requires
        j < 7,
    ensures
        cycles_until_resync(cycle) < 7,
        ((cycle + cycles_until_resync(cycle)) % 256) % 7 == 0,
        cycle < 250 || cycle > 252 ==> (((cycle + j) % 256) % 7 == 0 <==> j
            == cycles_until_resync(cycle)),
{
}

proof fn lemma_cycle_events(state: PollState, report: Option<[u8; 8]>)
    ensures
        state.resync_due() ==> state.events(report) == every_event(Input::of_read(report)),
        !state.resync_due() && state.state == State::synced(Input::of_read(report))
            ==> state.events(report) == Seq::<KeyEvent>::empty(),
{
    lemma_cleared_record_reports_every_button(Input::of_read(report));
    lemma_same_input_is_quiet(state.state, Input::of_read(report), 0);
}

/// Of any seven cycles in a row, whatever the count, at least one clears the
/// record: with a keyboard that accepts every event, a transition that was
/// missed is made up for before seven cycles have passed.
pub proof fn lemma_resync_within_seven_cycles(start: PollState, report: Option<[u8; 8]>)
    ensures
        cycles_until_resync(start.cycle) < RESYNC_PERIOD,
        start.after_cycles(report, cycles_until_resync(start.cycle)).resync_due(),
        start.after_cycles(report, cycles_until_resync(start.cycle)).events(report)
            == every_event(Input::of_read(report)),
{
    let k = cycles_until_resync(start.cycle);
    lemma_resync_offsets(start.cycle, 0);
    lemma_after_cycles(start, report, k);
    lemma_cycle_events(start.after_cycles(report, k), report);
}

/// Seven cycles in a row that read the same report, with a keyboard that
/// accepts every event, hold exactly one cycle that clears the record: the
/// one that `cycles_until_resync` names. That cycle tells the keyboard where
/// every button stands, a key-down for each button that is held included,
/// and every other cycle after the first has no key events at all.
///
/// The count of cycles starts again from zero after 255, and 256 is no
/// multiple of seven: the cycles 252 and 0 both clear the record and lie four
/// apart. The law leaves out the runs that hold both.
pub proof fn lemma_one_resync_in_seven_cycles(start: PollState, report: Option<[u8; 8]>)
    requires
        start.cycle < 250 || start.cycle > 252,
    ensures
        cycles_until_resync(start.cycle) < RESYNC_PERIOD,
        forall|j: nat|
            j < RESYNC_PERIOD ==> (#[trigger] start.after_cycles(report, j)).resync_due() == (j
                == cycles_until_resync(start.cycle)),
        start.after_cycles(report, cycles_until_resync(start.cycle)).events(report)
            == every_event(Input::of_read(report)),
        forall|j: nat|
            0 < j < RESYNC_PERIOD && j != cycles_until_resync(start.cycle) ==> (
            #[trigger] start.after_cycles(report, j)).events(report) == Seq::<KeyEvent>::empty(),
{
    let k = cycles_until_resync(start.cycle);
    lemma_resync_offsets(start.cycle, k);
    assert forall|j: nat| j < RESYNC_PERIOD implies {
        &&& (#[trigger] start.after_cycles(report, j)).resync_due() == (j == k)
        &&& j == k ==> start.after_cycles(report, j).events(report) == every_event(
            Input::of_read(report),
        )
        &&& 0 < j && j != k ==> start.after_cycles(report, j).events(report) == Seq::<
            KeyEvent,
        >::empty()
    } by {
        lemma_after_cycles(start, report, j);
        lemma_resync_offsets(start.cycle, j);
        lemma_cycle_events(start.after_cycles(report, j), report);
    }
    assert(start.after_cycles(report, k).resync_due());
}

} // verus!
