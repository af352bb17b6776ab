//! The controller: what the keyboard was last told, and what to tell it next.
//!
//! The controller records, for each group of buttons, the mask that the
//! keyboard was brought to. A poll is compared with the record group by
//! group, the face and shoulder buttons first, then the extra buttons, then
//! the directional pad, and every difference becomes one key event. When a
//! report may have been missed the record is cleared: the next poll then
//! tells the keyboard where every button stands.

use crate::dpad::{convert_dpad, direction_mask};
use crate::history::{in_step, lemma_accepted_poll_brings_keys_into_step};
use crate::keyboard::{Keyboard, Refusal};
use crate::keys::{
    button_definitions, button_table, dpad_definitions, dpad_table, extra_definitions,
    extra_table, key_rank, lemma_table_masks, lemma_tables_are_ranked, KeyEvent, DPAD_MASK,
    EXTRA_MASK,
};
use crate::report::Input;
use crate::transition::{
    all_events, difference, group_events, handle_group, lemma_group_events_ascend,
    lemma_recorded_group_is_quiet, lemma_unknown_group_reports_all,
};
use vstd::prelude::*;

verus! {

/// What is recorded of the three groups. A group holds the mask that the
/// keyboard was last brought to, a set bit for a key that is down, or `None`
/// where that is not known.
#[derive(Clone, Copy, Debug, PartialEq, Eq)]
pub struct State {
    /// The face and shoulder buttons.
    pub buttons: Option<u8>,
    /// The extra buttons.
    pub extra: Option<u8>,
    /// The direction mask of the directional pad.
    pub dpad: Option<u8>,
}

impl State {
    /// Every button is known to be released.
    pub open spec fn released() -> State {
        State { buttons: Some(0), extra: Some(0), dpad: Some(0) }
    }

    /// Nothing is known of any button.
    pub open spec fn unknown() -> State {
        State { buttons: None, extra: None, dpad: None }
    }

    /// The keyboard stands as `input` says: of each group, the bits of the
    /// input that belong to a logical button.
    pub open spec fn synced(input: Input) -> State {
        State {
            buttons: Some(input.buttons),
            extra: Some(input.extra & EXTRA_MASK),
            dpad: Some(direction_mask(input.dpad)),
        }
    }

    /// No group records a bit that belongs to no button. (Of the face and
    /// shoulder buttons every bit belongs to one.)
    pub open spec fn well_formed(self) -> bool {
        &&& self.extra matches Some(mask) ==> mask & EXTRA_MASK == mask
        &&& self.dpad matches Some(mask) ==> mask & DPAD_MASK == mask
    }

    /// The record in which every button is released.
    pub fn new() -> (state: State)
        ensures
            state == State::released(),
            state.well_formed(),
    {
        proof {
            lemma_masked_twice(0, 0);
        }
        State { buttons: Some(0), extra: Some(0), dpad: Some(0) }
    }
}

proof fn lemma_masked_twice(extra: u8, cleaned: u8)
    by (bit_vector)
    requires
        cleaned <= 0x0C,
    ensures
        (extra & 0x1F) & 0x1F == extra & 0x1F,
        cleaned & 0x0F == cleaned,
        0u8 & 0x1F == 0,
{
}

/// The key events of the face and shoulder buttons.
pub open spec fn button_events(recorded: Option<u8>, buttons: u8) -> Seq<KeyEvent> {
    group_events(button_definitions(), buttons, difference(recorded, buttons))
}

/// The key events of the extra buttons.
pub open spec fn extra_events(recorded: Option<u8>, extra: u8) -> Seq<KeyEvent> {
    group_events(extra_definitions(), extra, difference(recorded, extra))
}

/// The key events of the directional pad, whose hat code is `dpad`.
pub open spec fn dpad_events(recorded: Option<u8>, dpad: u8) -> Seq<KeyEvent> {
    group_events(
        dpad_definitions(),
        direction_mask(dpad),
        difference(recorded, direction_mask(dpad)),
    )
}

/// The key events that bring the keyboard from `state` to `input`, in the
/// order in which they are handed over: the three groups one after the other.
pub open spec fn planned_events(state: State, input: Input) -> Seq<KeyEvent> {
    button_events(state.buttons, input.buttons) + extra_events(state.extra, input.extra)
        + dpad_events(state.dpad, input.dpad)
}

/// The key events that tell the keyboard where every button stands in
/// `input`: one for each of the seventeen buttons.
pub open spec fn every_event(input: Input) -> Seq<KeyEvent> {
    all_events(button_definitions(), input.buttons) + all_events(
        extra_definitions(),
        input.extra,
    ) + all_events(dpad_definitions(), direction_mask(input.dpad))
}

/// The record after the keyboard accepted the first `accepted` of the planned
/// events and refused the next, or accepted them all. A group is recorded
/// once all its events are accepted; the group of the refused event and the
/// groups after it stay as they were.
pub open spec fn settled(state: State, input: Input, accepted: int) -> State {
    let after_buttons = button_events(state.buttons, input.buttons).len();
    let after_extra = after_buttons + extra_events(state.extra, input.extra).len();
    let after_dpad = after_extra + dpad_events(state.dpad, input.dpad).len();
    State {
        buttons: if accepted >= after_buttons {
            State::synced(input).buttons
        } else {
            state.buttons
        },
        extra: if accepted >= after_extra {
            State::synced(input).extra
        } else {
            state.extra
        },
        dpad: if accepted >= after_dpad {
            State::synced(input).dpad
        } else {
            state.dpad
        },
    }
}

/// The owner of the record.
#[derive(Debug)]
pub struct Controller {
    state: State,
}

impl View for Controller {
    type V = State;

    closed spec fn view(&self) -> State {
        self.state
    }
}

impl Controller {
    #[verifier::type_invariant]
    spec fn well_formed(self) -> bool {
        self.state.well_formed()
    }

    /// A controller that starts from a keyboard with every key released.
    pub fn new() -> (controller: Controller)
        ensures
            controller@ == State::released(),
    {
        Controller { state: State::new() }
    }

    /// The record. It never holds a bit that belongs to no button.
    pub fn state(&self) -> (state: State)
        ensures
            state == self@,
            state.well_formed(),
    {
        proof {
            use_type_invariant(self);
        }
        self.state
    }

    /// Forgets the record, so that the next poll reports on every button.
    pub fn clear_state(&mut self)
        ensures
            final(self)@ == State::unknown(),
    {
        self.state = State { buttons: None, extra: None, dpad: None };
    }

    /// Compares the face and shoulder buttons with the record: the key events
    /// of the group, and the mask to record once they are accepted.
    pub fn handle_buttons(&self, buttons: u8) -> (report: (Vec<KeyEvent>, u8))
        ensures
            report.0@ == button_events(self@.buttons, buttons),
            report.0@.len() <= 8,
            report.1 == buttons,
    {
        proof {
            lemma_table_masks();
            assert(buttons & 0xFF == buttons) by (bit_vector);
        }
        let table = button_table();
        handle_group(&table, buttons, self.state.buttons)
    }

    /// Compares the extra buttons with the record.
    pub fn handle_extra(&self, extra: u8) -> (report: (Vec<KeyEvent>, u8))
        ensures
            report.0@ == extra_events(self@.extra, extra),
            report.0@.len() <= 5,
            report.1 == extra & EXTRA_MASK,
    {
        proof {
            lemma_table_masks();
        }
        let table = extra_table();
        handle_group(&table, extra, self.state.extra)
    }

    /// Compares the directional pad, whose hat code is `dpad`, with the
    /// record.
    pub fn handle_dpad(&self, dpad: u8) -> (report: (Vec<KeyEvent>, u8))
        ensures
            report.0@ == dpad_events(self@.dpad, dpad),
            report.0@.len() <= 4,
            report.1 == direction_mask(dpad),
    {
        let cleaned = convert_dpad(dpad).mask();
        proof {
            lemma_table_masks();
            lemma_masked_twice(0, cleaned);
        }
        let table = dpad_table();
        handle_group(&table, cleaned, self.state.dpad)
    }

    /// The key events that bring the keyboard to `input`, in the order in
    /// which to hand them over. Nothing is recorded yet.
    pub fn plan(&self, input: Input) -> (events: Vec<KeyEvent>)
        ensures
            events@ == planned_events(self@, input),
            events@.len() <= 17,
    {
        let (mut events, _) = self.handle_buttons(input.buttons);
        let (mut extra, _) = self.handle_extra(input.extra);
        let (mut dpad, _) = self.handle_dpad(input.dpad);
        events.append(&mut extra);
        events.append(&mut dpad);
        events
    }

    /// Records how far the keyboard followed the plan for `input`: it
    /// accepted the first `accepted` events, and refused the next unless it
    /// accepted them all. Tells whether it accepted them all.
    pub fn settle(&mut self, input: Input, accepted: usize) -> (complete: bool)
        ensures
            final(self)@ == settled(old(self)@, input, accepted as int),
            complete == (accepted >= planned_events(old(self)@, input).len()),
    {
        let (button_events, buttons) = self.handle_buttons(input.buttons);
        let (extra_events, extra) = self.handle_extra(input.extra);
        let (dpad_events, dpad) = self.handle_dpad(input.dpad);
        let after_buttons = button_events.len();
        let after_extra = after_buttons + extra_events.len();
        let after_dpad = after_extra + dpad_events.len();
        proof {
            use_type_invariant(&*self);
            lemma_masked_twice(input.extra, dpad);
        }
        if accepted >= after_buttons {
            self.state.buttons = Some(buttons);
        }
        if accepted >= after_extra {
            self.state.extra = Some(extra);
        }
        if accepted >= after_dpad {
            self.state.dpad = Some(dpad);
        }
        accepted >= after_dpad
    }

    /// Brings the keyboard to `input`: hands it the planned events in order,
    /// stops at the first that it refuses, and records how far it followed.
    /// Whether the keyboard refuses is the host's affair; where no button
    /// changed nothing is asked of it, and the update succeeds. An update
    /// that succeeds keeps the keys in step with the record.
    pub fn update(&mut self, input: Input, keyboard: &mut Keyboard) -> (result: Result<
        (),
        Refusal,
    >)
        ensures
            match result {
                Ok(()) => {
                    &&& final(self)@ == State::synced(input)
                    &&& final(keyboard).requests() == old(keyboard).requests() + planned_events(
                        old(self)@,
                        input,
                    )
                    &&& final(keyboard).accepted() == old(keyboard).accepted() + planned_events(
                        old(self)@,
                        input,
                    )
                    &&& in_step(old(keyboard).accepted(), old(self)@) ==> in_step(
                        final(keyboard).accepted(),
                        final(self)@,
                    )
                },
                Err(refusal) => {
                    &&& refusal.position < planned_events(old(self)@, input).len()
                    &&& refusal.event == planned_events(old(self)@, input)[refusal.position as int]
                    &&& final(self)@ == settled(old(self)@, input, refusal.position as int)
                    &&& final(keyboard).requests() == old(keyboard).requests() + planned_events(
                        old(self)@,
                        input,
                    ).take(refusal.position + 1)
                    &&& final(keyboard).accepted() == old(keyboard).accepted() + planned_events(
                        old(self)@,
                        input,
                    ).take(refusal.position as int)
                },
            },
    {
        let events = self.plan(input);
        match keyboard.inject_all(&events) {
            Ok(()) => {
                self.settle(input, events.len());
                proof {
                    if in_step(old(keyboard).accepted(), old(self)@) {
                        lemma_accepted_poll_brings_keys_into_step(
                            old(keyboard).accepted(),
                            old(self)@,
                            input,
                        );
                    }
                }
                Ok(())
            },
            Err(refusal) => {
                self.settle(input, refusal.position);
                Err(refusal)
            },
        }
    }
}

/// Whatever the keyboard accepts, the record stays free of bits that belong
/// to no button.
pub proof fn lemma_settled_is_well_formed(state: State, input: Input, accepted: int)
    requires
        state.well_formed(),
    ensures
        settled(state, input, accepted).well_formed(),
        State::synced(input).well_formed(),
{
    lemma_masked_twice(input.extra, direction_mask(input.dpad));
}

/// The key events of a poll come in one fixed order, that of the three
/// tables one after the other, and no key has two of them.
pub proof fn lemma_events_follow_the_tables(state: State, input: Input)
    ensures
        forall|a: int, b: int|
            0 <= a < b < planned_events(state, input).len() ==> key_rank(
                (#[trigger] planned_events(state, input)[a]).key,
            ) < key_rank((#[trigger] planned_events(state, input)[b]).key),
{
    lemma_tables_are_ranked();
    lemma_group_events_ascend(
        button_definitions(),
        input.buttons,
        difference(state.buttons, input.buttons),
        0,
    );
    lemma_group_events_ascend(
        extra_definitions(),
        input.extra,
        difference(state.extra, input.extra),
        8,
    );
    lemma_group_events_ascend(
        dpad_definitions(),
        direction_mask(input.dpad),
        difference(state.dpad, direction_mask(input.dpad)),
        13,
    );
}

/// Where the keyboard accepted every event of a poll, the record says what
/// the input said, whatever it said before.
pub proof fn lemma_settled_when_all_accepted(state: State, input: Input, accepted: int)
    requires
        accepted >= planned_events(state, input).len(),
    ensures
        settled(state, input, accepted) == State::synced(input),
{
}

/// A second poll with the same input has no key events. Once the keyboard has
/// accepted every event of a poll, the same input changes nothing: it plans
/// no event, and it leaves the record as it is.
pub proof fn lemma_same_input_is_quiet(state: State, input: Input, accepted: int)
    ensures
        ({
            let first = settled(state, input, planned_events(state, input).len() as int);
            &&& first == State::synced(input)
            &&& planned_events(first, input) == Seq::<KeyEvent>::empty()
            &&& settled(first, input, accepted) == first
        }),
{
    lemma_table_masks();
    lemma_recorded_group_is_quiet(button_definitions(), input.buttons);
    lemma_recorded_group_is_quiet(extra_definitions(), input.extra);
    lemma_recorded_group_is_quiet(dpad_definitions(), direction_mask(input.dpad));
    let buttons = input.buttons;
    assert(buttons & 0xFF == buttons) by (bit_vector);
    lemma_masked_twice(0, direction_mask(input.dpad));
}

/// After the record was cleared, a poll has one key event for every button,
/// whatever the input: a key-down for each button that is held and a key-up
/// for each that is not.
pub proof fn lemma_cleared_record_reports_every_button(input: Input)
    ensures
        planned_events(State::unknown(), input) == every_event(input),
        every_event(input).len() == 17,
{
    lemma_unknown_group_reports_all(button_definitions(), input.buttons);
    lemma_unknown_group_reports_all(extra_definitions(), input.extra);
    lemma_unknown_group_reports_all(dpad_definitions(), direction_mask(input.dpad));
}

/// From a keyboard with every key released, the neutral snapshot has no key
/// events.
pub proof fn lemma_neutral_is_quiet()
    ensures
        planned_events(State::released(), Input::neutral()) == Seq::<KeyEvent>::empty(),
        settled(State::released(), Input::neutral(), 0) == State::released(),
{
    lemma_masked_twice(0, 0);
    lemma_same_input_is_quiet(State::released(), Input::neutral(), 0);
}

} // verus!
