//! The keys of the host: where they stand after the events it accepted.
//!
//! The library never sees the keyboard. What it knows of a key is the last
//! event that the host accepted for it. This module says what it means for
//! the keys to stand as the record says, and proves that the record and the
//! keys never part: no key is left down whose button was released.

use crate::controller::{button_events, dpad_events, extra_events, planned_events, State};
use crate::dpad::direction_mask;
use crate::keys::{
    button_definitions, dpad_definitions, extra_definitions, key_rank, lemma_table_masks,
    lemma_tables_are_ranked, ranked_from, table_mask, ButtonDefinition, Direction, KeyEvent,
    EXTRA_MASK,
};
use crate::report::Input;
use crate::transition::{current_event, difference, group_events, lemma_bit_within_mask};
use tfc::Key;
use vstd::prelude::*;

verus! {

/// Whether a key is down once the host has accepted the events of `history`,
/// on a keyboard that started with the key up: the last event of the key is a
/// key-down.
pub open spec fn is_down(history: Seq<KeyEvent>, key: Key) -> bool
    decreases history.len(),
{
    if history.len() == 0 {
        false
    } else if history.last().key == key {
        history.last().direction == Direction::Down
    } else {
        is_down(history.drop_last(), key)
    }
}

/// Whether the keys of a table stand as a mask says: the key of each button
/// is down if and only if the bit of the button is set.
pub open spec fn group_in_step(
    history: Seq<KeyEvent>,
    table: Seq<ButtonDefinition>,
    mask: u8,
) -> bool {
    forall|i: int|
        0 <= i < table.len() ==> is_down(history, (#[trigger] table[i]).key) == (mask
            & table[i].bit != 0)
}

/// What the key events of a group do to one key, once the host has accepted
/// them: the key of a button that changed stands where the button stands,
/// and every other key stays where it was.
pub proof fn lemma_group_effect(
    history: Seq<KeyEvent>,
    table: Seq<ButtonDefinition>,
    input: u8,
    diff: u8,
    base: int,
    key: Key,
)
    requires
        ranked_from(table, base),
    ensures
        forall|i: int|
            0 <= i < table.len() && (#[trigger] table[i]).key == key ==> is_down(
                history + group_events(table, input, diff),
                key,
            ) == if diff & table[i].bit != 0 {
                input & table[i].bit != 0
            } else {
                is_down(history, key)
            },
        (forall|i: int| 0 <= i < table.len() ==> (#[trigger] table[i]).key != key) ==> is_down(
            history + group_events(table, input, diff),
            key,
        ) == is_down(history, key),
    decreases table.len(),
{
    if table.len() == 0 {
        assert(history + group_events(table, input, diff) == history);
    } else {
        let rest = table.drop_last();
        let last = table.last();
        assert forall|i: int| 0 <= i < rest.len() implies key_rank((#[trigger] rest[i]).key)
            == base + i by {
            assert(rest[i] == table[i]);
        }
        lemma_group_effect(history, rest, input, diff, base, key);
        let before = history + group_events(rest, input, diff);
        assert(key_rank(table[table.len() - 1].key) == base + table.len() - 1);
        assert forall|i: int| 0 <= i < rest.len() implies (#[trigger] rest[i]).key
            != last.key by {
            assert(rest[i] == table[i]);
        }
        if diff & last.bit != 0 {
            let event = current_event(last, input);
            assert(history + group_events(table, input, diff) == before.push(event));
            assert(before.push(event).drop_last() == before);
        } else {
            assert(history + group_events(table, input, diff) == before);
        }
        let after = history + group_events(table, input, diff);
        assert forall|i: int| 0 <= i < table.len() && (#[trigger] table[i]).key == key implies {
            is_down(after, key) == if diff & table[i].bit != 0 {
                input & table[i].bit != 0
            } else {
                is_down(history, key)
            }
        } by {
            if i < rest.len() {
                assert(rest[i] == table[i]);
            }
        }
        if forall|i: int| 0 <= i < table.len() ==> (#[trigger] table[i]).key != key {
            assert forall|i: int| 0 <= i < rest.len() implies (#[trigger] rest[i]).key != key by {
                assert(rest[i] == table[i]);
            }
            assert(table[table.len() - 1].key != key);
        }
    }
}

proof fn lemma_bit_facts(old: u8, input: u8, mask: u8, bit: u8)
    by (bit_vector)
    ensures
        (old ^ input) & bit == 0 ==> (old & bit != 0 <==> input & bit != 0),
        bit & mask == bit ==> (input & mask) & bit == input & bit,
        bit != 0 ==> 0xFFu8 & bit != 0,
{
}

/// Where the keys of a group stand as its record says, or nothing is
/// recorded of the group, they stand as the input says once the host has
/// accepted the key events of the group.
pub proof fn lemma_group_comes_into_step(
    history: Seq<KeyEvent>,
    table: Seq<ButtonDefinition>,
    recorded: Option<u8>,
    input: u8,
    base: int,
)
    requires
        ranked_from(table, base),
        forall|i: int| 0 <= i < table.len() ==> (#[trigger] table[i]).bit != 0,
        recorded matches Some(mask) ==> group_in_step(history, table, mask),
    ensures
        group_in_step(
            history + group_events(table, input, difference(recorded, input)),
            table,
            input & table_mask(table),
        ),
{
    let diff = difference(recorded, input);
    let after = history + group_events(table, input, diff);
    assert forall|i: int| 0 <= i < table.len() implies is_down(after, (#[trigger] table[i]).key)
        == ((input & table_mask(table)) & table[i].bit != 0) by {
        lemma_group_effect(history, table, input, diff, base, table[i].key);
        lemma_bit_within_mask(table, i);
        match recorded {
            Some(mask) => lemma_bit_facts(mask, input, table_mask(table), table[i].bit),
            None => lemma_bit_facts(0, input, table_mask(table), table[i].bit),
        }
    }
}

/// The key events of one group leave the keys of another group where they
/// stand.
pub proof fn lemma_group_leaves_others_in_step(
    history: Seq<KeyEvent>,
    table: Seq<ButtonDefinition>,
    input: u8,
    diff: u8,
    base: int,
    other: Seq<ButtonDefinition>,
    other_mask: u8,
    other_base: int,
)
    requires
        ranked_from(table, base),
        ranked_from(other, other_base),
        base + table.len() <= other_base || other_base + other.len() <= base,
        group_in_step(history, other, other_mask),
    ensures
        group_in_step(history + group_events(table, input, diff), other, other_mask),
{
    let after = history + group_events(table, input, diff);
    assert forall|i: int| 0 <= i < other.len() implies is_down(after, (#[trigger] other[i]).key)
        == (other_mask & other[i].bit != 0) by {
        let key = other[i].key;
        assert forall|j: int| 0 <= j < table.len() implies (#[trigger] table[j]).key != key by {
            assert(key_rank(table[j].key) == base + j);
            assert(key_rank(other[i].key) == other_base + i);
        }
        lemma_group_effect(history, table, input, diff, base, key);
    }
}

/// Whether the keys stand as the record says, once the host has accepted the
/// events of `history` on a keyboard that started with every key up: in each
/// group of which something is recorded, the key of each button is down if
/// and only if the bit of the button is set.
pub open spec fn in_step(history: Seq<KeyEvent>, state: State) -> bool {
    &&& state.buttons matches Some(mask) ==> group_in_step(history, button_definitions(), mask)
    &&& state.extra matches Some(mask) ==> group_in_step(history, extra_definitions(), mask)
    &&& state.dpad matches Some(mask) ==> group_in_step(history, dpad_definitions(), mask)
}

/// On a keyboard that has accepted nothing yet every key is up, as the
/// record of a new controller says; and a record that was cleared says
/// nothing that the keys could contradict.
pub proof fn lemma_start_in_step(history: Seq<KeyEvent>)
    ensures
        in_step(Seq::<KeyEvent>::empty(), State::released()),
        in_step(history, State::unknown()),
{
    assert forall|bit: u8| 0u8 & bit == 0 by {
        assert(0u8 & bit == 0) by (bit_vector);
    }
}

/// No key is left stuck. Where the keys stand as the record says, a poll
/// whose events the host accepts leaves every key where its button stands in
/// the input: down where the button is held, up where it is not. After a
/// poll on a cleared record this holds wherever the keys stood before.
pub proof fn lemma_accepted_poll_brings_keys_into_step(
    history: Seq<KeyEvent>,
    state: State,
    input: Input,
)
    requires
        in_step(history, state),
    ensures
        in_step(history + planned_events(state, input), State::synced(input)),
{
    lemma_tables_are_ranked();
    lemma_table_masks();
    let cleaned = direction_mask(input.dpad);
    let buttons_diff = difference(state.buttons, input.buttons);
    let extra_diff = difference(state.extra, input.extra);
    let dpad_diff = difference(state.dpad, cleaned);
    let after_buttons = history + button_events(state.buttons, input.buttons);
    let after_extra = after_buttons + extra_events(state.extra, input.extra);
    let after_dpad = after_extra + dpad_events(state.dpad, input.dpad);
    assert(after_dpad == history + planned_events(state, input));

    let buttons = input.buttons;
    assert(buttons & 0xFF == buttons) by (bit_vector);
    assert(cleaned <= 0x0C ==> cleaned & 0x0F == cleaned) by (bit_vector);

    lemma_group_comes_into_step(history, button_definitions(), state.buttons, input.buttons, 0);
    lemma_group_leaves_others_in_step(
        after_buttons,
        extra_definitions(),
        input.extra,
        extra_diff,
        8,
        button_definitions(),
        input.buttons,
        0,
    );
    lemma_group_leaves_others_in_step(
        after_extra,
        dpad_definitions(),
        cleaned,
        dpad_diff,
        13,
        button_definitions(),
        input.buttons,
        0,
    );

    if let Some(mask) = state.extra {
        lemma_group_leaves_others_in_step(
            history,
            button_definitions(),
            input.buttons,
            buttons_diff,
            0,
            extra_definitions(),
            mask,
            8,
        );
    }
    lemma_group_comes_into_step(after_buttons, extra_definitions(), state.extra, input.extra, 8);
    lemma_group_leaves_others_in_step(
        after_extra,
        dpad_definitions(),
        cleaned,
        dpad_diff,
        13,
        extra_definitions(),
        input.extra & EXTRA_MASK,
        8,
    );

    if let Some(mask) = state.dpad {
        lemma_group_leaves_others_in_step(
            history,
            button_definitions(),
            input.buttons,
            buttons_diff,
            0,
            dpad_definitions(),
            mask,
            13,
        );
        lemma_group_leaves_others_in_step(
            after_buttons,
            extra_definitions(),
            input.extra,
            extra_diff,
            8,
            dpad_definitions(),
            mask,
            13,
        );
    }
    lemma_group_comes_into_step(after_extra, dpad_definitions(), state.dpad, cleaned, 13);
}

} // verus!
