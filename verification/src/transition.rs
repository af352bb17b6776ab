//! The transition detector: which buttons of a group changed, and how.
//!
//! A group of buttons is a bitmask. The detector compares the mask observed at
//! a poll with the mask recorded at the poll before and reports, for each
//! button of the group's table, whether its bit changed, and where it stands
//! now. Only a change produces a key event, so a button that is held produces
//! none.

use crate::keys::{key_rank, ranked_from, table_mask, ButtonDefinition, Direction, KeyEvent};
use tfc::Key;
use vstd::prelude::*;

verus! {

/// A mask with every bit set.
pub const ALL_BITS: u8 = 0xFF;

/// The bits to report on: those in which the observed mask differs from the
/// recorded one, and every bit where nothing is recorded.
pub open spec fn difference(recorded: Option<u8>, input: u8) -> u8 {
    match recorded {
        Some(mask) => mask ^ input,
        None => ALL_BITS,
    }
}

/// The key event that tells where a button stands in `input`: a key-down
/// where its bit is set, a key-up where it is clear.
pub open spec fn current_event(definition: ButtonDefinition, input: u8) -> KeyEvent {
    KeyEvent {
        key: definition.key,
        direction: if input & definition.bit != 0 {
            Direction::Down
        } else {
            Direction::Up
        },
    }
}

/// What the detector reports of one button: nothing where its bit is not in
/// `diff`, else the key event that tells where the button stands in `input`.
pub open spec fn transition(definition: ButtonDefinition, input: u8, diff: u8) -> Option<KeyEvent> {
    if diff & definition.bit != 0 {
        Some(current_event(definition, input))
    } else {
        None
    }
}

/// The key events of a group: one for each button of the table that the
/// detector reports, in the order of the table.
pub open spec fn group_events(table: Seq<ButtonDefinition>, input: u8, diff: u8) -> Seq<KeyEvent> {
    table.filter_map(|definition: ButtonDefinition| transition(definition, input, diff))
}

/// One key event for every button of the table, in the order of the table,
/// each telling where its button stands in `input`.
pub open spec fn all_events(table: Seq<ButtonDefinition>, input: u8) -> Seq<KeyEvent> {
    table.map_values(|definition: ButtonDefinition| current_event(definition, input))
}

/// Computes the bits to report on.
pub fn changed_bits(recorded: Option<u8>, input: u8) -> (diff: u8)
    ensures
        diff == difference(recorded, input),
{
    match recorded {
        Some(mask) => mask ^ input,
        None => ALL_BITS,
    }
}

/// Reports on one button: the key event, if its bit is in `diff`, and the
/// value of its bit in `input`, which is what to record of it.
pub fn check_key(input: u8, diff: u8, button: u8, key: Key) -> (report: (Option<KeyEvent>, u8))
    ensures
        report.0 == transition((ButtonDefinition { bit: button, key }), input, diff),
        report.1 == input & button,
{
    let value = input & button;
    if diff & button != 0 {
        let direction = if value != 0 {
            Direction::Down
        } else {
            Direction::Up
        };
        (Some(KeyEvent { key, direction }), value)
    } else {
        (None, value)
    }
}

proof fn lemma_mask_step(input: u8, mask: u8, bit: u8)
    by (bit_vector)
    ensures
        (input & mask) | (input & bit) == input & (mask | bit),
{
}

/// Reports on a whole group: the key events of the buttons that changed, in
/// the order of the table, and the observed mask restricted to the bits of
/// the table, which is what to record of the group.
pub fn handle_group(table: &[ButtonDefinition], input: u8, recorded: Option<u8>) -> (report: (
    Vec<KeyEvent>,
    u8,
))
    ensures
        report.0@ == group_events(table@, input, difference(recorded, input)),
        report.0@.len() <= table@.len(),
        report.1 == input & table_mask(table@),
{
    let diff = changed_bits(recorded, input);
    let mut events: Vec<KeyEvent> = Vec::new();
    let mut value: u8 = 0;
    let mut i: usize = 0;
    proof {
        assert(input & 0 == 0) by (bit_vector);
    }
    while i < table.len()
        invariant
            i <= table.len(),
            events@.len() <= i,
            events@ == group_events(table@.take(i as int), input, diff),
            value == input & table_mask(table@.take(i as int)),
        decreases table.len() - i,
    {
        let definition = table[i];
        let (event, bit_value) = check_key(input, diff, definition.bit, definition.key);
        proof {
            let report = |definition: ButtonDefinition| transition(definition, input, diff);
            table@.lemma_filter_map_take_succ(report, i as int);
            assert(table@.take(i + 1).drop_last() == table@.take(i as int));
            lemma_mask_step(input, table_mask(table@.take(i as int)), definition.bit);
        }
        match event {
            Some(event) => events.push(event),
            None => {},
        }
        value = value | bit_value;
        i += 1;
    }
    proof {
        assert(table@.take(table.len() as int) == table@);
    }
    (events, value)
}

/// Between a recorded mask `old` and an observed mask `new`, the detector
/// reports a button if and only if its bit differs between the two, and the
/// event it reports is a key-down if and only if the bit is set in `new`.
pub proof fn lemma_reported_iff_changed(definition: ButtonDefinition, old: u8, new: u8)
    ensures
        transition(definition, new, difference(Some(old), new)).is_some() <==> (old ^ new)
            & definition.bit != 0,
        transition(definition, new, difference(Some(old), new)) matches Some(event) ==> {
            &&& event.key == definition.key
            &&& (event.direction == Direction::Down <==> new & definition.bit != 0)
        },
{
}

/// A group in which no bit of the table is in `diff` has no key events.
pub proof fn lemma_quiet_group(table: Seq<ButtonDefinition>, input: u8, diff: u8)
    requires
        forall|i: int| 0 <= i < table.len() ==> diff & (#[trigger] table[i]).bit == 0,
    ensures
        group_events(table, input, diff) == Seq::<KeyEvent>::empty(),
    decreases table.len(),
{
    if table.len() > 0 {
        assert(diff & table[table.len() - 1].bit == 0);
        assert forall|i: int| 0 <= i < table.drop_last().len() implies diff & (
        #[trigger] table.drop_last()[i]).bit == 0 by {
            assert(table.drop_last()[i] == table[i]);
        }
        lemma_quiet_group(table.drop_last(), input, diff);
    }
}

/// A group in which every bit of the table is in `diff` has one key event for
/// every button of the table.
pub proof fn lemma_full_group(table: Seq<ButtonDefinition>, input: u8, diff: u8)
    requires
        forall|i: int| 0 <= i < table.len() ==> diff & (#[trigger] table[i]).bit != 0,
    ensures
        group_events(table, input, diff) == all_events(table, input),
    decreases table.len(),
{
    if table.len() > 0 {
        assert(diff & table[table.len() - 1].bit != 0);
        assert forall|i: int| 0 <= i < table.drop_last().len() implies diff & (
        #[trigger] table.drop_last()[i]).bit != 0 by {
            assert(table.drop_last()[i] == table[i]);
        }
        lemma_full_group(table.drop_last(), input, diff);
        assert(all_events(table, input) =~= all_events(table.drop_last(), input).push(
            current_event(table.last(), input),
        ));
    }
    assert(group_events(table, input, diff) =~= all_events(table, input));
}

proof fn lemma_mask_grows(bit: u8, mask: u8, other: u8)
    by (bit_vector)
    ensures
        other & (mask | other) == other,
        bit & mask == bit ==> bit & (mask | other) == bit,
{
}

/// Every bit of a table lies within the mask of the table.
pub proof fn lemma_bit_within_mask(table: Seq<ButtonDefinition>, i: int)
    requires
        0 <= i < table.len(),
    ensures
        table[i].bit & table_mask(table) == table[i].bit,
    decreases table.len(),
{
    let rest = table.drop_last();
    if i < table.len() - 1 {
        lemma_bit_within_mask(rest, i);
    }
    lemma_mask_grows(table[i].bit, table_mask(rest), table.last().bit);
}

proof fn lemma_recorded_bit_is_unchanged(input: u8, mask: u8, bit: u8)
    by (bit_vector)
    requires
        bit & mask == bit,
    ensures
        ((input & mask) ^ input) & bit == 0,
{
}

/// Once the mask that `handle_group` returns for an input is recorded, the
/// same input has no key events.
pub proof fn lemma_recorded_group_is_quiet(table: Seq<ButtonDefinition>, input: u8)
    ensures
        group_events(table, input, difference(Some(input & table_mask(table)), input)) == Seq::<
            KeyEvent,
        >::empty(),
{
    let diff = difference(Some(input & table_mask(table)), input);
    assert forall|i: int| 0 <= i < table.len() implies diff & (#[trigger] table[i]).bit == 0 by {
        lemma_bit_within_mask(table, i);
        lemma_recorded_bit_is_unchanged(input, table_mask(table), table[i].bit);
    }
    lemma_quiet_group(table, input, diff);
}

proof fn lemma_unknown_bit_is_changed(bit: u8)
    by (bit_vector)
    requires
        bit != 0,
    ensures
        0xFFu8 & bit != 0,
{
}

/// Where nothing is recorded of a group, every button of the table has a key
/// event, whatever the input.
pub proof fn lemma_unknown_group_reports_all(table: Seq<ButtonDefinition>, input: u8)
    requires
        forall|i: int| 0 <= i < table.len() ==> (#[trigger] table[i]).bit != 0,
    ensures
        group_events(table, input, difference(None, input)) == all_events(table, input),
{
    assert forall|i: int| 0 <= i < table.len() implies ALL_BITS & (#[trigger] table[i]).bit
        != 0 by {
        lemma_unknown_bit_is_changed(table[i].bit);
    }
    lemma_full_group(table, input, ALL_BITS);
}

/// Whether the keys of the events have places from `low` up to, and not
/// including, `high`, each event a higher place than the one before it.
pub open spec fn ascending(events: Seq<KeyEvent>, low: int, high: int) -> bool {
    &&& forall|k: int| 0 <= k < events.len() ==> low <= key_rank((#[trigger] events[k]).key) < high
    &&& forall|a: int, b: int|
        0 <= a < b < events.len() ==> key_rank((#[trigger] events[a]).key) < key_rank(
            (#[trigger] events[b]).key,
        )
}

/// The key events of a group come in the order of its table, and no key has
/// two of them.
pub proof fn lemma_group_events_ascend(
    table: Seq<ButtonDefinition>,
    input: u8,
    diff: u8,
    base: int,
)
    requires
        ranked_from(table, base),
    ensures
        ascending(group_events(table, input, diff), base, base + table.len()),
    decreases table.len(),
{
    if table.len() > 0 {
        let rest = table.drop_last();
        assert forall|i: int| 0 <= i < rest.len() implies key_rank((#[trigger] rest[i]).key)
            == base + i by {
            assert(rest[i] == table[i]);
        }
        lemma_group_events_ascend(rest, input, diff, base);
        assert(key_rank(table[table.len() - 1].key) == base + table.len() - 1);
    }
}

} // verus!
