use padkeys::keys::{button_table, extra_table, ButtonDefinition, Direction, KeyEvent};
use padkeys::transition::{changed_bits, check_key, handle_group, ALL_BITS};
use tfc::Key;

#[test]
fn changed_bits_of_a_recorded_mask_is_the_xor() {
    assert_eq!(changed_bits(Some(0b0000_0110), 0b0000_0011), 0b0000_0101);
    assert_eq!(changed_bits(Some(0), 0), 0);
    assert_eq!(changed_bits(Some(0xFF), 0xFF), 0);
    assert_eq!(changed_bits(Some(0xFF), 0), 0xFF);
}

#[test]
fn changed_bits_of_nothing_recorded_is_every_bit() {
    assert_eq!(ALL_BITS, 0xFF);
    for input in 0..=255u8 {
        assert_eq!(changed_bits(None, input), 0xFF);
    }
}

#[test]
fn check_key_reports_a_press() {
    let (event, value) = check_key(0x04, 0x04, 0x04, Key::I);
    assert_eq!(event, Some(KeyEvent { key: Key::I, direction: Direction::Down }));
    assert_eq!(value, 0x04);
}

#[test]
fn check_key_reports_a_release() {
    let (event, value) = check_key(0x00, 0x04, 0x04, Key::I);
    assert_eq!(event, Some(KeyEvent { key: Key::I, direction: Direction::Up }));
    assert_eq!(value, 0x00);
}

#[test]
fn check_key_is_silent_on_a_held_button() {
    let (event, value) = check_key(0x04, 0x00, 0x04, Key::I);
    assert_eq!(event, None);
    assert_eq!(value, 0x04);
}

#[test]
fn check_key_is_silent_on_a_released_button() {
    let (event, value) = check_key(0x00, 0x00, 0x04, Key::I);
    assert_eq!(event, None);
    assert_eq!(value, 0x00);
}

#[test]
fn check_key_ignores_the_other_bits() {
    let (event, value) = check_key(0xFB, 0xFB, 0x04, Key::I);
    assert_eq!(event, None);
    assert_eq!(value, 0x00);
}

#[test]
fn detector_reports_exactly_the_changed_bits() {
    let table = button_table();
    for old in 0..=255u8 {
        for new in 0..=255u8 {
            for definition in table.iter() {
                let (event, value) = check_key(new, old ^ new, definition.bit, definition.key);
                assert_eq!(event.is_some(), (old ^ new) & definition.bit != 0);
                assert_eq!(value, new & definition.bit);
                if let Some(event) = event {
                    assert!(event.key == definition.key);
                    assert_eq!(event.direction == Direction::Down, new & definition.bit != 0);
                }
            }
        }
    }
}

#[test]
fn group_events_come_in_table_order() {
    let table = button_table();
    let (events, value) = handle_group(&table, 0b1000_0101, Some(0b0000_0110));
    assert_eq!(
        events,
        vec![
            KeyEvent { key: Key::P, direction: Direction::Down },
            KeyEvent { key: Key::O, direction: Direction::Up },
            KeyEvent { key: Key::E, direction: Direction::Down },
        ]
    );
    assert_eq!(value, 0b1000_0101);
}

#[test]
fn group_without_a_change_has_no_events() {
    let table = button_table();
    for input in 0..=255u8 {
        let (events, value) = handle_group(&table, input, Some(input));
        assert!(events.is_empty());
        assert_eq!(value, input);
    }
}

#[test]
fn group_with_nothing_recorded_reports_every_button() {
    let table = extra_table();
    let (events, value) = handle_group(&table, 0b0000_1001, None);
    assert_eq!(
        events,
        vec![
            KeyEvent { key: Key::L, direction: Direction::Down },
            KeyEvent { key: Key::K, direction: Direction::Up },
            KeyEvent { key: Key::J, direction: Direction::Up },
            KeyEvent { key: Key::H, direction: Direction::Down },
            KeyEvent { key: Key::G, direction: Direction::Up },
        ]
    );
    assert_eq!(value, 0b0000_1001);
}

#[test]
fn group_value_keeps_only_the_bits_of_the_table() {
    let table = extra_table();
    let (events, value) = handle_group(&table, 0b1110_0010, Some(0));
    assert_eq!(events, vec![KeyEvent { key: Key::K, direction: Direction::Down }]);
    assert_eq!(value, 0b0000_0010);
}

#[test]
fn group_ignores_recorded_bits_outside_the_table() {
    let table = extra_table();
    let (events, value) = handle_group(&table, 0b0000_0000, Some(0b1110_0000));
    assert!(events.is_empty());
    assert_eq!(value, 0);
}

#[test]
fn group_over_an_empty_table_is_silent() {
    let table: [ButtonDefinition; 0] = [];
    let (events, value) = handle_group(&table, 0xFF, None);
    assert!(events.is_empty());
    assert_eq!(value, 0);
}

#[test]
fn group_has_one_event_for_each_changed_button() {
    let table = button_table();
    for old in 0..=255u8 {
        for new in [0x00u8, 0x01, 0x5A, 0xA5, 0xFF] {
            let (events, _) = handle_group(&table, new, Some(old));
            assert_eq!(events.len() as u32, (old ^ new).count_ones());
        }
    }
}
