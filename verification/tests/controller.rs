use padkeys::controller::{Controller, State};
use padkeys::keys::{Direction, KeyEvent};
use padkeys::report::Input;
use tfc::Key;

fn down(key: Key) -> KeyEvent {
    KeyEvent { key, direction: Direction::Down }
}

fn up(key: Key) -> KeyEvent {
    KeyEvent { key, direction: Direction::Up }
}

fn snapshot(buttons: u8, extra: u8, dpad: u8) -> Input {
    Input::new([buttons, extra, dpad, 128, 128, 128, 128, 0])
}

fn synced(buttons: u8, extra: u8, dpad: u8) -> State {
    State { buttons: Some(buttons), extra: Some(extra), dpad: Some(dpad) }
}

const UNKNOWN: State = State { buttons: None, extra: None, dpad: None };

/// Plans the events for `input` and records that the keyboard accepted them
/// all.
fn accept(controller: &mut Controller, input: Input) -> Vec<KeyEvent> {
    let events = controller.plan(input);
    assert!(controller.settle(input, events.len()));
    events
}

#[test]
fn new_state_has_every_button_released() {
    assert_eq!(State::new(), synced(0, 0, 0));
}

#[test]
fn new_controller_has_every_button_released() {
    assert_eq!(Controller::new().state(), synced(0, 0, 0));
}

#[test]
fn clear_state_forgets_every_group() {
    let mut controller = Controller::new();
    accept(&mut controller, snapshot(0x04, 0x01, 0));
    controller.clear_state();
    assert_eq!(controller.state(), UNKNOWN);
}

#[test]
fn handle_buttons_reports_presses_and_the_mask() {
    let controller = Controller::new();
    let (events, mask) = controller.handle_buttons(0x84);
    assert_eq!(events, vec![down(Key::I), down(Key::E)]);
    assert_eq!(mask, 0x84);
}

#[test]
fn handle_extra_reports_presses_and_the_masked_value() {
    let controller = Controller::new();
    let (events, mask) = controller.handle_extra(0xF1);
    assert_eq!(events, vec![down(Key::L), down(Key::G)]);
    assert_eq!(mask, 0x11);
}

#[test]
fn handle_dpad_decomposes_a_diagonal() {
    let controller = Controller::new();
    let (events, mask) = controller.handle_dpad(1);
    assert_eq!(events, vec![down(Key::W), down(Key::D)]);
    assert_eq!(mask, 0x03);
}

#[test]
fn handle_dpad_checks_up_down_left_right_in_that_order() {
    let mut controller = Controller::new();
    controller.clear_state();
    let (events, mask) = controller.handle_dpad(5);
    assert_eq!(events, vec![up(Key::W), down(Key::S), down(Key::A), up(Key::D)]);
    assert_eq!(mask, 0x0C);
}

#[test]
fn handle_dpad_treats_an_unknown_code_as_centre() {
    let mut controller = Controller::new();
    accept(&mut controller, snapshot(0, 0, 2));
    let (events, mask) = controller.handle_dpad(200);
    assert_eq!(events, vec![up(Key::D)]);
    assert_eq!(mask, 0);
}

#[test]
fn handlers_do_not_change_the_record() {
    let controller = Controller::new();
    controller.handle_buttons(0xFF);
    controller.handle_extra(0xFF);
    controller.handle_dpad(3);
    controller.plan(snapshot(0xFF, 0xFF, 3));
    assert_eq!(controller.state(), synced(0, 0, 0));
}

#[test]
fn plan_orders_buttons_before_extra_before_dpad() {
    let controller = Controller::new();
    let events = controller.plan(snapshot(0x80, 0x01, 4));
    assert_eq!(events, vec![down(Key::E), down(Key::L), down(Key::S)]);
}

#[test]
fn accepted_plan_is_recorded() {
    let mut controller = Controller::new();
    let input = snapshot(0x84, 0xF1, 7);
    accept(&mut controller, input);
    assert_eq!(controller.state(), synced(0x84, 0x11, 0x09));
}

#[test]
fn second_update_with_the_same_input_is_silent() {
    for buttons in 0..=255u8 {
        for (extra, dpad) in [(0x00u8, 15u8), (0x1F, 0), (0xFF, 3), (0xA5, 7), (0x10, 200)] {
            let input = snapshot(buttons, extra, dpad);
            let mut controller = Controller::new();
            accept(&mut controller, input);
            let recorded = controller.state();
            assert!(controller.plan(input).is_empty());
            assert!(controller.settle(input, 0));
            assert_eq!(controller.state(), recorded);
        }
    }
}

#[test]
fn second_update_is_silent_after_a_resync_too() {
    let input = snapshot(0x21, 0x02, 6);
    let mut controller = Controller::new();
    controller.clear_state();
    assert_eq!(accept(&mut controller, input).len(), 17);
    assert!(controller.plan(input).is_empty());
}

#[test]
fn held_button_is_not_pressed_again() {
    let mut controller = Controller::new();
    accept(&mut controller, snapshot(0x04, 0, 15));
    for _ in 0..5 {
        assert!(accept(&mut controller, snapshot(0x04, 0, 15)).is_empty());
        assert_eq!(controller.state(), synced(0x04, 0, 0));
    }
    assert_eq!(accept(&mut controller, snapshot(0x00, 0, 15)), vec![up(Key::I)]);
}

#[test]
fn cleared_record_reports_every_button() {
    let mut controller = Controller::new();
    controller.clear_state();
    let events = controller.plan(snapshot(0x05, 0x12, 1));
    assert_eq!(
        events,
        vec![
            down(Key::P),
            up(Key::O),
            down(Key::I),
            up(Key::U),
            up(Key::Y),
            up(Key::T),
            up(Key::R),
            up(Key::E),
            up(Key::L),
            down(Key::K),
            up(Key::J),
            up(Key::H),
            down(Key::G),
            down(Key::W),
            up(Key::S),
            up(Key::A),
            down(Key::D),
        ]
    );
}

#[test]
fn cleared_record_reports_all_buttons_held() {
    let mut controller = Controller::new();
    accept(&mut controller, snapshot(0xFF, 0x1F, 1));
    assert!(controller.plan(snapshot(0xFF, 0x1F, 1)).is_empty());
    controller.clear_state();
    let events = controller.plan(snapshot(0xFF, 0x1F, 1));
    assert_eq!(events.len(), 17);
    let pressed = events.iter().filter(|event| event.direction == Direction::Down).count();
    assert_eq!(pressed, 15);
}

#[test]
fn cleared_record_presses_every_held_button_whatever_the_input() {
    for buttons in 0..=255u8 {
        let input = snapshot(buttons, buttons, buttons);
        let mut controller = Controller::new();
        accept(&mut controller, input);
        controller.clear_state();
        let events = controller.plan(input);
        assert_eq!(events.len(), 17);
        let held = buttons.count_ones()
            + (buttons & 0x1F).count_ones()
            + padkeys::dpad::convert_dpad(buttons).mask().count_ones();
        let pressed = events.iter().filter(|event| event.direction == Direction::Down).count();
        assert_eq!(pressed as u32, held);
    }
}

#[test]
fn neutral_snapshot_is_silent_on_a_released_keyboard() {
    let mut controller = Controller::new();
    let events = accept(&mut controller, Input::default());
    assert!(events.is_empty());
    assert_eq!(controller.state(), synced(0, 0, 0));
}

#[test]
fn neutral_snapshot_after_clearing_releases_every_key() {
    let mut controller = Controller::new();
    controller.clear_state();
    let events = accept(&mut controller, Input::default());
    assert_eq!(events.len(), 17);
    assert!(events.iter().all(|event| event.direction == Direction::Up));
    assert_eq!(controller.state(), synced(0, 0, 0));
}

#[test]
fn press_hold_then_swap_two_buttons() {
    let mut controller = Controller::new();
    assert_eq!(accept(&mut controller, snapshot(0x01, 0, 15)), vec![down(Key::P)]);
    assert_eq!(accept(&mut controller, snapshot(0x01, 0, 15)), vec![]);
    assert_eq!(accept(&mut controller, snapshot(0x02, 0, 15)), vec![up(Key::P), down(Key::O)]);
}

#[test]
fn press_hold_then_swap_across_groups() {
    let mut controller = Controller::new();
    assert_eq!(accept(&mut controller, snapshot(0x04, 0, 15)), vec![down(Key::I)]);
    assert_eq!(accept(&mut controller, snapshot(0x04, 0, 15)), vec![]);
    assert_eq!(accept(&mut controller, snapshot(0x00, 0x02, 15)), vec![up(Key::I), down(Key::K)]);
    assert_eq!(accept(&mut controller, snapshot(0x00, 0x00, 4)), vec![up(Key::K), down(Key::S)]);
}

#[test]
fn swap_within_a_group_follows_the_table() {
    let mut controller = Controller::new();
    assert_eq!(accept(&mut controller, snapshot(0x04, 0, 15)), vec![down(Key::I)]);
    assert_eq!(accept(&mut controller, snapshot(0x04, 0, 15)), vec![]);
    assert_eq!(accept(&mut controller, snapshot(0x02, 0, 15)), vec![down(Key::O), up(Key::I)]);
}

#[test]
fn unmapped_extra_bits_are_neither_reported_nor_recorded() {
    let mut controller = Controller::new();
    let events = accept(&mut controller, snapshot(0, 0xE0, 15));
    assert!(events.is_empty());
    assert_eq!(controller.state(), synced(0, 0, 0));
}

#[test]
fn refusal_in_the_first_group_records_nothing() {
    let mut controller = Controller::new();
    let input = snapshot(0x03, 0x01, 4);
    assert_eq!(controller.plan(input).len(), 4);
    assert!(!controller.settle(input, 0));
    assert_eq!(controller.state(), synced(0, 0, 0));
    assert!(!controller.settle(input, 1));
    assert_eq!(controller.state(), synced(0, 0, 0));
}

#[test]
fn refusal_in_the_second_group_keeps_the_first() {
    let mut controller = Controller::new();
    let input = snapshot(0x03, 0x01, 4);
    assert!(!controller.settle(input, 2));
    assert_eq!(controller.state(), synced(0x03, 0, 0));
}

#[test]
fn refusal_in_the_third_group_keeps_the_first_two() {
    let mut controller = Controller::new();
    let input = snapshot(0x03, 0x01, 4);
    assert!(!controller.settle(input, 3));
    assert_eq!(controller.state(), synced(0x03, 0x01, 0));
}

#[test]
fn acceptance_of_every_event_records_all_groups() {
    let mut controller = Controller::new();
    let input = snapshot(0x03, 0x01, 4);
    assert!(controller.settle(input, 4));
    assert_eq!(controller.state(), synced(0x03, 0x01, 0x04));
}

#[test]
fn counts_beyond_the_plan_mean_every_event() {
    let mut controller = Controller::new();
    let input = snapshot(0x03, 0x01, 4);
    assert!(controller.settle(input, usize::MAX));
    assert_eq!(controller.state(), synced(0x03, 0x01, 0x04));
}

#[test]
fn refusal_after_a_group_without_events_records_that_group() {
    let mut controller = Controller::new();
    controller.clear_state();
    accept(&mut controller, snapshot(0x10, 0, 15));
    controller.clear_state();
    let input = snapshot(0x10, 0x02, 15);
    let events = controller.plan(input);
    assert_eq!(events.len(), 17);
    assert!(!controller.settle(input, 8));
    assert_eq!(controller.state(), State { buttons: Some(0x10), extra: None, dpad: None });
    assert_eq!(controller.plan(input).len(), 9);
}

#[test]
fn refusal_leaves_the_next_plan_to_catch_up() {
    let mut controller = Controller::new();
    let input = snapshot(0x03, 0x01, 4);
    assert!(!controller.settle(input, 2));
    assert_eq!(controller.plan(input), vec![down(Key::L), down(Key::S)]);
}

#[test]
fn record_never_holds_a_bit_without_a_button() {
    for byte in 0..=255u8 {
        let mut controller = Controller::new();
        accept(&mut controller, snapshot(byte, byte, byte));
        let state = controller.state();
        assert_eq!(state.buttons, Some(byte));
        assert_eq!(state.extra.map(|mask| mask & !0x1F), Some(0));
        assert_eq!(state.dpad.map(|mask| mask & !0x0F), Some(0));
    }
}

#[test]
fn events_of_a_poll_follow_the_tables() {
    let order: Vec<Key> = padkeys::keys::button_table()
        .iter()
        .chain(padkeys::keys::extra_table().iter())
        .chain(padkeys::keys::dpad_table().iter())
        .map(|definition| definition.key)
        .collect();
    for byte in 0..=255u8 {
        for recorded in [0x00u8, 0x3C, 0xFF] {
            let mut controller = Controller::new();
            accept(&mut controller, snapshot(recorded, recorded, recorded % 9));
            let events = controller.plan(snapshot(byte, byte.rotate_left(3), byte % 11));
            let places: Vec<usize> = events
                .iter()
                .map(|event| order.iter().position(|key| *key == event.key).unwrap())
                .collect();
            assert!(places.windows(2).all(|pair| pair[0] < pair[1]));
        }
    }
}
