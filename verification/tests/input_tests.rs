use abc_game_engine::input::{
    button_state, gamepad_button_from, keyboard_axis_value, AxisActivity, AxisDirection,
    AxisEvent, AxisEventDirection, Button, GamepadEvent, Input, Key, MouseButton, PadButton,
};
use abc_game_engine::keys::{GamepadButton, KeyCode};
use abc_game_engine::press::{key_state_from, KeyState, PressTracker};

fn no_activity(n: usize) -> Vec<AxisActivity> {
    vec![AxisActivity { was_active: false, is_active: false }; n]
}

#[test]
fn test_button() {
    let button = Button::new(
        vec![Key::KeyCode(KeyCode::A)],
        vec![Key::KeyCode(KeyCode::B)],
    );

    assert_eq!(button.positive_keys().len(), 1);
    assert_eq!(button.negative_keys().len(), 1);
}

#[test]
fn test_key_state() {
    let key_state = KeyState::Pressed;

    assert!(key_state > KeyState::NotPressed);
    assert!(key_state < KeyState::Held);
    assert!(key_state < KeyState::Released);
}

#[test]
fn test_gamepad_button() {
    let button: Key = GamepadButton::South.into();

    match button {
        Key::GamepadButton((GamepadButton::South, None)) => {}
        _ => panic!("Key not GamepadButton::South"),
    }
}

#[test]
fn test_releasing() {
    let mut input = Input::new();

    input.set_key_down(KeyCode::A);
    input.set_mouse_down(MouseButton::Left);

    input.clear_key_states();
    input.clear_mouse_states();

    assert_eq!(input.get_key_state(KeyCode::A), KeyState::Released);
    assert_eq!(input.get_mouse_state(MouseButton::Left), KeyState::Released);
}

#[test]
fn test_pressed() {
    let mut input = Input::new();

    input.set_key_down(KeyCode::A);
    input.set_mouse_down(MouseButton::Left);

    assert_eq!(input.get_key_state(KeyCode::A), KeyState::Pressed);
    assert_eq!(input.get_mouse_state(MouseButton::Left), KeyState::Pressed);
}

#[test]
fn test_held() {
    let mut input = Input::new();

    input.set_key_down(KeyCode::A);
    input.set_mouse_down(MouseButton::Left);

    input.clear_key_states();
    input.clear_mouse_states();

    input.set_key_down(KeyCode::A);
    input.set_mouse_down(MouseButton::Left);

    assert_eq!(input.get_key_state(KeyCode::A), KeyState::Held);
    assert_eq!(input.get_mouse_state(MouseButton::Left), KeyState::Held);
}

#[test]
fn test_button_state() {
    let mut input = Input::new();

    let button = Button::new(
        vec![Key::KeyCode(KeyCode::A)],
        vec![Key::KeyCode(KeyCode::B)],
    );

    input.set_key_down(KeyCode::A);

    assert_eq!(
        input.get_button_state(&button, &no_activity(1), &no_activity(1)),
        KeyState::Pressed
    );

    input.clear_key_states();

    assert_eq!(
        input.get_button_state(&button, &no_activity(1), &no_activity(1)),
        KeyState::Released
    );
}

#[test]
fn key_states_from_frames() {
    assert_eq!(key_state_from(false, false), KeyState::NotPressed);
    assert_eq!(key_state_from(false, true), KeyState::Pressed);
    assert_eq!(key_state_from(true, true), KeyState::Held);
    assert_eq!(key_state_from(true, false), KeyState::Released);
}

#[test]
fn key_state_ranks_follow_order() {
    assert_eq!(KeyState::NotPressed.rank(), 0);
    assert_eq!(KeyState::Pressed.rank(), 1);
    assert_eq!(KeyState::Held.rank(), 2);
    assert_eq!(KeyState::Released.rank(), 3);
}

#[test]
fn other_keys_keep_their_state() {
    let mut input = Input::new();
    input.set_key_down(KeyCode::A);
    assert_eq!(input.get_key_state(KeyCode::B), KeyState::NotPressed);
    assert_eq!(input.get_mouse_state(MouseButton::Left), KeyState::NotPressed);
    input.set_mouse_down(MouseButton::Other(7));
    assert_eq!(input.get_mouse_state(MouseButton::Other(7)), KeyState::Pressed);
    assert_eq!(input.get_mouse_state(MouseButton::Other(8)), KeyState::NotPressed);
    assert_eq!(input.get_key_state(KeyCode::A), KeyState::Pressed);
}

#[test]
fn two_idle_frames_leave_key_not_pressed() {
    let mut input = Input::new();
    input.set_key_down(KeyCode::Space);
    input.clear_key_states();
    input.clear_key_states();
    assert_eq!(input.get_key_state(KeyCode::Space), KeyState::NotPressed);
}

#[test]
fn pressing_twice_in_a_frame_is_pressing_once() {
    let mut tracker = PressTracker::new();
    tracker.set_down(4);
    tracker.set_down(4);
    assert_eq!(tracker.state(4), KeyState::Pressed);
    tracker.advance();
    assert_eq!(tracker.state(4), KeyState::Released);
}

#[test]
fn clearing_keys_leaves_mouse() {
    let mut input = Input::new();
    input.set_mouse_down(MouseButton::Right);
    input.clear_key_states();
    assert_eq!(input.get_mouse_state(MouseButton::Right), KeyState::Pressed);
}

#[test]
fn highest_state_is_the_maximum() {
    let mut input = Input::new();
    input.set_key_down(KeyCode::A);
    input.clear_key_states();
    input.set_key_down(KeyCode::B);
    // A is released, B is pressed, C is not pressed
    let keys = vec![
        Key::KeyCode(KeyCode::C),
        Key::KeyCode(KeyCode::B),
        Key::KeyCode(KeyCode::A),
    ];
    assert_eq!(input.find_highest_state(&keys, &no_activity(3)), KeyState::Released);
    let keys = vec![Key::KeyCode(KeyCode::C), Key::KeyCode(KeyCode::B)];
    assert_eq!(input.find_highest_state(&keys, &no_activity(2)), KeyState::Pressed);
    assert_eq!(input.find_highest_state(&vec![], &vec![]), KeyState::NotPressed);
}

#[test]
fn axis_event_state_follows_activity() {
    let input = Input::new();
    let event = Key::AxisEvent(AxisEvent::new(
        AxisEventDirection::Positive,
        "horizontal".to_string(),
        0x3f00_0000,
    ));
    let cases = [
        (false, false, KeyState::NotPressed),
        (false, true, KeyState::Pressed),
        (true, true, KeyState::Held),
        (true, false, KeyState::Released),
    ];
    for (was, is, expected) in cases {
        let activity = AxisActivity { was_active: was, is_active: is };
        assert_eq!(input.key_state(&event, activity), expected);
    }
}

#[test]
fn axis_event_keeps_its_fields() {
    let event = AxisEvent::new(AxisEventDirection::Negative, "vertical".to_string(), 0x3f00_0000);
    assert_eq!(event.direction(), AxisEventDirection::Negative);
    assert_eq!(event.axis(), "vertical");
    assert_eq!(event.threshold_bits(), 0x3f00_0000);
}

#[test]
fn button_rules() {
    // (highest positive state, a negative key pressed, a negative key held)
    assert_eq!(button_state(KeyState::Pressed, false, false), KeyState::Pressed);
    assert_eq!(button_state(KeyState::Held, false, false), KeyState::Held);
    assert_eq!(button_state(KeyState::Held, false, true), KeyState::NotPressed);
    assert_eq!(button_state(KeyState::Pressed, false, true), KeyState::NotPressed);
    assert_eq!(button_state(KeyState::Held, true, false), KeyState::Released);
    assert_eq!(button_state(KeyState::Held, true, true), KeyState::NotPressed);
    assert_eq!(button_state(KeyState::Released, false, true), KeyState::Released);
    assert_eq!(button_state(KeyState::Released, false, false), KeyState::Released);
    assert_eq!(button_state(KeyState::NotPressed, true, true), KeyState::NotPressed);
}

#[test]
fn held_negative_key_outweighs_a_newly_pressed_one() {
    let mut input = Input::new();
    let button = Button::new(
        vec![Key::KeyCode(KeyCode::A)],
        vec![Key::KeyCode(KeyCode::B), Key::KeyCode(KeyCode::C)],
    );
    input.set_key_down(KeyCode::B);
    input.clear_key_states();
    // A pressed, B held, C newly pressed
    input.set_key_down(KeyCode::A);
    input.set_key_down(KeyCode::B);
    input.set_key_down(KeyCode::C);
    assert_eq!(
        input.get_button_state(&button, &no_activity(1), &no_activity(2)),
        KeyState::NotPressed
    );
    // without B held, C newly pressed releases the button
    let button = Button::new(vec![Key::KeyCode(KeyCode::A)], vec![Key::KeyCode(KeyCode::C)]);
    assert_eq!(
        input.get_button_state(&button, &no_activity(1), &no_activity(1)),
        KeyState::Released
    );
}

#[test]
fn held_negative_key_blocks_button_beside_a_released_one() {
    let mut input = Input::new();
    let button = Button::new(
        vec![Key::KeyCode(KeyCode::A)],
        vec![Key::KeyCode(KeyCode::B), Key::KeyCode(KeyCode::C)],
    );
    input.set_key_down(KeyCode::B);
    input.set_key_down(KeyCode::C);
    input.clear_key_states();
    // A pressed, B held, C let go
    input.set_key_down(KeyCode::A);
    input.set_key_down(KeyCode::B);
    assert_eq!(input.get_key_state(KeyCode::C), KeyState::Released);
    assert_eq!(
        input.get_button_state(&button, &no_activity(1), &no_activity(2)),
        KeyState::NotPressed
    );
}

#[test]
fn negative_key_blocks_button() {
    let mut input = Input::new();
    let button = Button::new(
        vec![Key::KeyCode(KeyCode::A)],
        vec![Key::KeyCode(KeyCode::B)],
    );
    input.set_key_down(KeyCode::B);
    input.clear_key_states();
    input.set_key_down(KeyCode::A);
    input.set_key_down(KeyCode::B);
    // B is held: A cannot press the button
    assert_eq!(
        input.get_button_state(&button, &no_activity(1), &no_activity(1)),
        KeyState::NotPressed
    );
}

#[test]
fn keyboard_axis_values() {
    assert_eq!(keyboard_axis_value(KeyState::Pressed, KeyState::NotPressed), Some(1));
    assert_eq!(keyboard_axis_value(KeyState::NotPressed, KeyState::Held), Some(-1));
    assert_eq!(keyboard_axis_value(KeyState::Held, KeyState::Pressed), Some(0));
    assert_eq!(keyboard_axis_value(KeyState::Released, KeyState::Released), None);
    assert_eq!(keyboard_axis_value(KeyState::NotPressed, KeyState::NotPressed), None);
}

#[test]
fn axis_direction_index() {
    assert_eq!(usize::from(AxisDirection::X), 0);
    assert_eq!(usize::from(AxisDirection::Y), 1);
}

#[test]
fn key_code_positions() {
    assert_eq!(KeyCode::Key1.position(), 0);
    assert_eq!(KeyCode::A.position(), 10);
    assert_eq!(KeyCode::Cut.position(), 154);
    assert_eq!(GamepadButton::Start.position(), 0);
    assert_eq!(GamepadButton::DPadRight.position(), 18);
    assert_eq!(MouseButton::Middle.code(), 2);
    assert_eq!(MouseButton::Other(0).code(), 3);
}

#[test]
fn gamepad_buttons_from_driver() {
    assert_eq!(gamepad_button_from(PadButton::South), Some(GamepadButton::South));
    assert_eq!(gamepad_button_from(PadButton::C), Some(GamepadButton::RightShoulder));
    assert_eq!(gamepad_button_from(PadButton::LeftTrigger), Some(GamepadButton::LeftBumper));
    assert_eq!(gamepad_button_from(PadButton::LeftTrigger2), Some(GamepadButton::LeftTrigger));
    assert_eq!(gamepad_button_from(PadButton::Mode), None);
    assert_eq!(gamepad_button_from(PadButton::Unknown), None);
}

#[test]
fn gamepad_button_held_until_released() {
    let mut input = Input::new();
    input.begin_gamepad_frame();
    input.handle_gamepad_event(2, GamepadEvent::ButtonPressed(PadButton::South));
    input.end_gamepad_frame();
    assert_eq!(input.last_active_gamepad(), 2);
    assert_eq!(input.get_gamepad_state(2, GamepadButton::South), KeyState::Pressed);
    assert_eq!(input.get_gamepad_state(0, GamepadButton::South), KeyState::NotPressed);

    // next frame, no event: still down
    input.begin_gamepad_frame();
    input.end_gamepad_frame();
    assert_eq!(input.get_gamepad_state(2, GamepadButton::South), KeyState::Held);

    // next frame, released
    input.begin_gamepad_frame();
    input.handle_gamepad_event(2, GamepadEvent::ButtonReleased(PadButton::South));
    input.end_gamepad_frame();
    assert_eq!(input.get_gamepad_state(2, GamepadButton::South), KeyState::Released);

    input.begin_gamepad_frame();
    input.end_gamepad_frame();
    assert_eq!(input.get_gamepad_state(2, GamepadButton::South), KeyState::NotPressed);
}

#[test]
fn repeated_gamepad_button_is_down_for_one_frame() {
    let mut input = Input::new();
    input.begin_gamepad_frame();
    input.handle_gamepad_event(1, GamepadEvent::ButtonRepeated(PadButton::East));
    input.end_gamepad_frame();
    assert_eq!(input.get_gamepad_state(1, GamepadButton::East), KeyState::Pressed);
    input.begin_gamepad_frame();
    input.end_gamepad_frame();
    assert_eq!(input.get_gamepad_state(1, GamepadButton::East), KeyState::Released);
}

#[test]
fn other_gamepad_events_change_nothing() {
    let mut input = Input::new();
    input.handle_gamepad_event(5, GamepadEvent::Other);
    assert_eq!(input.last_active_gamepad(), 0);
    input.handle_gamepad_event(5, GamepadEvent::ButtonPressed(PadButton::Mode));
    assert_eq!(input.last_active_gamepad(), 5);
    assert_eq!(input.get_gamepad_state(5, GamepadButton::Start), KeyState::NotPressed);
}

#[test]
fn gamepad_key_uses_last_active_gamepad() {
    let mut input = Input::new();
    input.handle_gamepad_event(3, GamepadEvent::ButtonPressed(PadButton::North));
    let keys = vec![Key::GamepadButton((GamepadButton::North, None))];
    assert_eq!(input.find_highest_state(&keys, &no_activity(1)), KeyState::Pressed);
    let keys = vec![Key::GamepadButton((GamepadButton::North, Some(0)))];
    assert_eq!(input.find_highest_state(&keys, &no_activity(1)), KeyState::NotPressed);
}

#[test]
fn gamepad_axes() {
    let mut input = Input::new();
    assert_eq!(input.get_gamepad_axis(), [0, 0]);
    input.set_gamepad_axis(0, 0, [0x3f80_0000, 0xbf80_0000]);
    input.set_gamepad_axis(1, 1, [7, 8]);
    assert_eq!(input.get_gamepad_axis(), [0x3f80_0000, 0xbf80_0000]);
    assert_eq!(input.get_gamepad_axis_with_id(1, 1), [7, 8]);
    assert_eq!(input.get_gamepad_axis_with_id(1, 0), [0, 0]);
    assert_eq!(input.get_gamepad_axis_with_id(4, 1), [0, 0]);
}

#[test]
fn test_pressing_one_key_leaves_the_others() {
    let mut input = Input::new();
    input.set_key_down(KeyCode::A);
    assert_eq!(input.get_key_state(KeyCode::A), KeyState::Pressed);
    assert_eq!(input.get_key_state(KeyCode::B), KeyState::NotPressed);
    assert_eq!(input.get_mouse_state(MouseButton::Left), KeyState::NotPressed);

    input.set_mouse_down(MouseButton::Other(7));
    assert_eq!(input.get_mouse_state(MouseButton::Other(7)), KeyState::Pressed);
    assert_eq!(input.get_mouse_state(MouseButton::Other(6)), KeyState::NotPressed);
    assert_eq!(input.get_mouse_state(MouseButton::Other(u32::MAX)), KeyState::NotPressed);
    assert_eq!(input.get_key_state(KeyCode::A), KeyState::Pressed);

    input.set_gamepad_button_down(0, GamepadButton::South);
    assert_eq!(input.get_gamepad_state(0, GamepadButton::South), KeyState::Pressed);
    assert_eq!(input.get_gamepad_state(0, GamepadButton::East), KeyState::NotPressed);
    assert_eq!(input.get_gamepad_state(1, GamepadButton::South), KeyState::NotPressed);
}

#[test]
fn gamepad_button_held_through_other_events() {
    let mut input = Input::new();
    // frame 1: South pressed on gamepad 2, among other events
    input.begin_gamepad_frame();
    input.handle_gamepad_event(2, GamepadEvent::ButtonPressed(PadButton::East));
    input.handle_gamepad_event(2, GamepadEvent::ButtonPressed(PadButton::South));
    input.handle_gamepad_event(2, GamepadEvent::ButtonReleased(PadButton::East));
    input.handle_gamepad_event(1, GamepadEvent::ButtonPressed(PadButton::South));
    input.end_gamepad_frame();
    assert_eq!(input.get_gamepad_state(2, GamepadButton::South), KeyState::Pressed);

    // frames 2 and 3: other buttons, other gamepads, nothing lets South go
    for _ in 0..2 {
        input.begin_gamepad_frame();
        input.handle_gamepad_event(2, GamepadEvent::ButtonPressed(PadButton::North));
        input.handle_gamepad_event(2, GamepadEvent::ButtonReleased(PadButton::North));
        input.handle_gamepad_event(1, GamepadEvent::ButtonReleased(PadButton::South));
        input.handle_gamepad_event(2, GamepadEvent::ButtonRepeated(PadButton::West));
        input.handle_gamepad_event(2, GamepadEvent::Other);
        input.end_gamepad_frame();
        assert_eq!(input.get_gamepad_state(2, GamepadButton::South), KeyState::Held);
    }
    // gamepad 1's South was let go in frame 2: up again by frame 3
    assert_eq!(input.get_gamepad_state(1, GamepadButton::South), KeyState::NotPressed);
}
