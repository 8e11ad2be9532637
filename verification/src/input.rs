//! The input resource: which keys, mouse buttons and gamepad buttons are
//! down, the state of each relative to the previous frame, and the rules
//! by which buttons made of several keys are pressed.
use crate::fx::{
    fx_map_get, fx_map_insert, fx_map_keys, fx_map_new, fx_map_remove, fx_set_elements,
    fx_set_insert, fx_set_new, fx_set_remove,
};
use crate::keys::{
    gamepad_button_position, key_code_position, lemma_gamepad_button_position_determines_button,
    lemma_key_code_position_determines_key, GamepadButton, KeyCode,
};
use crate::press::{
    key_state_from, key_state_of, press_view_advance, press_view_empty, press_view_set_down,
    press_view_state, KeyState, PressTracker, PressView,
};
use fxhash::{FxHashMap, FxHashSet};
use vstd::prelude::*;

verus! {

/// The mouse buttons. `Other` is any button that is not left, right or middle.
#[derive(Debug, Clone, Copy, PartialEq, Eq, Structural, Hash, PartialOrd, Ord)]
pub enum MouseButton {
    Left,
    Right,
    Middle,
    Other(u32),
}

/// The code under which the state of a mouse button is kept.
pub open spec fn mouse_button_code(b: MouseButton) -> int {
    match b {
        MouseButton::Left => 0,
        MouseButton::Right => 1,
        MouseButton::Middle => 2,
        MouseButton::Other(n) => 3 + n,
    }
}

impl MouseButton {
    /// The code under which the state of this mouse button is kept.
    pub fn code(&self) -> (c: u64)
        ensures
            c == mouse_button_code(*self),
    {
        match self {
            MouseButton::Left => 0,
            MouseButton::Right => 1,
            MouseButton::Middle => 2,
            MouseButton::Other(n) => 3 + *n as u64,
        }
    }
}

/// Different mouse buttons are kept under different codes.
pub proof fn lemma_mouse_button_code_injective(a: MouseButton, b: MouseButton)
    ensures
        mouse_button_code(a) == mouse_button_code(b) ==> a == b,
{
}

/// The direction in which an axis has to pass a threshold for an axis event.
#[derive(Debug, Clone, Copy, PartialEq, Eq, Structural)]
pub enum AxisEventDirection {
    /// left or down
    Negative,
    /// right or up
    Positive,
}

/// An axis event is a key that is down while an axis is past a threshold.
///
/// The threshold is an `f32` kept by its bit pattern (`f32::to_bits`); it is
/// the magnitude of the threshold that the event was made with.
pub struct AxisEvent {
    direction: AxisEventDirection,
    axis: String,
    threshold_bits: u32,
}

impl AxisEvent {
    /// The direction of the event.
    pub closed spec fn spec_direction(&self) -> AxisEventDirection {
        self.direction
    }

    /// The name of the axis.
    pub closed spec fn spec_axis(&self) -> Seq<char> {
        self.axis@
    }

    /// The bit pattern of the threshold.
    pub closed spec fn spec_threshold_bits(&self) -> u32 {
        self.threshold_bits
    }

    /// Creates an axis event on the named axis; `threshold_bits` is the bit
    /// pattern of a threshold that is not negative.
    pub fn new(direction: AxisEventDirection, axis: String, threshold_bits: u32) -> (e: Self)
        ensures
            e.spec_direction() == direction,
            e.spec_axis() == axis@,
            e.spec_threshold_bits() == threshold_bits,
    {
        AxisEvent { direction, axis, threshold_bits }
    }

    /// The direction of the event.
    pub fn direction(&self) -> (d: AxisEventDirection)
        ensures
            d == self.spec_direction(),
    {
        self.direction
    }

    /// The name of the axis.
    pub fn axis(&self) -> (a: &String)
        ensures
            a@ == self.spec_axis(),
    {
        &self.axis
    }

    /// The bit pattern of the threshold.
    pub fn threshold_bits(&self) -> (t: u32)
        ensures
            t == self.spec_threshold_bits(),
    {
        self.threshold_bits
    }
}

/// A key that can make a `Button` or an axis go: a keyboard key, a mouse
/// button, a button of a gamepad (of the last active gamepad if no id is
/// given) or an axis event.
pub enum Key {
    KeyCode(KeyCode),
    MouseButton(MouseButton),
    GamepadButton((GamepadButton, Option<u32>)),
    AxisEvent(AxisEvent),
}

impl From<KeyCode> for Key {
    fn from(k: KeyCode) -> (r: Key) {
        Key::KeyCode(k)
    }
}

impl vstd::std_specs::convert::FromSpecImpl<KeyCode> for Key {
    open spec fn obeys_from_spec() -> bool {
        true
    }

    open spec fn from_spec(k: KeyCode) -> Key {
        Key::KeyCode(k)
    }
}

impl From<MouseButton> for Key {
    fn from(b: MouseButton) -> (r: Key) {
        Key::MouseButton(b)
    }
}

impl vstd::std_specs::convert::FromSpecImpl<MouseButton> for Key {
    open spec fn obeys_from_spec() -> bool {
        true
    }

    open spec fn from_spec(b: MouseButton) -> Key {
        Key::MouseButton(b)
    }
}

impl From<(GamepadButton, Option<u32>)> for Key {
    fn from(b: (GamepadButton, Option<u32>)) -> (r: Key) {
        Key::GamepadButton(b)
    }
}

impl vstd::std_specs::convert::FromSpecImpl<(GamepadButton, Option<u32>)> for Key {
    open spec fn obeys_from_spec() -> bool {
        true
    }

    open spec fn from_spec(b: (GamepadButton, Option<u32>)) -> Key {
        Key::GamepadButton(b)
    }
}

impl From<GamepadButton> for Key {
    fn from(b: GamepadButton) -> (r: Key) {
        Key::GamepadButton((b, None))
    }
}

impl vstd::std_specs::convert::FromSpecImpl<GamepadButton> for Key {
    open spec fn obeys_from_spec() -> bool {
        true
    }

    open spec fn from_spec(b: GamepadButton) -> Key {
        Key::GamepadButton((b, None))
    }
}

impl From<AxisEvent> for Key {
    fn from(e: AxisEvent) -> (r: Key) {
        Key::AxisEvent(e)
    }
}

impl vstd::std_specs::convert::FromSpecImpl<AxisEvent> for Key {
    open spec fn obeys_from_spec() -> bool {
        true
    }

    open spec fn from_spec(e: AxisEvent) -> Key {
        Key::AxisEvent(e)
    }
}

/// A button is pressed by any of its positive keys, unless one of its
/// negative keys is down. It makes custom key bindings possible.
pub struct Button {
    positive_keys: Vec<Key>,
    negative_keys: Vec<Key>,
}

impl Button {
    /// The keys that press the button.
    pub closed spec fn spec_positive_keys(&self) -> Seq<Key> {
        self.positive_keys@
    }

    /// The keys that keep the button from being pressed.
    pub closed spec fn spec_negative_keys(&self) -> Seq<Key> {
        self.negative_keys@
    }

    /// Creates a button from the keys that press it and those that keep it
    /// from being pressed.
    pub fn new(positive_keys: Vec<Key>, negative_keys: Vec<Key>) -> (b: Self)
        ensures
            b.spec_positive_keys() == positive_keys@,
            b.spec_negative_keys() == negative_keys@,
    {
        Button { positive_keys, negative_keys }
    }

    /// The keys that press the button.
    pub fn positive_keys(&self) -> (k: &Vec<Key>)
        ensures
            k@ == self.spec_positive_keys(),
    {
        &self.positive_keys
    }

    /// The keys that keep the button from being pressed.
    pub fn negative_keys(&self) -> (k: &Vec<Key>)
        ensures
            k@ == self.spec_negative_keys(),
    {
        &self.negative_keys
    }
}

/// The direction of an axis: X is left and right, Y is up and down.
#[derive(Debug, Clone, Copy, PartialEq, Eq, Structural, Hash)]
pub enum AxisDirection {
    X,
    Y,
}

impl From<AxisDirection> for usize {
    fn from(value: AxisDirection) -> (r: usize) {
        match value {
            AxisDirection::X => 0,
            AxisDirection::Y => 1,
        }
    }
}

impl vstd::std_specs::convert::FromSpecImpl<AxisDirection> for usize {
    open spec fn obeys_from_spec() -> bool {
        true
    }

    open spec fn from_spec(value: AxisDirection) -> usize {
        match value {
            AxisDirection::X => 0,
            AxisDirection::Y => 1,
        }
    }
}

/// What a gamepad holds: its buttons (by position), the buttons that were
/// pressed and not yet let go, and the values of its axes by axis id (each
/// a pair of `f32` bit patterns, x then y).
pub struct GamepadView {
    pub buttons: PressView,
    pub awaiting_release: Set<u64>,
    pub axes: Map<u32, [u32; 2]>,
}

/// A gamepad on which nothing has happened.
pub open spec fn gamepad_view_empty() -> GamepadView {
    GamepadView { buttons: press_view_empty(), awaiting_release: Set::empty(), axes: Map::empty() }
}

/// The gamepad after button `code` is marked as down in the current frame.
pub open spec fn gamepad_view_set_down(g: GamepadView, code: u64) -> GamepadView {
    GamepadView {
        buttons: press_view_set_down(g.buttons, code),
        awaiting_release: g.awaiting_release,
        axes: g.axes,
    }
}

/// The gamepad after a frame ends.
pub open spec fn gamepad_view_advance(g: GamepadView) -> GamepadView {
    GamepadView {
        buttons: press_view_advance(g.buttons),
        awaiting_release: g.awaiting_release,
        axes: g.axes,
    }
}

/// The gamepad after every button that awaits release is marked as down.
pub open spec fn gamepad_view_hold_awaiting(g: GamepadView) -> GamepadView {
    GamepadView {
        buttons: PressView {
            previous: g.buttons.previous,
            current: g.buttons.current + g.awaiting_release,
        },
        awaiting_release: g.awaiting_release,
        axes: g.axes,
    }
}

/// The axis `axis_id` of a gamepad, or `[0, 0]` (0.0 twice) if it has no value.
pub open spec fn gamepad_view_axis(g: GamepadView, axis_id: u32) -> [u32; 2] {
    if g.axes.contains_key(axis_id) { g.axes[axis_id] } else { [0u32, 0u32] }
}

/// One frame step of a gamepad: marking its buttons that await release as
/// down (`hold`), or ending the frame for its buttons.
pub open spec fn gamepad_frame_step(g: GamepadView, hold: bool) -> GamepadView {
    if hold { gamepad_view_hold_awaiting(g) } else { gamepad_view_advance(g) }
}

/// The state of one gamepad: its buttons and its axes.
pub(crate) struct GamepadInputInfo {
    gamepad_states: PressTracker,
    buttons_awaiting_release: FxHashSet<u64>,
    gamepad_axes: FxHashMap<u32, [u32; 2]>,
}

impl View for GamepadInputInfo {
    type V = GamepadView;

    closed spec fn view(&self) -> GamepadView {
        GamepadView {
            buttons: self.gamepad_states@,
            awaiting_release: self.buttons_awaiting_release@,
            axes: self.gamepad_axes@,
        }
    }
}

impl GamepadInputInfo {
    fn new() -> (g: Self)
        ensures
            g@ == gamepad_view_empty(),
    {
        let g = GamepadInputInfo {
            gamepad_states: PressTracker::new(),
            buttons_awaiting_release: fx_set_new(),
            gamepad_axes: fx_map_new(),
        };
        assert(g.gamepad_axes@ =~= Map::<u32, [u32; 2]>::empty());
        g
    }

    /// Marks the button at position `code` as down.
    fn set_code_down(&mut self, code: u64)
        ensures
            final(self)@ == gamepad_view_set_down(old(self)@, code),
    {
        self.gamepad_states.set_down(code);
    }

    /// Moves the current button states to the previous frame.
    fn clear_gamepad_states(&mut self)
        ensures
            final(self)@ == gamepad_view_advance(old(self)@),
    {
        self.gamepad_states.advance();
    }

    /// The state of a button.
    fn get_gamepad_state(&self, button: GamepadButton) -> (s: KeyState)
        ensures
            s == press_view_state(self@.buttons, gamepad_button_position(button) as u64),
    {
        self.gamepad_states.state(button.position() as u64)
    }

    /// The axis `id`, or `[0, 0]` if it has no value.
    fn get_gamepad_axis_with_id(&self, id: u32) -> (a: [u32; 2])
        ensures
            a == gamepad_view_axis(self@, id),
    {
        match fx_map_get(&self.gamepad_axes, &id) {
            Some(a) => *a,
            None => [0, 0],
        }
    }

    /// Sets the axis `id`.
    fn set_gamepad_axis(&mut self, id: u32, axis: [u32; 2])
        ensures
            final(self)@ == (GamepadView { axes: old(self)@.axes.insert(id, axis), ..old(self)@ }),
    {
        fx_map_insert(&mut self.gamepad_axes, id, axis);
    }

    /// Marks the button at position `code` as waiting to be let go.
    fn await_release(&mut self, code: u64)
        ensures
            final(self)@ == (GamepadView { awaiting_release: old(self)@.awaiting_release.insert(code), ..old(self)@ }),
    {
        fx_set_insert(&mut self.buttons_awaiting_release, code);
    }

    /// The button at position `code` was let go.
    fn release(&mut self, code: u64)
        ensures
            final(self)@ == (GamepadView { awaiting_release: old(self)@.awaiting_release.remove(code), ..old(self)@ }),
    {
        fx_set_remove(&mut self.buttons_awaiting_release, code);
    }

    /// Marks every button that awaits release as down.
    fn hold_awaiting(&mut self)
        ensures
            final(self)@ == gamepad_view_hold_awaiting(old(self)@),
    {
        let codes = fx_set_elements(&self.buttons_awaiting_release);
        let ghost g0 = self@;
        let mut i: usize = 0;
        while i < codes.len()
            invariant
                0 <= i <= codes.len(),
                codes@.to_set() == g0.awaiting_release,
                self@.awaiting_release == g0.awaiting_release,
                self@.axes == g0.axes,
                self@.buttons.previous == g0.buttons.previous,
                self@.buttons.current == g0.buttons.current + codes@.take(i as int).to_set(),
            decreases codes.len() - i,
        {
            let code = codes[i];
            self.gamepad_states.set_down(code);
            proof {
                assert(codes@.take(i + 1) =~= codes@.take(i as int).push(code));
                codes@.take(i as int).lemma_push_to_set_commute(code);
                assert(self@.buttons.current =~= g0.buttons.current + codes@.take(i + 1).to_set());
            }
            i = i + 1;
        }
        proof {
            assert(codes@.take(codes.len() as int) =~= codes@);
            assert(self@.buttons.current =~= g0.buttons.current + g0.awaiting_release);
        }
    }
}

/// What the input resource holds: the keys and mouse buttons that are down
/// in this frame and the previous one, the gamepads by id, and the id of
/// the gamepad that sent the last button event.
pub struct InputView {
    pub keys: PressView,
    pub mouse: PressView,
    pub gamepads: Map<u32, GamepadView>,
    pub last_active_gamepad: u32,
}

/// The gamepad with id `id`, or a gamepad on which nothing has happened.
pub open spec fn gamepad_or_empty(gamepads: Map<u32, GamepadView>, id: u32) -> GamepadView {
    if gamepads.contains_key(id) { gamepads[id] } else { gamepad_view_empty() }
}

/// The state of a button of the gamepad with id `id`; `NotPressed` if there
/// is no such gamepad.
pub open spec fn gamepad_state(v: InputView, id: u32, button: GamepadButton) -> KeyState {
    if v.gamepads.contains_key(id) {
        press_view_state(v.gamepads[id].buttons, gamepad_button_position(button) as u64)
    } else {
        KeyState::NotPressed
    }
}

/// The input after a button of gamepad `id` is marked as down; the gamepad
/// is added if there was none with that id.
pub open spec fn input_view_gamepad_button_down(v: InputView, id: u32, button: GamepadButton) -> InputView {
    InputView {
        gamepads: v.gamepads.insert(
            id,
            gamepad_view_set_down(gamepad_or_empty(v.gamepads, id), gamepad_button_position(button) as u64),
        ),
        ..v
    }
}

/// The input after every gamepad's frame ends.
pub open spec fn input_view_begin_gamepad_frame(v: InputView) -> InputView {
    InputView { gamepads: v.gamepads.map_values(|g: GamepadView| gamepad_view_advance(g)), ..v }
}

/// The input after every button that awaits release, on every gamepad, is
/// marked as down.
pub open spec fn input_view_end_gamepad_frame(v: InputView) -> InputView {
    InputView { gamepads: v.gamepads.map_values(|g: GamepadView| gamepad_view_hold_awaiting(g)), ..v }
}

/// The buttons that a gamepad driver reports. Each is turned into a
/// `GamepadButton`, or into none.
#[derive(Debug, Clone, Copy, PartialEq, Eq, Structural)]
pub enum PadButton {
    South,
    East,
    North,
    West,
    C,
    Z,
    LeftTrigger,
    LeftTrigger2,
    RightTrigger,
    RightTrigger2,
    Select,
    Start,
    Mode,
    LeftThumb,
    RightThumb,
    DPadUp,
    DPadDown,
    DPadLeft,
    DPadRight,
    Unknown,
}

/// The gamepad button that a reported button stands for, if any.
pub open spec fn gamepad_button_of(button: PadButton) -> Option<GamepadButton> {
    match button {
        PadButton::South => Some(GamepadButton::South),
        PadButton::East => Some(GamepadButton::East),
        PadButton::North => Some(GamepadButton::North),
        PadButton::West => Some(GamepadButton::West),
        PadButton::C => Some(GamepadButton::RightShoulder),
        PadButton::Z => Some(GamepadButton::LeftShoulder),
        PadButton::LeftTrigger => Some(GamepadButton::LeftBumper),
        PadButton::RightTrigger => Some(GamepadButton::RightBumper),
        PadButton::LeftTrigger2 => Some(GamepadButton::LeftTrigger),
        PadButton::RightTrigger2 => Some(GamepadButton::RightTrigger),
        PadButton::LeftThumb => Some(GamepadButton::LeftStick),
        PadButton::RightThumb => Some(GamepadButton::RightStick),
        PadButton::Select => Some(GamepadButton::Select),
        PadButton::Start => Some(GamepadButton::Start),
        PadButton::DPadUp => Some(GamepadButton::DPadUp),
        PadButton::DPadDown => Some(GamepadButton::DPadDown),
        PadButton::DPadLeft => Some(GamepadButton::DPadLeft),
        PadButton::DPadRight => Some(GamepadButton::DPadRight),
        _ => None,
    }
}

/// The gamepad button that a reported button stands for, if any.
pub fn gamepad_button_from(button: PadButton) -> (b: Option<GamepadButton>)
    ensures
        b == gamepad_button_of(button),
{
    match button {
        PadButton::South => Some(GamepadButton::South),
        PadButton::East => Some(GamepadButton::East),
        PadButton::North => Some(GamepadButton::North),
        PadButton::West => Some(GamepadButton::West),
        PadButton::C => Some(GamepadButton::RightShoulder),
        PadButton::Z => Some(GamepadButton::LeftShoulder),
        PadButton::LeftTrigger => Some(GamepadButton::LeftBumper),
        PadButton::RightTrigger => Some(GamepadButton::RightBumper),
        PadButton::LeftTrigger2 => Some(GamepadButton::LeftTrigger),
        PadButton::RightTrigger2 => Some(GamepadButton::RightTrigger),
        PadButton::LeftThumb => Some(GamepadButton::LeftStick),
        PadButton::RightThumb => Some(GamepadButton::RightStick),
        PadButton::Select => Some(GamepadButton::Select),
        PadButton::Start => Some(GamepadButton::Start),
        PadButton::DPadUp => Some(GamepadButton::DPadUp),
        PadButton::DPadDown => Some(GamepadButton::DPadDown),
        PadButton::DPadLeft => Some(GamepadButton::DPadLeft),
        PadButton::DPadRight => Some(GamepadButton::DPadRight),
        _ => None,
    }
}

/// A button event that a gamepad driver reports.
#[derive(Debug, Clone, Copy, PartialEq, Eq, Structural)]
pub enum GamepadEvent {
    ButtonPressed(PadButton),
    ButtonRepeated(PadButton),
    ButtonReleased(PadButton),
    /// Any other event; it changes nothing.
    Other,
}

/// Whether the input can take `event` from gamepad `id`: a release of a
/// known button can only come from a gamepad that is already known.
pub open spec fn accepts_gamepad_event(v: InputView, id: u32, event: GamepadEvent) -> bool {
    match event {
        GamepadEvent::ButtonReleased(b) => gamepad_button_of(b).is_some() ==> v.gamepads.contains_key(id),
        _ => true,
    }
}

/// The input after gamepad `id` reports `event`.
pub open spec fn input_view_after_event(v: InputView, id: u32, event: GamepadEvent) -> InputView {
    match event {
        GamepadEvent::ButtonRepeated(b) => {
            let v1 = InputView { last_active_gamepad: id, ..v };
            match gamepad_button_of(b) {
                Some(g) => input_view_gamepad_button_down(v1, id, g),
                None => v1,
            }
        },
        GamepadEvent::ButtonPressed(b) => {
            let v1 = InputView { last_active_gamepad: id, ..v };
            match gamepad_button_of(b) {
                Some(g) => {
                    let v2 = input_view_gamepad_button_down(v1, id, g);
                    InputView {
                        gamepads: v2.gamepads.insert(
                            id,
                            GamepadView {
                                awaiting_release: v2.gamepads[id].awaiting_release.insert(
                                    gamepad_button_position(g) as u64,
                                ),
                                ..v2.gamepads[id]
                            },
                        ),
                        ..v2
                    }
                },
                None => v1,
            }
        },
        GamepadEvent::ButtonReleased(b) => {
            let v1 = InputView { last_active_gamepad: id, ..v };
            match gamepad_button_of(b) {
                Some(g) => InputView {
                    gamepads: v1.gamepads.insert(
                        id,
                        GamepadView {
                            awaiting_release: v1.gamepads[id].awaiting_release.remove(
                                gamepad_button_position(g) as u64,
                            ),
                            ..v1.gamepads[id]
                        },
                    ),
                    ..v1
                },
                None => v1,
            }
        },
        GamepadEvent::Other => v,
    }
}

/// Whether the input can take `events` one after the other.
pub open spec fn accepts_gamepad_events(v: InputView, events: Seq<(u32, GamepadEvent)>) -> bool
    decreases events.len(),
{
    events.len() == 0 || (accepts_gamepad_event(v, events[0].0, events[0].1) && accepts_gamepad_events(
        input_view_after_event(v, events[0].0, events[0].1),
        events.drop_first(),
    ))
}

/// The input after `events` (gamepad id and event) come, one after the other.
pub open spec fn input_view_after_events(v: InputView, events: Seq<(u32, GamepadEvent)>) -> InputView
    decreases events.len(),
{
    if events.len() == 0 {
        v
    } else {
        input_view_after_events(input_view_after_event(v, events[0].0, events[0].1), events.drop_first())
    }
}

/// The input after a whole frame of the gamepads: the frame ends for their
/// buttons, `events` come, and the buttons that await release are marked
/// as down.
pub open spec fn input_view_gamepad_frame(v: InputView, events: Seq<(u32, GamepadEvent)>) -> InputView {
    input_view_end_gamepad_frame(input_view_after_events(input_view_begin_gamepad_frame(v), events))
}

/// Whether gamepad `eid` reporting `event` presses a button of gamepad `id`
/// that stands for `g`.
pub open spec fn presses_button(eid: u32, event: GamepadEvent, id: u32, g: GamepadButton) -> bool {
    &&& eid == id
    &&& event matches GamepadEvent::ButtonPressed(b) && gamepad_button_of(b) == Some(g)
}

/// Whether gamepad `eid` reporting `event` lets go of a button of gamepad
/// `id` that stands for `g`.
pub open spec fn releases_button(eid: u32, event: GamepadEvent, id: u32, g: GamepadButton) -> bool {
    &&& eid == id
    &&& event matches GamepadEvent::ButtonReleased(b) && gamepad_button_of(b) == Some(g)
}

/// Whether one of `events` presses button `g` of gamepad `id`.
pub open spec fn presses_in(events: Seq<(u32, GamepadEvent)>, id: u32, g: GamepadButton) -> bool {
    exists|i: int| 0 <= i < events.len() && #[trigger] presses_button(events[i].0, events[i].1, id, g)
}

/// Whether one of `events` lets go of button `g` of gamepad `id`.
pub open spec fn releases_in(events: Seq<(u32, GamepadEvent)>, id: u32, g: GamepadButton) -> bool {
    exists|i: int| 0 <= i < events.len() && #[trigger] releases_button(events[i].0, events[i].1, id, g)
}

/// Whether button `g` of gamepad `id` is down in the current frame and
/// waits to be let go.
pub open spec fn gamepad_awaits(v: InputView, id: u32, g: GamepadButton) -> bool {
    &&& v.gamepads.contains_key(id)
    &&& v.gamepads[id].buttons.current.contains(gamepad_button_position(g) as u64)
    &&& v.gamepads[id].awaiting_release.contains(gamepad_button_position(g) as u64)
}

/// What one event keeps of gamepad `id` and button `g`: the gamepad stays
/// known, the buttons down in the previous frame stay, those down now stay
/// down, `g` keeps waiting to be let go unless the event lets it go, and an
/// event that presses `g` leaves it down and waiting.
proof fn lemma_event_step(v: InputView, eid: u32, e: GamepadEvent, id: u32, g: GamepadButton)
    requires
        accepts_gamepad_event(v, eid, e),
    ensures
        ({
            let w = input_view_after_event(v, eid, e);
            let p = gamepad_button_position(g) as u64;
            let before = gamepad_or_empty(v.gamepads, id);
            let after = gamepad_or_empty(w.gamepads, id);
            &&& v.gamepads.contains_key(id) ==> w.gamepads.contains_key(id)
            &&& after.buttons.previous == before.buttons.previous
            &&& before.buttons.current.subset_of(after.buttons.current)
            &&& before.awaiting_release.contains(p) && !releases_button(eid, e, id, g)
                ==> after.awaiting_release.contains(p)
            &&& presses_button(eid, e, id, g) ==> w.gamepads.contains_key(id) && after.buttons.current.contains(p)
                && after.awaiting_release.contains(p)
        }),
{
    lemma_gamepad_button_position_determines_button(g);
    match e {
        GamepadEvent::ButtonRepeated(b) => {},
        GamepadEvent::ButtonPressed(b) => {},
        GamepadEvent::ButtonReleased(b) => {
            if let Some(g2) = gamepad_button_of(b) {
                lemma_gamepad_button_position_determines_button(g2);
            }
        },
        GamepadEvent::Other => {},
    }
}

/// What a run of events keeps of gamepad `id` and button `g`: as
/// `lemma_event_step` says of one event.
proof fn lemma_events(v: InputView, events: Seq<(u32, GamepadEvent)>, id: u32, g: GamepadButton)
    requires
        accepts_gamepad_events(v, events),
    ensures
        ({
            let w = input_view_after_events(v, events);
            let p = gamepad_button_position(g) as u64;
            let before = gamepad_or_empty(v.gamepads, id);
            let after = gamepad_or_empty(w.gamepads, id);
            &&& v.gamepads.contains_key(id) ==> w.gamepads.contains_key(id)
            &&& after.buttons.previous == before.buttons.previous
            &&& before.buttons.current.subset_of(after.buttons.current)
            &&& before.awaiting_release.contains(p) && !releases_in(events, id, g)
                ==> after.awaiting_release.contains(p)
            &&& presses_in(events, id, g) ==> w.gamepads.contains_key(id) && after.buttons.current.contains(p)
            &&& presses_in(events, id, g) && !releases_in(events, id, g) ==> after.awaiting_release.contains(p)
        }),
    decreases events.len(),
{
    if events.len() > 0 {
        let v1 = input_view_after_event(v, events[0].0, events[0].1);
        let rest = events.drop_first();
        lemma_event_step(v, events[0].0, events[0].1, id, g);
        lemma_events(v1, rest, id, g);
        assert(input_view_after_events(v, events) == input_view_after_events(v1, rest));
        if releases_in(rest, id, g) {
            let i = choose|i: int| 0 <= i < rest.len() && #[trigger] releases_button(rest[i].0, rest[i].1, id, g);
            assert(events[i + 1] == rest[i]);
            assert(releases_button(events[i + 1].0, events[i + 1].1, id, g));
        }
        if releases_button(events[0].0, events[0].1, id, g) {
            assert(releases_in(events, id, g));
        }
        if presses_in(events, id, g) {
            let i = choose|i: int| 0 <= i < events.len() && #[trigger] presses_button(events[i].0, events[i].1, id, g);
            if i > 0 {
                assert(rest[i - 1] == events[i]);
                assert(presses_button(rest[i - 1].0, rest[i - 1].1, id, g));
            }
        }
    }
}

/// Whether an axis event's axis was past its threshold in the previous
/// frame and whether it is now.
#[derive(Debug, Clone, Copy, PartialEq, Eq, Structural)]
pub struct AxisActivity {
    pub was_active: bool,
    pub is_active: bool,
}

/// The higher of two key states in the order `NotPressed < Pressed < Held < Released`;
/// the first if they are equal.
pub open spec fn higher_state(a: KeyState, b: KeyState) -> KeyState {
    if b.spec_rank() > a.spec_rank() { b } else { a }
}

/// The highest of a sequence of key states; `NotPressed` for none.
pub open spec fn highest_state_of(states: Seq<KeyState>) -> KeyState
    decreases states.len(),
{
    if states.len() == 0 {
        KeyState::NotPressed
    } else {
        higher_state(highest_state_of(states.drop_last()), states.last())
    }
}

/// The state of a key; an axis event is down while its axis is past its
/// threshold, so its state follows from `activity` the way a button's
/// follows from whether it is down in the previous and the current frame.
pub open spec fn key_state_in(v: InputView, key: Key, activity: AxisActivity) -> KeyState {
    match key {
        Key::KeyCode(k) => press_view_state(v.keys, key_code_position(k) as u64),
        Key::MouseButton(b) => press_view_state(v.mouse, mouse_button_code(b) as u64),
        Key::GamepadButton((b, id)) => gamepad_state(
            v,
            match id {
                Some(i) => i,
                None => v.last_active_gamepad,
            },
            b,
        ),
        Key::AxisEvent(_) => key_state_of(activity.was_active, activity.is_active),
    }
}

/// The states of a list of keys.
pub open spec fn key_states_in(v: InputView, keys: Seq<Key>, activity: Seq<AxisActivity>) -> Seq<KeyState> {
    Seq::new(keys.len(), |i: int| key_state_in(v, keys[i], activity[i]))
}

/// Whether some key among `states` was pressed in this frame.
pub open spec fn any_pressed(states: Seq<KeyState>) -> bool {
    states.contains(KeyState::Pressed)
}

/// Whether some key among `states` is held (down since an earlier frame).
pub open spec fn any_held(states: Seq<KeyState>) -> bool {
    states.contains(KeyState::Held)
}

/// Whether some key among `states` is down: pressed in this frame or held.
pub open spec fn any_down(states: Seq<KeyState>) -> bool {
    any_pressed(states) || any_held(states)
}

/// The state of a button whose positive keys are at `positive` (their
/// highest state), given whether one of its negative keys was pressed in
/// this frame and whether one of them is held: not pressed without a
/// positive key; released when a positive key is released; not pressed
/// while a negative key is held; released when a negative key is pressed
/// in this frame; otherwise the state of the positive keys.
pub open spec fn button_state_of(positive: KeyState, negative_pressed: bool, negative_held: bool) -> KeyState {
    if positive == KeyState::NotPressed {
        KeyState::NotPressed
    } else if positive == KeyState::Released {
        KeyState::Released
    } else if negative_held {
        KeyState::NotPressed
    } else if negative_pressed {
        KeyState::Released
    } else {
        positive
    }
}

/// The state of a button from the highest state of its positive keys and
/// whether one of its negative keys was pressed in this frame or is held:
/// see `button_state_of`.
pub fn button_state(positive: KeyState, negative_pressed: bool, negative_held: bool) -> (s: KeyState)
    ensures
        s == button_state_of(positive, negative_pressed, negative_held),
{
    match positive {
        KeyState::NotPressed => KeyState::NotPressed,
        KeyState::Released => KeyState::Released,
        _ => {
            if negative_held {
                KeyState::NotPressed
            } else if negative_pressed {
                KeyState::Released
            } else {
                positive
            }
        },
    }
}

/// The value that the keys of an axis give it, if any of them is down:
/// +1 for a positive key that is down, -1 for a negative one, so 0 if both
/// are. `None` if neither is down.
pub open spec fn keyboard_axis_value_of(positive: KeyState, negative: KeyState) -> Option<int> {
    if positive.spec_is_down() || negative.spec_is_down() {
        Some((if positive.spec_is_down() { 1int } else { 0int }) - (if negative.spec_is_down() { 1int } else { 0int }))
    } else {
        None
    }
}

/// The value that the keys of an axis give it: see `keyboard_axis_value_of`.
pub fn keyboard_axis_value(positive: KeyState, negative: KeyState) -> (r: Option<i8>)
    ensures
        r matches Some(x) ==> keyboard_axis_value_of(positive, negative) == Some(x as int),
        r is None ==> keyboard_axis_value_of(positive, negative) is None,
{
    let mut value: i8 = 0;
    let mut is_keyboard_input = false;
    if positive.is_down() {
        value = value + 1;
        is_keyboard_input = true;
    }
    if negative.is_down() {
        value = value - 1;
        is_keyboard_input = true;
    }
    if is_keyboard_input {
        Some(value)
    } else {
        None
    }
}

/// The input resource: which keys, mouse buttons and gamepad buttons are
/// down, and the axes of the gamepads.
pub struct Input {
    key_states: PressTracker,
    mouse_states: PressTracker,
    gamepad_infos: FxHashMap<u32, GamepadInputInfo>,
    last_active_gamepad: u32,
}

impl View for Input {
    type V = InputView;

    closed spec fn view(&self) -> InputView {
        InputView {
            keys: self.key_states@,
            mouse: self.mouse_states@,
            gamepads: self.gamepad_infos@.map_values(|g: GamepadInputInfo| g@),
            last_active_gamepad: self.last_active_gamepad,
        }
    }
}

/// No key, mouse button or gamepad is known, and the last active gamepad is 0.
pub open spec fn input_view_empty() -> InputView {
    InputView {
        keys: press_view_empty(),
        mouse: press_view_empty(),
        gamepads: Map::empty(),
        last_active_gamepad: 0,
    }
}

impl Input {
    /// Creates an input resource in which nothing is down.
    pub fn new() -> (input: Self)
        ensures
            input@ == input_view_empty(),
    {
        let input = Input {
            key_states: PressTracker::new(),
            mouse_states: PressTracker::new(),
            gamepad_infos: fx_map_new(),
            last_active_gamepad: 0,
        };
        assert(input@.gamepads =~= Map::<u32, GamepadView>::empty());
        input
    }

    /// The state of a key.
    pub fn get_key_state(&self, key: KeyCode) -> (s: KeyState)
        ensures
            s == press_view_state(self@.keys, key_code_position(key) as u64),
    {
        self.key_states.state(key.position() as u64)
    }

    /// Marks a key as down in the current frame.
    pub fn set_key_down(&mut self, key: KeyCode)
        ensures
            final(self)@ == (InputView {
                keys: press_view_set_down(old(self)@.keys, key_code_position(key) as u64),
                ..old(self)@
            }),
    {
        self.key_states.set_down(key.position() as u64);
    }

    /// Ends the frame for the keys: the keys down now become the keys down
    /// in the previous frame, and no key is down in the new frame. The mouse
    /// and the gamepads are left as they are.
    pub fn clear_key_states(&mut self)
        ensures
            final(self)@ == (InputView { keys: press_view_advance(old(self)@.keys), ..old(self)@ }),
    {
        self.key_states.advance();
    }

    /// Marks a mouse button as down in the current frame.
    pub fn set_mouse_down(&mut self, button: MouseButton)
        ensures
            final(self)@ == (InputView {
                mouse: press_view_set_down(old(self)@.mouse, mouse_button_code(button) as u64),
                ..old(self)@
            }),
    {
        self.mouse_states.set_down(button.code());
    }

    /// Ends the frame for the mouse buttons.
    pub fn clear_mouse_states(&mut self)
        ensures
            final(self)@ == (InputView { mouse: press_view_advance(old(self)@.mouse), ..old(self)@ }),
    {
        self.mouse_states.advance();
    }

    /// The state of a mouse button.
    pub fn get_mouse_state(&self, button: MouseButton) -> (s: KeyState)
        ensures
            s == press_view_state(self@.mouse, mouse_button_code(button) as u64),
    {
        self.mouse_states.state(button.code())
    }

    /// Whether gamepad `gamepad_id` is known: a button of it was marked as
    /// down or one of its axes was set.
    pub fn has_gamepad(&self, gamepad_id: u32) -> (known: bool)
        ensures
            known == self@.gamepads.contains_key(gamepad_id),
    {
        match fx_map_get(&self.gamepad_infos, &gamepad_id) {
            Some(_) => true,
            None => false,
        }
    }

    /// The id of the gamepad that sent the last button event.
    pub fn last_active_gamepad(&self) -> (id: u32)
        ensures
            id == self@.last_active_gamepad,
    {
        self.last_active_gamepad
    }

    /// Takes gamepad `id` out, or a new gamepad if there is none.
    fn take_gamepad(&mut self, id: u32) -> (g: GamepadInputInfo)
        ensures
            g@ == gamepad_or_empty(old(self)@.gamepads, id),
            final(self)@ == (InputView { gamepads: old(self)@.gamepads.remove(id), ..old(self)@ }),
    {
        let ghost before = self.gamepad_infos@;
        let g = match fx_map_remove(&mut self.gamepad_infos, &id) {
            Some(g) => g,
            None => GamepadInputInfo::new(),
        };
        assert(self.gamepad_infos@.map_values(|g: GamepadInputInfo| g@) =~= before.map_values(
            |g: GamepadInputInfo| g@,
        ).remove(id));
        g
    }

    /// Puts gamepad `g` in under `id`.
    fn put_gamepad(&mut self, id: u32, g: GamepadInputInfo)
        ensures
            final(self)@ == (InputView { gamepads: old(self)@.gamepads.insert(id, g@), ..old(self)@ }),
    {
        let ghost before = self.gamepad_infos@;
        let ghost gv = g@;
        fx_map_insert(&mut self.gamepad_infos, id, g);
        assert(self.gamepad_infos@.map_values(|g: GamepadInputInfo| g@) =~= before.map_values(
            |g: GamepadInputInfo| g@,
        ).insert(id, gv));
    }

    /// Marks a button of gamepad `gamepad_id` as down in the current frame;
    /// the gamepad is added if it was not known.
    pub fn set_gamepad_button_down(&mut self, gamepad_id: u32, button: GamepadButton)
        ensures
            final(self)@ == input_view_gamepad_button_down(old(self)@, gamepad_id, button),
    {
        let mut g = self.take_gamepad(gamepad_id);
        g.set_code_down(button.position() as u64);
        self.put_gamepad(gamepad_id, g);
        assert(self@.gamepads =~= input_view_gamepad_button_down(old(self)@, gamepad_id, button).gamepads);
    }

    /// The state of a button of gamepad `gamepad_id`; `NotPressed` if the
    /// gamepad is not known.
    pub fn get_gamepad_state(&self, gamepad_id: u32, button: GamepadButton) -> (s: KeyState)
        ensures
            s == gamepad_state(self@, gamepad_id, button),
    {
        match fx_map_get(&self.gamepad_infos, &gamepad_id) {
            Some(g) => g.get_gamepad_state(button),
            None => KeyState::NotPressed,
        }
    }

    /// The axis 0 of gamepad 0, or `[0, 0]` if there is none.
    pub fn get_gamepad_axis(&self) -> (a: [u32; 2])
        ensures
            a == (if self@.gamepads.contains_key(0) {
                gamepad_view_axis(self@.gamepads[0], 0)
            } else {
                [0u32, 0u32]
            }),
    {
        match fx_map_get(&self.gamepad_infos, &0) {
            Some(g) => g.get_gamepad_axis_with_id(0),
            None => [0, 0],
        }
    }

    /// Sets axis `axis_id` of gamepad `gamepad_id` (a pair of `f32` bit
    /// patterns); the gamepad is added if it was not known.
    pub fn set_gamepad_axis(&mut self, gamepad_id: u32, axis_id: u32, axis: [u32; 2])
        ensures
            final(self)@ == (InputView {
                gamepads: old(self)@.gamepads.insert(
                    gamepad_id,
                    GamepadView {
                        axes: gamepad_or_empty(old(self)@.gamepads, gamepad_id).axes.insert(axis_id, axis),
                        ..gamepad_or_empty(old(self)@.gamepads, gamepad_id)
                    },
                ),
                ..old(self)@
            }),
    {
        let mut g = self.take_gamepad(gamepad_id);
        g.set_gamepad_axis(axis_id, axis);
        self.put_gamepad(gamepad_id, g);
        assert(self@.gamepads =~= old(self)@.gamepads.insert(
            gamepad_id,
            GamepadView {
                axes: gamepad_or_empty(old(self)@.gamepads, gamepad_id).axes.insert(axis_id, axis),
                ..gamepad_or_empty(old(self)@.gamepads, gamepad_id)
            },
        ));
    }

    /// Axis `axis_id` of gamepad `gamepad_id`, or `[0, 0]` if there is none.
    pub fn get_gamepad_axis_with_id(&self, gamepad_id: u32, axis_id: u32) -> (a: [u32; 2])
        ensures
            a == gamepad_view_axis(gamepad_or_empty(self@.gamepads, gamepad_id), axis_id),
    {
        match fx_map_get(&self.gamepad_infos, &gamepad_id) {
            Some(g) => g.get_gamepad_axis_with_id(axis_id),
            None => [0, 0],
        }
    }

    /// The state of a key; for an axis event, `activity` tells whether its
    /// axis is past its threshold and whether it was in the previous frame.
    pub fn key_state(&self, key: &Key, activity: AxisActivity) -> (s: KeyState)
        ensures
            s == key_state_in(self@, *key, activity),
    {
        match key {
            Key::KeyCode(k) => self.get_key_state(*k),
            Key::MouseButton(b) => self.get_mouse_state(*b),
            Key::GamepadButton((b, id)) => {
                let id = match id {
                    Some(i) => *i,
                    None => self.last_active_gamepad,
                };
                self.get_gamepad_state(id, *b)
            },
            Key::AxisEvent(_) => key_state_from(activity.was_active, activity.is_active),
        }
    }

    /// The highest state among a list of keys (`NotPressed` if there is
    /// none), in the order `NotPressed < Pressed < Held < Released`.
    /// `activity[i]` is what `key_state` needs for `keys[i]` if it is an axis
    /// event; for other keys it is not looked at.
    pub fn find_highest_state(&self, keys: &Vec<Key>, activity: &Vec<AxisActivity>) -> (s: KeyState)
        requires
            keys.len() == activity.len(),
        ensures
            s == highest_state_of(key_states_in(self@, keys@, activity@)),
    {
        let ghost states = key_states_in(self@, keys@, activity@);
        let mut highest = KeyState::NotPressed;
        let mut i: usize = 0;
        while i < keys.len()
            invariant
                0 <= i <= keys.len(),
                keys.len() == activity.len(),
                states == key_states_in(self@, keys@, activity@),
                highest == highest_state_of(states.take(i as int)),
            decreases keys.len() - i,
        {
            let state = self.key_state(&keys[i], activity[i]);
            proof {
                assert(states.take(i + 1).drop_last() =~= states.take(i as int));
            }
            if state.rank() > highest.rank() {
                highest = state;
            }
            i = i + 1;
        }
        proof {
            assert(states.take(keys.len() as int) =~= states);
        }
        highest
    }

    /// Whether one of `keys` was pressed in this frame, and whether one of
    /// them is held. `activity` is as for `find_highest_state`.
    pub fn negative_key_flags(&self, keys: &Vec<Key>, activity: &Vec<AxisActivity>) -> (flags: (bool, bool))
        requires
            keys.len() == activity.len(),
        ensures
            flags.0 == any_pressed(key_states_in(self@, keys@, activity@)),
            flags.1 == any_held(key_states_in(self@, keys@, activity@)),
    {
        let ghost states = key_states_in(self@, keys@, activity@);
        let mut pressed = false;
        let mut held = false;
        let mut i: usize = 0;
        while i < keys.len()
            invariant
                0 <= i <= keys.len(),
                keys.len() == activity.len(),
                states == key_states_in(self@, keys@, activity@),
                pressed == (exists|j: int| 0 <= j < i && #[trigger] states[j] == KeyState::Pressed),
                held == (exists|j: int| 0 <= j < i && #[trigger] states[j] == KeyState::Held),
            decreases keys.len() - i,
        {
            let state = self.key_state(&keys[i], activity[i]);
            proof {
                assert(states[i as int] == state);
            }
            match state {
                KeyState::Pressed => {
                    pressed = true;
                },
                KeyState::Held => {
                    held = true;
                },
                _ => {},
            }
            i = i + 1;
        }
        (pressed, held)
    }

    /// The state of a button: see `button_state_of`, with the highest state
    /// of its positive keys and whether one of its negative keys was pressed
    /// or is held. The activity vectors are those that `find_highest_state`
    /// needs for the positive and for the negative keys.
    pub fn get_button_state(
        &self,
        button: &Button,
        positive_activity: &Vec<AxisActivity>,
        negative_activity: &Vec<AxisActivity>,
    ) -> (s: KeyState)
        requires
            button.spec_positive_keys().len() == positive_activity.len(),
            button.spec_negative_keys().len() == negative_activity.len(),
        ensures
            s == button_state_of(
                highest_state_of(key_states_in(self@, button.spec_positive_keys(), positive_activity@)),
                any_pressed(key_states_in(self@, button.spec_negative_keys(), negative_activity@)),
                any_held(key_states_in(self@, button.spec_negative_keys(), negative_activity@)),
            ),
    {
        let positive = self.find_highest_state(button.positive_keys(), positive_activity);
        let (negative_pressed, negative_held) = self.negative_key_flags(button.negative_keys(), negative_activity);
        button_state(positive, negative_pressed, negative_held)
    }

    /// Applies one frame step to every gamepad: with `hold`, marks the
    /// buttons that await release as down (`gamepad_view_hold_awaiting`);
    /// without, ends the frame for its buttons (`gamepad_view_advance`).
    fn step_every_gamepad(&mut self, hold: bool)
        ensures
            final(self)@ == (InputView {
                gamepads: old(self)@.gamepads.map_values(|g: GamepadView| gamepad_frame_step(g, hold)),
                ..old(self)@
            }),
    {
        let ids = fx_map_keys(&self.gamepad_infos);
        let ghost g0 = self@.gamepads;
        let mut i: usize = 0;
        while i < ids.len()
            invariant
                0 <= i <= ids.len(),
                ids@.to_set() == g0.dom(),
                ids@.no_duplicates(),
                self@.keys == old(self)@.keys,
                self@.mouse == old(self)@.mouse,
                self@.last_active_gamepad == old(self)@.last_active_gamepad,
                g0 == old(self)@.gamepads,
                self@.gamepads.dom() == g0.dom(),
                forall|k: u32| #[trigger] self@.gamepads.contains_key(k) ==>
                    self@.gamepads[k] == (if ids@.take(i as int).contains(k) {
                        gamepad_frame_step(g0[k], hold)
                    } else {
                        g0[k]
                    }),
            decreases ids.len() - i,
        {
            let id = ids[i];
            proof {
                assert(ids@.contains(id));
                assert(ids@.to_set().contains(id));
                assert(!ids@.take(i as int).contains(id)) by {
                    if ids@.take(i as int).contains(id) {
                        let j = choose|j: int| 0 <= j < i && ids@.take(i as int)[j] == id;
                        assert(ids@[j] == ids@[i as int]);
                    }
                }
            }
            let mut g = self.take_gamepad(id);
            if hold {
                g.hold_awaiting();
            } else {
                g.clear_gamepad_states();
            }
            self.put_gamepad(id, g);
            proof {
                assert(ids@.take(i + 1) =~= ids@.take(i as int).push(id));
                assert forall|k: u32| #[trigger] self@.gamepads.contains_key(k) implies
                    self@.gamepads[k] == (if ids@.take(i + 1).contains(k) {
                        gamepad_frame_step(g0[k], hold)
                    } else {
                        g0[k]
                    }) by {
                    if k != id {
                        assert(ids@.take(i + 1).contains(k) == ids@.take(i as int).contains(k));
                    } else {
                        assert(ids@.take(i + 1)[i as int] == id);
                    }
                }
                assert(self@.gamepads.dom() =~= g0.dom());
            }
            i = i + 1;
        }
        proof {
            assert(ids@.take(ids.len() as int) =~= ids@);
            assert forall|k: u32| g0.contains_key(k) implies ids@.contains(k) by {
                assert(ids@.to_set().contains(k));
            }
            assert(self@.gamepads =~= g0.map_values(|g: GamepadView| gamepad_frame_step(g, hold)));
        }
    }

    /// Ends the frame for the buttons of every gamepad.
    pub fn begin_gamepad_frame(&mut self)
        ensures
            final(self)@ == input_view_begin_gamepad_frame(old(self)@),
    {
        self.step_every_gamepad(false);
        assert(self@.gamepads =~= old(self)@.gamepads.map_values(|g: GamepadView| gamepad_view_advance(g)));
    }

    /// Marks every button that awaits release, on every gamepad, as down:
    /// a gamepad button stays down from the event that pressed it to the
    /// event that lets it go.
    pub fn end_gamepad_frame(&mut self)
        ensures
            final(self)@ == input_view_end_gamepad_frame(old(self)@),
    {
        self.step_every_gamepad(true);
        assert(self@.gamepads =~= old(self)@.gamepads.map_values(|g: GamepadView| gamepad_view_hold_awaiting(g)));
    }

    /// Takes a button event that gamepad `id` reports: the gamepad becomes
    /// the last active one; a pressed or repeated button is marked as down,
    /// a pressed one also waits to be let go, and a released one no longer
    /// waits. Buttons with no `GamepadButton`, and other events, change
    /// nothing else (other events do not change the last active gamepad).
    pub fn handle_gamepad_event(&mut self, id: u32, event: GamepadEvent)
        requires
            accepts_gamepad_event(old(self)@, id, event),
        ensures
            final(self)@ == input_view_after_event(old(self)@, id, event),
    {
        match event {
            GamepadEvent::ButtonRepeated(b) => {
                self.last_active_gamepad = id;
                match gamepad_button_from(b) {
                    Some(g) => self.set_gamepad_button_down(id, g),
                    None => {},
                }
            },
            GamepadEvent::ButtonPressed(b) => {
                self.last_active_gamepad = id;
                match gamepad_button_from(b) {
                    Some(g) => {
                        self.set_gamepad_button_down(id, g);
                        let mut info = self.take_gamepad(id);
                        info.await_release(g.position() as u64);
                        self.put_gamepad(id, info);
                        assert(self@.gamepads =~= input_view_after_event(old(self)@, id, event).gamepads);
                    },
                    None => {},
                }
            },
            GamepadEvent::ButtonReleased(b) => {
                self.last_active_gamepad = id;
                match gamepad_button_from(b) {
                    Some(g) => {
                        let mut info = self.take_gamepad(id);
                        info.release(g.position() as u64);
                        self.put_gamepad(id, info);
                        assert(self@.gamepads =~= input_view_after_event(old(self)@, id, event).gamepads);
                    },
                    None => {},
                }
            },
            GamepadEvent::Other => {},
        }
    }
}

/// The highest state is at least as high as every state of the sequence,
/// and it is one of them (or `NotPressed`, the lowest).
pub proof fn law_highest_state_is_maximum(states: Seq<KeyState>)
    ensures
        forall|i: int| 0 <= i < states.len() ==> #[trigger] states[i].spec_rank()
            <= highest_state_of(states).spec_rank(),
        highest_state_of(states) == KeyState::NotPressed || states.contains(highest_state_of(states)),
    decreases states.len(),
{
    if states.len() > 0 {
        let init = states.drop_last();
        law_highest_state_is_maximum(init);
        assert forall|i: int| 0 <= i < states.len() implies #[trigger] states[i].spec_rank()
            <= highest_state_of(states).spec_rank() by {
            if i < states.len() - 1 {
                assert(states[i] == init[i]);
            }
        }
        if highest_state_of(states) != KeyState::NotPressed {
            if highest_state_of(states) == states.last() {
                assert(states[states.len() - 1] == states.last());
            } else {
                let j = choose|j: int| 0 <= j < init.len() && init[j] == highest_state_of(init);
                assert(states[j] == init[j]);
            }
        }
    }
}

/// A button is released when a positive key is released, whatever the
/// negative keys do.
pub proof fn law_button_released_with_positive(negative_pressed: bool, negative_held: bool)
    ensures
        button_state_of(KeyState::Released, negative_pressed, negative_held) == KeyState::Released,
{
}

/// A button none of whose positive keys is active is not pressed.
pub proof fn law_button_needs_positive(negative_pressed: bool, negative_held: bool)
    ensures
        button_state_of(KeyState::NotPressed, negative_pressed, negative_held) == KeyState::NotPressed,
{
}

/// While a negative key is down, the button is neither pressed nor held: a
/// held negative key keeps it from being pressed (`NotPressed`, unless a
/// positive key was just released), and a negative key pressed in this
/// frame, with none held, releases it.
pub proof fn law_button_blocked_by_negative(positive: KeyState, negatives: Seq<KeyState>)
    requires
        any_down(negatives),
    ensures
        !button_state_of(positive, any_pressed(negatives), any_held(negatives)).spec_is_down(),
        any_held(negatives) && positive != KeyState::Released ==> button_state_of(
            positive,
            any_pressed(negatives),
            any_held(negatives),
        ) == KeyState::NotPressed,
        positive != KeyState::NotPressed && any_pressed(negatives) && !any_held(negatives) ==> button_state_of(
            positive,
            any_pressed(negatives),
            any_held(negatives),
        ) == KeyState::Released,
{
}

/// With no negative key pressed or held, a button is in the state of its
/// positive keys.
pub proof fn law_button_follows_positive(positive: KeyState, negatives: Seq<KeyState>)
    requires
        !any_down(negatives),
    ensures
        button_state_of(positive, any_pressed(negatives), any_held(negatives)) == positive,
{
}

/// A gamepad button pressed in one frame, and not let go, is `Held` in the
/// next frame, and the gamepad that reported it is the last active one.
pub proof fn law_gamepad_button_held_until_released(v: InputView, id: u32, b: PadButton, g: GamepadButton)
    requires
        gamepad_button_of(b) == Some(g),
    ensures
        gamepad_state(
            input_view_end_gamepad_frame(
                input_view_begin_gamepad_frame(
                    input_view_after_event(v, id, GamepadEvent::ButtonPressed(b)),
                ),
            ),
            id,
            g,
        ) == KeyState::Held,
        input_view_after_event(v, id, GamepadEvent::ButtonPressed(b)).last_active_gamepad == id,
{
}

/// A gamepad button pressed in one frame and let go in the next is
/// `Released` in that next frame.
pub proof fn law_gamepad_button_released(v: InputView, id: u32, b: PadButton, g: GamepadButton)
    requires
        gamepad_button_of(b) == Some(g),
    ensures
        accepts_gamepad_event(
            input_view_begin_gamepad_frame(input_view_after_event(v, id, GamepadEvent::ButtonPressed(b))),
            id,
            GamepadEvent::ButtonReleased(b),
        ),
        gamepad_state(
            input_view_end_gamepad_frame(
                input_view_after_event(
                    input_view_begin_gamepad_frame(
                        input_view_after_event(v, id, GamepadEvent::ButtonPressed(b)),
                    ),
                    id,
                    GamepadEvent::ButtonReleased(b),
                ),
            ),
            id,
            g,
        ) == KeyState::Released,
{
}

/// The system that updates the input resource each frame: it ends the
/// frame for the gamepad buttons (`Input::begin_gamepad_frame`), takes the
/// events of the gamepads (`Input::handle_gamepad_event`), and marks the
/// buttons that were not let go as still down (`Input::end_gamepad_frame`).
pub struct InputUpdateSystem;

impl InputUpdateSystem {
    /// Creates the input update system.
    pub fn new() -> (s: Self) {
        InputUpdateSystem
    }
}

/// Pressing a key changes the state of that key only: every other key, every
/// mouse button and every gamepad button keeps its state.
pub proof fn law_pressing_a_key_leaves_the_others(
    v: InputView,
    pressed: KeyCode,
    other: Key,
    activity: AxisActivity,
)
    requires
        other != Key::KeyCode(pressed),
    ensures
        key_state_in(
            InputView { keys: press_view_set_down(v.keys, key_code_position(pressed) as u64), ..v },
            other,
            activity,
        ) == key_state_in(v, other, activity),
{
    lemma_key_code_position_determines_key(pressed);
    if let Key::KeyCode(k) = other {
        lemma_key_code_position_determines_key(k);
    }
}

/// Pressing a mouse button changes the state of that button only: every
/// other mouse button, every key and every gamepad button keeps its state.
pub proof fn law_pressing_a_mouse_button_leaves_the_others(
    v: InputView,
    pressed: MouseButton,
    other: Key,
    activity: AxisActivity,
)
    requires
        other != Key::MouseButton(pressed),
    ensures
        key_state_in(
            InputView { mouse: press_view_set_down(v.mouse, mouse_button_code(pressed) as u64), ..v },
            other,
            activity,
        ) == key_state_in(v, other, activity),
{
    if let Key::MouseButton(b) = other {
        lemma_mouse_button_code_injective(pressed, b);
    }
}

/// A gamepad button pressed on one gamepad changes the state of that button
/// on that gamepad only: other buttons, and the same button on other
/// gamepads, keep their states.
pub proof fn law_gamepad_press_leaves_the_others(
    v: InputView,
    id: u32,
    pressed: GamepadButton,
    other_id: u32,
    other: GamepadButton,
)
    requires
        other_id != id || other != pressed,
    ensures
        gamepad_state(input_view_gamepad_button_down(v, id, pressed), other_id, other)
            == gamepad_state(v, other_id, other),
{
    lemma_gamepad_button_position_determines_button(pressed);
    lemma_gamepad_button_position_determines_button(other);
}

/// A gamepad button that is down and waits to be let go is `Held` at the end
/// of every later frame whose events do not let it go, and still waits.
pub proof fn law_gamepad_button_held_through_frame(
    v: InputView,
    events: Seq<(u32, GamepadEvent)>,
    id: u32,
    g: GamepadButton,
)
    requires
        accepts_gamepad_events(input_view_begin_gamepad_frame(v), events),
        gamepad_awaits(v, id, g),
        !releases_in(events, id, g),
    ensures
        gamepad_state(input_view_gamepad_frame(v, events), id, g) == KeyState::Held,
        gamepad_awaits(input_view_gamepad_frame(v, events), id, g),
{
    let b = input_view_begin_gamepad_frame(v);
    lemma_events(b, events, id, g);
}

/// A gamepad button pressed by one of a frame's events, and not down at the
/// end of the frame before, is `Pressed` at the end of the frame; if none of
/// the frame's events lets it go, it is down and waits to be let go, so
/// that `law_gamepad_button_held_through_frame` applies to the frames after.
pub proof fn law_gamepad_button_pressed_in_frame(
    v: InputView,
    events: Seq<(u32, GamepadEvent)>,
    id: u32,
    g: GamepadButton,
)
    requires
        accepts_gamepad_events(input_view_begin_gamepad_frame(v), events),
        presses_in(events, id, g),
        !(v.gamepads.contains_key(id) && v.gamepads[id].buttons.current.contains(
            gamepad_button_position(g) as u64,
        )),
    ensures
        gamepad_state(input_view_gamepad_frame(v, events), id, g) == KeyState::Pressed,
        !releases_in(events, id, g) ==> gamepad_awaits(input_view_gamepad_frame(v, events), id, g),
{
    let b = input_view_begin_gamepad_frame(v);
    lemma_events(b, events, id, g);
}

/// Negative keys that are neither pressed in this frame nor held, such as
/// keys let go in this frame, do not touch a button: it is in the state of
/// its positive keys. So a positive key pressed in this frame, with every
/// negative key up or just let go, gives a pressed button.
pub proof fn law_button_ignores_keys_that_are_up(positive: KeyState, negatives: Seq<KeyState>)
    requires
        forall|i: int|
            0 <= i < negatives.len() ==> #[trigger] negatives[i] == KeyState::NotPressed || negatives[i]
                == KeyState::Released,
    ensures
        button_state_of(positive, any_pressed(negatives), any_held(negatives)) == positive,
{
    if any_pressed(negatives) {
        let i = choose|i: int| 0 <= i < negatives.len() && negatives[i] == KeyState::Pressed;
        assert(negatives[i] == KeyState::NotPressed || negatives[i] == KeyState::Released);
    }
    if any_held(negatives) {
        let i = choose|i: int| 0 <= i < negatives.len() && negatives[i] == KeyState::Held;
        assert(negatives[i] == KeyState::NotPressed || negatives[i] == KeyState::Released);
    }
}

/// A negative key held down keeps a button that is pressed or held by its
/// positive keys from being so: it is `NotPressed`.
pub proof fn law_button_held_negative_key_blocks(positive: KeyState, negatives: Seq<KeyState>, i: int)
    requires
        0 <= i < negatives.len(),
        negatives[i] == KeyState::Held,
        positive.spec_is_down(),
    ensures
        button_state_of(positive, any_pressed(negatives), any_held(negatives)) == KeyState::NotPressed,
{
    assert(negatives.contains(KeyState::Held));
}

/// A negative key pressed in this frame, with no negative key held,
/// releases a button that its positive keys press or hold.
pub proof fn law_button_pressed_negative_key_releases(positive: KeyState, negatives: Seq<KeyState>, i: int)
    requires
        0 <= i < negatives.len(),
        negatives[i] == KeyState::Pressed,
        forall|j: int| 0 <= j < negatives.len() ==> #[trigger] negatives[j] != KeyState::Held,
        positive.spec_is_down(),
    ensures
        button_state_of(positive, any_pressed(negatives), any_held(negatives)) == KeyState::Released,
{
    assert(negatives.contains(KeyState::Pressed));
    if any_held(negatives) {
        let j = choose|j: int| 0 <= j < negatives.len() && negatives[j] == KeyState::Held;
        assert(negatives[j] != KeyState::Held);
    }
}

/// The driver button that stands for each gamepad button, if any: the face
/// buttons, Select, Start and the four directions of the d-pad by their own
/// names; the shoulders by C (right) and Z (left), the bumpers by the first
/// triggers, the triggers by the second triggers, and the sticks by the
/// thumb buttons. `Menu` has none.
pub open spec fn pad_button_for(g: GamepadButton) -> Option<PadButton> {
    match g {
        GamepadButton::Start => Some(PadButton::Start),
        GamepadButton::Menu => None,
        GamepadButton::Select => Some(PadButton::Select),
        GamepadButton::North => Some(PadButton::North),
        GamepadButton::South => Some(PadButton::South),
        GamepadButton::East => Some(PadButton::East),
        GamepadButton::West => Some(PadButton::West),
        GamepadButton::LeftStick => Some(PadButton::LeftThumb),
        GamepadButton::RightStick => Some(PadButton::RightThumb),
        GamepadButton::LeftTrigger => Some(PadButton::LeftTrigger2),
        GamepadButton::RightTrigger => Some(PadButton::RightTrigger2),
        GamepadButton::LeftBumper => Some(PadButton::LeftTrigger),
        GamepadButton::RightBumper => Some(PadButton::RightTrigger),
        GamepadButton::LeftShoulder => Some(PadButton::Z),
        GamepadButton::RightShoulder => Some(PadButton::C),
        GamepadButton::DPadUp => Some(PadButton::DPadUp),
        GamepadButton::DPadDown => Some(PadButton::DPadDown),
        GamepadButton::DPadLeft => Some(PadButton::DPadLeft),
        GamepadButton::DPadRight => Some(PadButton::DPadRight),
    }
}

/// A reported button stands for a gamepad button exactly when that gamepad
/// button's driver button is the reported one: the two go both ways, so no
/// two driver buttons stand for one gamepad button, and the d-pad keeps
/// its directions.
pub proof fn law_pad_buttons_match_gamepad_buttons(b: PadButton, g: GamepadButton)
    ensures
        gamepad_button_of(b) == Some(g) <==> pad_button_for(g) == Some(b),
{
}

/// A driver button pressed in a frame presses the gamepad button it stands
/// for: if that button was not down on that gamepad at the end of the frame
/// before, it is `Pressed` at the end of this one.
pub proof fn law_pad_press_presses_its_gamepad_button(v: InputView, id: u32, g: GamepadButton, b: PadButton)
    requires
        pad_button_for(g) == Some(b),
        !(v.gamepads.contains_key(id) && v.gamepads[id].buttons.current.contains(
            gamepad_button_position(g) as u64,
        )),
    ensures
        gamepad_state(
            input_view_gamepad_frame(v, seq![(id, GamepadEvent::ButtonPressed(b))]),
            id,
            g,
        ) == KeyState::Pressed,
{
    law_pad_buttons_match_gamepad_buttons(b, g);
    let events = seq![(id, GamepadEvent::ButtonPressed(b))];
    let begun = input_view_begin_gamepad_frame(v);
    assert(events.drop_first() =~= Seq::<(u32, GamepadEvent)>::empty());
    assert(accepts_gamepad_events(input_view_after_event(begun, id, GamepadEvent::ButtonPressed(b)), events.drop_first()));
    assert(accepts_gamepad_events(begun, events));
    assert(presses_button(events[0].0, events[0].1, id, g));
    law_gamepad_button_pressed_in_frame(v, events, id, g);
}

/// A key binding reports what it is bound to. A keyboard key, a mouse
/// button or a gamepad button gives the state that `get_key_state`,
/// `get_mouse_state` or `get_gamepad_state` (on the named gamepad, or the
/// last active one) give; an axis event gives `Pressed`, `Held`, `Released`
/// or `NotPressed` as its axis has just passed its threshold, stays past
/// it, has just come back, or stays back.
pub proof fn law_key_binding_reports_its_source(v: InputView, key: Key, activity: AxisActivity)
    ensures
        key matches Key::KeyCode(k) ==> key_state_in(v, key, activity) == press_view_state(
            v.keys,
            key_code_position(k) as u64,
        ),
        key matches Key::MouseButton(b) ==> key_state_in(v, key, activity) == press_view_state(
            v.mouse,
            mouse_button_code(b) as u64,
        ),
        key matches Key::GamepadButton((g, Some(id))) ==> key_state_in(v, key, activity) == gamepad_state(v, id, g),
        key matches Key::GamepadButton((g, None)) ==> key_state_in(v, key, activity) == gamepad_state(
            v,
            v.last_active_gamepad,
            g,
        ),
        key matches Key::AxisEvent(_) ==> key_state_in(v, key, activity) == (if activity.is_active {
            if activity.was_active { KeyState::Held } else { KeyState::Pressed }
        } else {
            if activity.was_active { KeyState::Released } else { KeyState::NotPressed }
        }),
{
}

/// A key binding follows a press of what it is bound to: after a keyboard
/// key or a mouse button is marked as down, a binding to it is `Pressed`,
/// or `Held` if it was down in the frame before.
pub proof fn law_key_binding_follows_a_press(v: InputView, key: Key, activity: AxisActivity)
    ensures
        key matches Key::KeyCode(k) ==> key_state_in(
            InputView { keys: press_view_set_down(v.keys, key_code_position(k) as u64), ..v },
            key,
            activity,
        ) == (if v.keys.previous.contains(key_code_position(k) as u64) {
            KeyState::Held
        } else {
            KeyState::Pressed
        }),
        key matches Key::MouseButton(b) ==> key_state_in(
            InputView { mouse: press_view_set_down(v.mouse, mouse_button_code(b) as u64), ..v },
            key,
            activity,
        ) == (if v.mouse.previous.contains(mouse_button_code(b) as u64) {
            KeyState::Held
        } else {
            KeyState::Pressed
        }),
{
}

} // verus!
