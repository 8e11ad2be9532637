//! Which buttons are down in this frame and in the frame before, and the
//! `KeyState` of a button that follows from the two.
use crate::fx::{fx_map_clear, fx_map_clone, fx_map_get, fx_map_insert, fx_map_new};
use fxhash::FxHashMap;
use vstd::prelude::*;

verus! {

/// The state of a key relative to the previous frame.
///
/// The states are ordered `NotPressed < Pressed < Held < Released`.
#[derive(Debug, Clone, Copy, PartialEq, Eq, Structural, Hash, PartialOrd, Ord)]
pub enum KeyState {
    /// Sent every frame that a key is not pressed, except the first frame
    /// after it is let go, when `Released` is sent instead.
    NotPressed,
    /// Sent the frame that a key is pressed.
    Pressed,
    /// Sent every frame that a key is held down after the frame it was pressed.
    Held,
    /// Sent the frame after a key was let go.
    Released,
}

impl KeyState {
    /// The place of the state in the order `NotPressed < Pressed < Held < Released`.
    pub open spec fn spec_rank(self) -> int {
        match self {
            KeyState::NotPressed => 0,
            KeyState::Pressed => 1,
            KeyState::Held => 2,
            KeyState::Released => 3,
        }
    }

    /// The place of the state in the order `NotPressed < Pressed < Held < Released`.
    pub fn rank(&self) -> (r: u8)
        ensures
            r == self.spec_rank(),
    {
        match self {
            KeyState::NotPressed => 0,
            KeyState::Pressed => 1,
            KeyState::Held => 2,
            KeyState::Released => 3,
        }
    }

    /// Whether the key is down in the current frame.
    pub open spec fn spec_is_down(self) -> bool {
        self == KeyState::Pressed || self == KeyState::Held
    }

    /// Whether the key is down in the current frame (`Pressed` or `Held`).
    pub fn is_down(&self) -> (d: bool)
        ensures
            d == self.spec_is_down(),
    {
        match self {
            KeyState::Pressed | KeyState::Held => true,
            _ => false,
        }
    }
}

/// The state of a button that was down in the previous frame (`last`) and
/// is down in the current one (`current`), or not.
pub open spec fn key_state_of(last: bool, current: bool) -> KeyState {
    if last {
        if current { KeyState::Held } else { KeyState::Released }
    } else {
        if current { KeyState::Pressed } else { KeyState::NotPressed }
    }
}

/// The state of a button from whether it was down in the previous frame
/// and whether it is down in the current one.
pub fn key_state_from(last: bool, current: bool) -> (s: KeyState)
    ensures
        s == key_state_of(last, current),
{
    if last {
        if current {
            KeyState::Held
        } else {
            KeyState::Released
        }
    } else {
        if current {
            KeyState::Pressed
        } else {
            KeyState::NotPressed
        }
    }
}

/// The buttons that a map of flags marks as down.
pub open spec fn down_set(m: Map<u64, bool>) -> Set<u64> {
    Set::new(|k: u64| m.contains_key(k) && m[k])
}

/// What a `PressTracker` holds: the codes of the buttons that were down in
/// the previous frame, and those that are down in the current frame.
pub struct PressView {
    pub previous: Set<u64>,
    pub current: Set<u64>,
}

/// Nothing is down, in either frame.
pub open spec fn press_view_empty() -> PressView {
    PressView { previous: Set::empty(), current: Set::empty() }
}

/// The view after button `code` is marked as down in the current frame.
pub open spec fn press_view_set_down(v: PressView, code: u64) -> PressView {
    PressView { previous: v.previous, current: v.current.insert(code) }
}

/// The view after a frame ends: the current frame becomes the previous one,
/// and nothing is down in the new current frame.
pub open spec fn press_view_advance(v: PressView) -> PressView {
    PressView { previous: v.current, current: Set::empty() }
}

/// The state of button `code` in a view.
pub open spec fn press_view_state(v: PressView, code: u64) -> KeyState {
    key_state_of(v.previous.contains(code), v.current.contains(code))
}

/// Tracks, by code, which buttons were down in the previous frame and which
/// are down in the current one.
pub struct PressTracker {
    last: FxHashMap<u64, bool>,
    current: FxHashMap<u64, bool>,
}

impl View for PressTracker {
    type V = PressView;

    closed spec fn view(&self) -> PressView {
        PressView { previous: down_set(self.last@), current: down_set(self.current@) }
    }
}

impl PressTracker {
    /// A tracker in which nothing is down.
    pub fn new() -> (t: Self)
        ensures
            t@ == press_view_empty(),
    {
        let t = PressTracker { last: fx_map_new(), current: fx_map_new() };
        assert(down_set(t.last@) =~= Set::<u64>::empty());
        assert(down_set(t.current@) =~= Set::<u64>::empty());
        t
    }

    /// Marks button `code` as down in the current frame.
    pub fn set_down(&mut self, code: u64)
        ensures
            final(self)@ == press_view_set_down(old(self)@, code),
    {
        let ghost before = self.current@;
        fx_map_insert(&mut self.current, code, true);
        assert(down_set(self.current@) =~= down_set(before).insert(code));
    }

    /// Ends the frame: what is down now becomes what was down in the
    /// previous frame, and nothing is down in the new frame.
    pub fn advance(&mut self)
        ensures
            final(self)@ == press_view_advance(old(self)@),
    {
        self.last = fx_map_clone(&self.current);
        fx_map_clear(&mut self.current);
        assert(down_set(self.current@) =~= Set::<u64>::empty());
    }

    /// The state of button `code`.
    pub fn state(&self, code: u64) -> (s: KeyState)
        ensures
            s == press_view_state(self@, code),
    {
        let last = match fx_map_get(&self.last, &code) {
            Some(b) => *b,
            None => false,
        };
        let current = match fx_map_get(&self.current, &code) {
            Some(b) => *b,
            None => false,
        };
        key_state_from(last, current)
    }
}

/// The four key states are the four ways a button can be down or up in the
/// previous and the current frame: the state tells both.
pub proof fn law_key_state_tells_both_frames(last1: bool, current1: bool, last2: bool, current2: bool)
    ensures
        key_state_of(last1, current1) == key_state_of(last2, current2) ==> last1 == last2 && current1
            == current2,
{
}

/// Different states have different ranks: the order of the states is strict.
pub proof fn law_rank_tells_state(a: KeyState, b: KeyState)
    ensures
        a.spec_rank() == b.spec_rank() ==> a == b,
        0 <= a.spec_rank() <= 3,
{
}

/// A button marked as down is `Pressed` if it was up in the previous frame
/// and `Held` if it was down; no other button changes state.
pub proof fn law_set_down_state(v: PressView, code: u64, other: u64)
    ensures
        press_view_state(press_view_set_down(v, code), code) == (if v.previous.contains(code) {
            KeyState::Held
        } else {
            KeyState::Pressed
        }),
        other != code ==> press_view_state(press_view_set_down(v, code), other) == press_view_state(
            v,
            other,
        ),
{
}

/// Marking a button as down twice in a frame is marking it once.
pub proof fn law_set_down_idempotent(v: PressView, code: u64)
    ensures
        press_view_set_down(press_view_set_down(v, code), code) == press_view_set_down(v, code),
{
    assert(v.current.insert(code).insert(code) =~= v.current.insert(code));
}

/// When a frame ends, a button that was down in it is `Released`, and any
/// other button is `NotPressed`.
pub proof fn law_advance_state(v: PressView, code: u64)
    ensures
        press_view_state(press_view_advance(v), code) == (if v.current.contains(code) {
            KeyState::Released
        } else {
            KeyState::NotPressed
        }),
{
}

/// On a tracker where nothing happened, a button marked as down is `Pressed`.
pub proof fn law_first_press_is_pressed(code: u64)
    ensures
        press_view_state(press_view_set_down(press_view_empty(), code), code) == KeyState::Pressed,
        press_view_state(press_view_empty(), code) == KeyState::NotPressed,
{
}

/// A button pressed in one frame and not in the next is `Released`.
pub proof fn law_press_then_let_go_is_released(v: PressView, code: u64)
    ensures
        press_view_state(press_view_advance(press_view_set_down(v, code)), code) == KeyState::Released,
{
}

/// A button pressed in one frame and again in the next is `Held`.
pub proof fn law_press_in_two_frames_is_held(v: PressView, code: u64)
    ensures
        press_view_state(
            press_view_set_down(press_view_advance(press_view_set_down(v, code)), code),
            code,
        ) == KeyState::Held,
{
}

/// Two frames that end with a button up leave it `NotPressed`.
pub proof fn law_two_idle_frames_not_pressed(v: PressView, code: u64)
    ensures
        press_view_state(press_view_advance(press_view_advance(v)), code) == KeyState::NotPressed,
{
}

} // verus!
