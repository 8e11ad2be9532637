use vstd::prelude::*;

verus! {

/// Key codes for keyboard keys.
#[derive(Debug, Hash, Ord, PartialOrd, PartialEq, Eq, Clone, Copy)]
pub enum KeyCode {
    /// The '1' key over the letters.
    Key1,
    /// The '2' key over the letters.
    Key2,
    /// The '3' key over the letters.
    Key3,
    /// The '4' key over the letters.
    Key4,
    /// The '5' key over the letters.
    Key5,
    /// The '6' key over the letters.
    Key6,
    /// The '7' key over the letters.
    Key7,
    /// The '8' key over the letters.
    Key8,
    /// The '9' key over the letters.
    Key9,
    /// The '0' key over the 'O' and 'P' keys.
    Key0,

    A,
    B,
    C,
    D,
    E,
    F,
    G,
    H,
    I,
    J,
    K,
    L,
    M,
    N,
    O,
    P,
    Q,
    R,
    S,
    T,
    U,
    V,
    W,
    X,
    Y,
    Z,

    /// The Escape key, next to F1.
    Escape,

    F1,
    F2,
    F3,
    F4,
    F5,
    F6,
    F7,
    F8,
    F9,
    F10,
    F11,
    F12,
    F13,
    F14,
    F15,
    F16,
    F17,
    F18,
    F19,
    F20,
    F21,
    F22,
    F23,
    F24,

    /// Print Screen/SysRq.
    Snapshot,
    /// Scroll Lock.
    Scroll,
    /// Pause/Break key, next to Scroll lock.
    Pause,

    /// `Insert`, next to Backspace.
    Insert,
    Home,
    Delete,
    End,
    PageDown,
    PageUp,

    Left,
    Up,
    Right,
    Down,

    /// The Backspace key, right over Enter.
    Backspace,
    /// The Enter key.
    Return,
    /// The space bar.
    Space,

    Numlock,
    Numpad0,
    Numpad1,
    Numpad2,
    Numpad3,
    Numpad4,
    Numpad5,
    Numpad6,
    Numpad7,
    Numpad8,
    Numpad9,
    NumpadAdd,
    NumpadDivide,
    NumpadDecimal,
    NumpadComma,
    NumpadEnter,
    NumpadEquals,
    NumpadMultiply,
    NumpadSubtract,

    Apostrophe,
    Asterisk,
    Backslash,
    Capital,
    Colon,
    Comma,
    Convert,
    Equals,
    Grave,
    Kana,
    Kanji,
    LAlt,
    LBracket,
    LControl,
    LShift,
    LWin,
    Mail,
    MediaSelect,
    MediaStop,
    Minus,
    Mute,
    MyComputer,
    // also called "Next"
    NavigateForward,
    // also called "Prior"
    NavigateBackward,
    NextTrack,
    NoConvert,
    OEM102,
    Period,
    PlayPause,
    Plus,
    Power,
    PrevTrack,
    RAlt,
    RBracket,
    RControl,
    RShift,
    RWin,
    Semicolon,
    Slash,
    Sleep,
    Stop,
    Sysrq,
    Tab,
    Underline,
    Unlabeled,
    VolumeDown,
    VolumeUp,
    Wake,
    WebBack,
    WebFavorites,
    WebForward,
    WebHome,
    WebRefresh,
    WebSearch,
    WebStop,
    Yen,
    Copy,
    Paste,
    Cut,
}

/// The buttons on a gamepad.
/// (note: if there is something wrong with this list or if something is missing, please let me know.)
#[derive(Debug, Copy, Clone, PartialEq, Eq, Hash, PartialOrd, Ord)]
pub enum GamepadButton {
    Start,
    Menu,
    Select,

    /// The north face button.
    ///
    /// * Nintendo: X
    /// * Playstation: Triangle
    /// * XBox: Y
    North,
    /// The south face button.
    ///
    /// * Nintendo: B
    /// * Playstation: X
    /// * XBox: A
    South,
    /// The east face button.
    ///
    /// * Nintendo: A
    /// * Playstation: Circle
    /// * XBox: B
    East,
    /// The west face button.
    ///
    /// * Nintendo: Y
    /// * Playstation: Square
    /// * XBox: X
    West,

    LeftStick,
    RightStick,

    LeftTrigger,
    RightTrigger,
    LeftBumper,
    RightBumper,

    LeftShoulder,
    RightShoulder,

    DPadUp,
    DPadDown,
    DPadLeft,
    DPadRight,
}

/// The position of a `KeyCode` in the order in which its variants are declared, from 0.
pub open spec fn key_code_position(k: KeyCode) -> int {
    match k {
        KeyCode::Key1 => 0,
        KeyCode::Key2 => 1,
        KeyCode::Key3 => 2,
        KeyCode::Key4 => 3,
        KeyCode::Key5 => 4,
        KeyCode::Key6 => 5,
        KeyCode::Key7 => 6,
        KeyCode::Key8 => 7,
        KeyCode::Key9 => 8,
        KeyCode::Key0 => 9,
        KeyCode::A => 10,
        KeyCode::B => 11,
        KeyCode::C => 12,
        KeyCode::D => 13,
        KeyCode::E => 14,
        KeyCode::F => 15,
        KeyCode::G => 16,
        KeyCode::H => 17,
        KeyCode::I => 18,
        KeyCode::J => 19,
        KeyCode::K => 20,
        KeyCode::L => 21,
        KeyCode::M => 22,
        KeyCode::N => 23,
        KeyCode::O => 24,
        KeyCode::P => 25,
        KeyCode::Q => 26,
        KeyCode::R => 27,
        KeyCode::S => 28,
        KeyCode::T => 29,
        KeyCode::U => 30,
        KeyCode::V => 31,
        KeyCode::W => 32,
        KeyCode::X => 33,
        KeyCode::Y => 34,
        KeyCode::Z => 35,
        KeyCode::Escape => 36,
        KeyCode::F1 => 37,
        KeyCode::F2 => 38,
        KeyCode::F3 => 39,
        KeyCode::F4 => 40,
        KeyCode::F5 => 41,
        KeyCode::F6 => 42,
        KeyCode::F7 => 43,
        KeyCode::F8 => 44,
        KeyCode::F9 => 45,
        KeyCode::F10 => 46,
        KeyCode::F11 => 47,
        KeyCode::F12 => 48,
        KeyCode::F13 => 49,
        KeyCode::F14 => 50,
        KeyCode::F15 => 51,
        KeyCode::F16 => 52,
        KeyCode::F17 => 53,
        KeyCode::F18 => 54,
        KeyCode::F19 => 55,
        KeyCode::F20 => 56,
        KeyCode::F21 => 57,
        KeyCode::F22 => 58,
        KeyCode::F23 => 59,
        KeyCode::F24 => 60,
        KeyCode::Snapshot => 61,
        KeyCode::Scroll => 62,
        KeyCode::Pause => 63,
        KeyCode::Insert => 64,
        KeyCode::Home => 65,
        KeyCode::Delete => 66,
        KeyCode::End => 67,
        KeyCode::PageDown => 68,
        KeyCode::PageUp => 69,
        KeyCode::Left => 70,
        KeyCode::Up => 71,
        KeyCode::Right => 72,
        KeyCode::Down => 73,
        KeyCode::Backspace => 74,
        KeyCode::Return => 75,
        KeyCode::Space => 76,
        KeyCode::Numlock => 77,
        KeyCode::Numpad0 => 78,
        KeyCode::Numpad1 => 79,
        KeyCode::Numpad2 => 80,
        KeyCode::Numpad3 => 81,
        KeyCode::Numpad4 => 82,
        KeyCode::Numpad5 => 83,
        KeyCode::Numpad6 => 84,
        KeyCode::Numpad7 => 85,
        KeyCode::Numpad8 => 86,
        KeyCode::Numpad9 => 87,
        KeyCode::NumpadAdd => 88,
        KeyCode::NumpadDivide => 89,
        KeyCode::NumpadDecimal => 90,
        KeyCode::NumpadComma => 91,
        KeyCode::NumpadEnter => 92,
        KeyCode::NumpadEquals => 93,
        KeyCode::NumpadMultiply => 94,
        KeyCode::NumpadSubtract => 95,
        KeyCode::Apostrophe => 96,
        KeyCode::Asterisk => 97,
        KeyCode::Backslash => 98,
        KeyCode::Capital => 99,
        KeyCode::Colon => 100,
        KeyCode::Comma => 101,
        KeyCode::Convert => 102,
        KeyCode::Equals => 103,
        KeyCode::Grave => 104,
        KeyCode::Kana => 105,
        KeyCode::Kanji => 106,
        KeyCode::LAlt => 107,
        KeyCode::LBracket => 108,
        KeyCode::LControl => 109,
        KeyCode::LShift => 110,
        KeyCode::LWin => 111,
        KeyCode::Mail => 112,
        KeyCode::MediaSelect => 113,
        KeyCode::MediaStop => 114,
        KeyCode::Minus => 115,
        KeyCode::Mute => 116,
        KeyCode::MyComputer => 117,
        KeyCode::NavigateForward => 118,
        KeyCode::NavigateBackward => 119,
        KeyCode::NextTrack => 120,
        KeyCode::NoConvert => 121,
        KeyCode::OEM102 => 122,
        KeyCode::Period => 123,
        KeyCode::PlayPause => 124,
        KeyCode::Plus => 125,
        KeyCode::Power => 126,
        KeyCode::PrevTrack => 127,
        KeyCode::RAlt => 128,
        KeyCode::RBracket => 129,
        KeyCode::RControl => 130,
        KeyCode::RShift => 131,
        KeyCode::RWin => 132,
        KeyCode::Semicolon => 133,
        KeyCode::Slash => 134,
        KeyCode::Sleep => 135,
        KeyCode::Stop => 136,
        KeyCode::Sysrq => 137,
        KeyCode::Tab => 138,
        KeyCode::Underline => 139,
        KeyCode::Unlabeled => 140,
        KeyCode::VolumeDown => 141,
        KeyCode::VolumeUp => 142,
        KeyCode::Wake => 143,
        KeyCode::WebBack => 144,
        KeyCode::WebFavorites => 145,
        KeyCode::WebForward => 146,
        KeyCode::WebHome => 147,
        KeyCode::WebRefresh => 148,
        KeyCode::WebSearch => 149,
        KeyCode::WebStop => 150,
        KeyCode::Yen => 151,
        KeyCode::Copy => 152,
        KeyCode::Paste => 153,
        KeyCode::Cut => 154,
    }
}

/// The `KeyCode` declared at a position, if there is one.
pub open spec fn key_code_position_inverse(i: int) -> Option<KeyCode> {
    if i == 0 {
        Some(KeyCode::Key1)
    } else if i == 1 {
        Some(KeyCode::Key2)
    } else if i == 2 {
        Some(KeyCode::Key3)
    } else if i == 3 {
        Some(KeyCode::Key4)
    } else if i == 4 {
        Some(KeyCode::Key5)
    } else if i == 5 {
        Some(KeyCode::Key6)
    } else if i == 6 {
        Some(KeyCode::Key7)
    } else if i == 7 {
        Some(KeyCode::Key8)
    } else if i == 8 {
        Some(KeyCode::Key9)
    } else if i == 9 {
        Some(KeyCode::Key0)
    } else if i == 10 {
        Some(KeyCode::A)
    } else if i == 11 {
        Some(KeyCode::B)
    } else if i == 12 {
        Some(KeyCode::C)
    } else if i == 13 {
        Some(KeyCode::D)
    } else if i == 14 {
        Some(KeyCode::E)
    } else if i == 15 {
        Some(KeyCode::F)
    } else if i == 16 {
        Some(KeyCode::G)
    } else if i == 17 {
        Some(KeyCode::H)
    } else if i == 18 {
        Some(KeyCode::I)
    } else if i == 19 {
        Some(KeyCode::J)
    } else if i == 20 {
        Some(KeyCode::K)
    } else if i == 21 {
        Some(KeyCode::L)
    } else if i == 22 {
        Some(KeyCode::M)
    } else if i == 23 {
        Some(KeyCode::N)
    } else if i == 24 {
        Some(KeyCode::O)
    } else if i == 25 {
        Some(KeyCode::P)
    } else if i == 26 {
        Some(KeyCode::Q)
    } else if i == 27 {
        Some(KeyCode::R)
    } else if i == 28 {
        Some(KeyCode::S)
    } else if i == 29 {
        Some(KeyCode::T)
    } else if i == 30 {
        Some(KeyCode::U)
    } else if i == 31 {
        Some(KeyCode::V)
    } else if i == 32 {
        Some(KeyCode::W)
    } else if i == 33 {
        Some(KeyCode::X)
    } else if i == 34 {
        Some(KeyCode::Y)
    } else if i == 35 {
        Some(KeyCode::Z)
    } else if i == 36 {
        Some(KeyCode::Escape)
    } else if i == 37 {
        Some(KeyCode::F1)
    } else if i == 38 {
        Some(KeyCode::F2)
    } else if i == 39 {
        Some(KeyCode::F3)
    } else if i == 40 {
        Some(KeyCode::F4)
    } else if i == 41 {
        Some(KeyCode::F5)
    } else if i == 42 {
        Some(KeyCode::F6)
    } else if i == 43 {
        Some(KeyCode::F7)
    } else if i == 44 {
        Some(KeyCode::F8)
    } else if i == 45 {
        Some(KeyCode::F9)
    } else if i == 46 {
        Some(KeyCode::F10)
    } else if i == 47 {
        Some(KeyCode::F11)
    } else if i == 48 {
        Some(KeyCode::F12)
    } else if i == 49 {
        Some(KeyCode::F13)
    } else if i == 50 {
        Some(KeyCode::F14)
    } else if i == 51 {
        Some(KeyCode::F15)
    } else if i == 52 {
        Some(KeyCode::F16)
    } else if i == 53 {
        Some(KeyCode::F17)
    } else if i == 54 {
        Some(KeyCode::F18)
    } else if i == 55 {
        Some(KeyCode::F19)
    } else if i == 56 {
        Some(KeyCode::F20)
    } else if i == 57 {
        Some(KeyCode::F21)
    } else if i == 58 {
        Some(KeyCode::F22)
    } else if i == 59 {
        Some(KeyCode::F23)
    } else if i == 60 {
        Some(KeyCode::F24)
    } else if i == 61 {
        Some(KeyCode::Snapshot)
    } else if i == 62 {
        Some(KeyCode::Scroll)
    } else if i == 63 {
        Some(KeyCode::Pause)
    } else if i == 64 {
        Some(KeyCode::Insert)
    } else if i == 65 {
        Some(KeyCode::Home)
    } else if i == 66 {
        Some(KeyCode::Delete)
    } else if i == 67 {
        Some(KeyCode::End)
    } else if i == 68 {
        Some(KeyCode::PageDown)
    } else if i == 69 {
        Some(KeyCode::PageUp)
    } else if i == 70 {
        Some(KeyCode::Left)
    } else if i == 71 {
        Some(KeyCode::Up)
    } else if i == 72 {
        Some(KeyCode::Right)
    } else if i == 73 {
        Some(KeyCode::Down)
    } else if i == 74 {
        Some(KeyCode::Backspace)
    } else if i == 75 {
        Some(KeyCode::Return)
    } else if i == 76 {
        Some(KeyCode::Space)
    } else if i == 77 {
        Some(KeyCode::Numlock)
    } else if i == 78 {
        Some(KeyCode::Numpad0)
    } else if i == 79 {
        Some(KeyCode::Numpad1)
    } else if i == 80 {
        Some(KeyCode::Numpad2)
    } else if i == 81 {
        Some(KeyCode::Numpad3)
    } else if i == 82 {
        Some(KeyCode::Numpad4)
    } else if i == 83 {
        Some(KeyCode::Numpad5)
    } else if i == 84 {
        Some(KeyCode::Numpad6)
    } else if i == 85 {
        Some(KeyCode::Numpad7)
    } else if i == 86 {
        Some(KeyCode::Numpad8)
    } else if i == 87 {
        Some(KeyCode::Numpad9)
    } else if i == 88 {
        Some(KeyCode::NumpadAdd)
    } else if i == 89 {
        Some(KeyCode::NumpadDivide)
    } else if i == 90 {
        Some(KeyCode::NumpadDecimal)
    } else if i == 91 {
        Some(KeyCode::NumpadComma)
    } else if i == 92 {
        Some(KeyCode::NumpadEnter)
    } else if i == 93 {
        Some(KeyCode::NumpadEquals)
    } else if i == 94 {
        Some(KeyCode::NumpadMultiply)
    } else if i == 95 {
        Some(KeyCode::NumpadSubtract)
    } else if i == 96 {
        Some(KeyCode::Apostrophe)
    } else if i == 97 {
        Some(KeyCode::Asterisk)
    } else if i == 98 {
        Some(KeyCode::Backslash)
    } else if i == 99 {
        Some(KeyCode::Capital)
    } else if i == 100 {
        Some(KeyCode::Colon)
    } else if i == 101 {
        Some(KeyCode::Comma)
    } else if i == 102 {
        Some(KeyCode::Convert)
    } else if i == 103 {
        Some(KeyCode::Equals)
    } else if i == 104 {
        Some(KeyCode::Grave)
    } else if i == 105 {
        Some(KeyCode::Kana)
    } else if i == 106 {
        Some(KeyCode::Kanji)
    } else if i == 107 {
        Some(KeyCode::LAlt)
    } else if i == 108 {
        Some(KeyCode::LBracket)
    } else if i == 109 {
        Some(KeyCode::LControl)
    } else if i == 110 {
        Some(KeyCode::LShift)
    } else if i == 111 {
        Some(KeyCode::LWin)
    } else if i == 112 {
        Some(KeyCode::Mail)
    } else if i == 113 {
        Some(KeyCode::MediaSelect)
    } else if i == 114 {
        Some(KeyCode::MediaStop)
    } else if i == 115 {
        Some(KeyCode::Minus)
    } else if i == 116 {
        Some(KeyCode::Mute)
    } else if i == 117 {
        Some(KeyCode::MyComputer)
    } else if i == 118 {
        Some(KeyCode::NavigateForward)
    } else if i == 119 {
        Some(KeyCode::NavigateBackward)
    } else if i == 120 {
        Some(KeyCode::NextTrack)
    } else if i == 121 {
        Some(KeyCode::NoConvert)
    } else if i == 122 {
        Some(KeyCode::OEM102)
    } else if i == 123 {
        Some(KeyCode::Period)
    } else if i == 124 {
        Some(KeyCode::PlayPause)
    } else if i == 125 {
        Some(KeyCode::Plus)
    } else if i == 126 {
        Some(KeyCode::Power)
    } else if i == 127 {
        Some(KeyCode::PrevTrack)
    } else if i == 128 {
        Some(KeyCode::RAlt)
    } else if i == 129 {
        Some(KeyCode::RBracket)
    } else if i == 130 {
        Some(KeyCode::RControl)
    } else if i == 131 {
        Some(KeyCode::RShift)
    } else if i == 132 {
        Some(KeyCode::RWin)
    } else if i == 133 {
        Some(KeyCode::Semicolon)
    } else if i == 134 {
        Some(KeyCode::Slash)
    } else if i == 135 {
        Some(KeyCode::Sleep)
    } else if i == 136 {
        Some(KeyCode::Stop)
    } else if i == 137 {
        Some(KeyCode::Sysrq)
    } else if i == 138 {
        Some(KeyCode::Tab)
    } else if i == 139 {
        Some(KeyCode::Underline)
    } else if i == 140 {
        Some(KeyCode::Unlabeled)
    } else if i == 141 {
        Some(KeyCode::VolumeDown)
    } else if i == 142 {
        Some(KeyCode::VolumeUp)
    } else if i == 143 {
        Some(KeyCode::Wake)
    } else if i == 144 {
        Some(KeyCode::WebBack)
    } else if i == 145 {
        Some(KeyCode::WebFavorites)
    } else if i == 146 {
        Some(KeyCode::WebForward)
    } else if i == 147 {
        Some(KeyCode::WebHome)
    } else if i == 148 {
        Some(KeyCode::WebRefresh)
    } else if i == 149 {
        Some(KeyCode::WebSearch)
    } else if i == 150 {
        Some(KeyCode::WebStop)
    } else if i == 151 {
        Some(KeyCode::Yen)
    } else if i == 152 {
        Some(KeyCode::Copy)
    } else if i == 153 {
        Some(KeyCode::Paste)
    } else if i == 154 {
        Some(KeyCode::Cut)
    } else {
        None
    }
}

/// The position of a `GamepadButton` in the order in which its variants are declared, from 0.
pub open spec fn gamepad_button_position(k: GamepadButton) -> int {
    match k {
        GamepadButton::Start => 0,
        GamepadButton::Menu => 1,
        GamepadButton::Select => 2,
        GamepadButton::North => 3,
        GamepadButton::South => 4,
        GamepadButton::East => 5,
        GamepadButton::West => 6,
        GamepadButton::LeftStick => 7,
        GamepadButton::RightStick => 8,
        GamepadButton::LeftTrigger => 9,
        GamepadButton::RightTrigger => 10,
        GamepadButton::LeftBumper => 11,
        GamepadButton::RightBumper => 12,
        GamepadButton::LeftShoulder => 13,
        GamepadButton::RightShoulder => 14,
        GamepadButton::DPadUp => 15,
        GamepadButton::DPadDown => 16,
        GamepadButton::DPadLeft => 17,
        GamepadButton::DPadRight => 18,
    }
}

/// The `GamepadButton` declared at a position, if there is one.
pub open spec fn gamepad_button_position_inverse(i: int) -> Option<GamepadButton> {
    if i == 0 {
        Some(GamepadButton::Start)
    } else if i == 1 {
        Some(GamepadButton::Menu)
    } else if i == 2 {
        Some(GamepadButton::Select)
    } else if i == 3 {
        Some(GamepadButton::North)
    } else if i == 4 {
        Some(GamepadButton::South)
    } else if i == 5 {
        Some(GamepadButton::East)
    } else if i == 6 {
        Some(GamepadButton::West)
    } else if i == 7 {
        Some(GamepadButton::LeftStick)
    } else if i == 8 {
        Some(GamepadButton::RightStick)
    } else if i == 9 {
        Some(GamepadButton::LeftTrigger)
    } else if i == 10 {
        Some(GamepadButton::RightTrigger)
    } else if i == 11 {
        Some(GamepadButton::LeftBumper)
    } else if i == 12 {
        Some(GamepadButton::RightBumper)
    } else if i == 13 {
        Some(GamepadButton::LeftShoulder)
    } else if i == 14 {
        Some(GamepadButton::RightShoulder)
    } else if i == 15 {
        Some(GamepadButton::DPadUp)
    } else if i == 16 {
        Some(GamepadButton::DPadDown)
    } else if i == 17 {
        Some(GamepadButton::DPadLeft)
    } else if i == 18 {
        Some(GamepadButton::DPadRight)
    } else {
        None
    }
}

impl KeyCode {
    /// The position of this variant in the order of declaration, from 0.
    pub fn position(&self) -> (p: u16)
        ensures
            p == key_code_position(*self),
    {
        match self {
            KeyCode::Key1 => 0,
            KeyCode::Key2 => 1,
            KeyCode::Key3 => 2,
            KeyCode::Key4 => 3,
            KeyCode::Key5 => 4,
            KeyCode::Key6 => 5,
            KeyCode::Key7 => 6,
            KeyCode::Key8 => 7,
            KeyCode::Key9 => 8,
            KeyCode::Key0 => 9,
            KeyCode::A => 10,
            KeyCode::B => 11,
            KeyCode::C => 12,
            KeyCode::D => 13,
            KeyCode::E => 14,
            KeyCode::F => 15,
            KeyCode::G => 16,
            KeyCode::H => 17,
            KeyCode::I => 18,
            KeyCode::J => 19,
            KeyCode::K => 20,
            KeyCode::L => 21,
            KeyCode::M => 22,
            KeyCode::N => 23,
            KeyCode::O => 24,
            KeyCode::P => 25,
            KeyCode::Q => 26,
            KeyCode::R => 27,
            KeyCode::S => 28,
            KeyCode::T => 29,
            KeyCode::U => 30,
            KeyCode::V => 31,
            KeyCode::W => 32,
            KeyCode::X => 33,
            KeyCode::Y => 34,
            KeyCode::Z => 35,
            KeyCode::Escape => 36,
            KeyCode::F1 => 37,
            KeyCode::F2 => 38,
            KeyCode::F3 => 39,
            KeyCode::F4 => 40,
            KeyCode::F5 => 41,
            KeyCode::F6 => 42,
            KeyCode::F7 => 43,
            KeyCode::F8 => 44,
            KeyCode::F9 => 45,
            KeyCode::F10 => 46,
            KeyCode::F11 => 47,
            KeyCode::F12 => 48,
            KeyCode::F13 => 49,
            KeyCode::F14 => 50,
            KeyCode::F15 => 51,
            KeyCode::F16 => 52,
            KeyCode::F17 => 53,
            KeyCode::F18 => 54,
            KeyCode::F19 => 55,
            KeyCode::F20 => 56,
            KeyCode::F21 => 57,
            KeyCode::F22 => 58,
            KeyCode::F23 => 59,
            KeyCode::F24 => 60,
            KeyCode::Snapshot => 61,
            KeyCode::Scroll => 62,
            KeyCode::Pause => 63,
            KeyCode::Insert => 64,
            KeyCode::Home => 65,
            KeyCode::Delete => 66,
            KeyCode::End => 67,
            KeyCode::PageDown => 68,
            KeyCode::PageUp => 69,
            KeyCode::Left => 70,
            KeyCode::Up => 71,
            KeyCode::Right => 72,
            KeyCode::Down => 73,
            KeyCode::Backspace => 74,
            KeyCode::Return => 75,
            KeyCode::Space => 76,
            KeyCode::Numlock => 77,
            KeyCode::Numpad0 => 78,
            KeyCode::Numpad1 => 79,
            KeyCode::Numpad2 => 80,
            KeyCode::Numpad3 => 81,
            KeyCode::Numpad4 => 82,
            KeyCode::Numpad5 => 83,
            KeyCode::Numpad6 => 84,
            KeyCode::Numpad7 => 85,
            KeyCode::Numpad8 => 86,
            KeyCode::Numpad9 => 87,
            KeyCode::NumpadAdd => 88,
            KeyCode::NumpadDivide => 89,
            KeyCode::NumpadDecimal => 90,
            KeyCode::NumpadComma => 91,
            KeyCode::NumpadEnter => 92,
            KeyCode::NumpadEquals => 93,
            KeyCode::NumpadMultiply => 94,
            KeyCode::NumpadSubtract => 95,
            KeyCode::Apostrophe => 96,
            KeyCode::Asterisk => 97,
            KeyCode::Backslash => 98,
            KeyCode::Capital => 99,
            KeyCode::Colon => 100,
            KeyCode::Comma => 101,
            KeyCode::Convert => 102,
            KeyCode::Equals => 103,
            KeyCode::Grave => 104,
            KeyCode::Kana => 105,
            KeyCode::Kanji => 106,
            KeyCode::LAlt => 107,
            KeyCode::LBracket => 108,
            KeyCode::LControl => 109,
            KeyCode::LShift => 110,
            KeyCode::LWin => 111,
            KeyCode::Mail => 112,
            KeyCode::MediaSelect => 113,
            KeyCode::MediaStop => 114,
            KeyCode::Minus => 115,
            KeyCode::Mute => 116,
            KeyCode::MyComputer => 117,
            KeyCode::NavigateForward => 118,
            KeyCode::NavigateBackward => 119,
            KeyCode::NextTrack => 120,
            KeyCode::NoConvert => 121,
            KeyCode::OEM102 => 122,
            KeyCode::Period => 123,
            KeyCode::PlayPause => 124,
            KeyCode::Plus => 125,
            KeyCode::Power => 126,
            KeyCode::PrevTrack => 127,
            KeyCode::RAlt => 128,
            KeyCode::RBracket => 129,
            KeyCode::RControl => 130,
            KeyCode::RShift => 131,
            KeyCode::RWin => 132,
            KeyCode::Semicolon => 133,
            KeyCode::Slash => 134,
            KeyCode::Sleep => 135,
            KeyCode::Stop => 136,
            KeyCode::Sysrq => 137,
            KeyCode::Tab => 138,
            KeyCode::Underline => 139,
            KeyCode::Unlabeled => 140,
            KeyCode::VolumeDown => 141,
            KeyCode::VolumeUp => 142,
            KeyCode::Wake => 143,
            KeyCode::WebBack => 144,
            KeyCode::WebFavorites => 145,
            KeyCode::WebForward => 146,
            KeyCode::WebHome => 147,
            KeyCode::WebRefresh => 148,
            KeyCode::WebSearch => 149,
            KeyCode::WebStop => 150,
            KeyCode::Yen => 151,
            KeyCode::Copy => 152,
            KeyCode::Paste => 153,
            KeyCode::Cut => 154,
        }
    }
}

impl GamepadButton {
    /// The position of this variant in the order of declaration, from 0.
    pub fn position(&self) -> (p: u16)
        ensures
            p == gamepad_button_position(*self),
    {
        match self {
            GamepadButton::Start => 0,
            GamepadButton::Menu => 1,
            GamepadButton::Select => 2,
            GamepadButton::North => 3,
            GamepadButton::South => 4,
            GamepadButton::East => 5,
            GamepadButton::West => 6,
            GamepadButton::LeftStick => 7,
            GamepadButton::RightStick => 8,
            GamepadButton::LeftTrigger => 9,
            GamepadButton::RightTrigger => 10,
            GamepadButton::LeftBumper => 11,
            GamepadButton::RightBumper => 12,
            GamepadButton::LeftShoulder => 13,
            GamepadButton::RightShoulder => 14,
            GamepadButton::DPadUp => 15,
            GamepadButton::DPadDown => 16,
            GamepadButton::DPadLeft => 17,
            GamepadButton::DPadRight => 18,
        }
    }
}

/// Each key code has its own position: the position determines the key.
pub proof fn lemma_key_code_position_determines_key(k: KeyCode)
    ensures
        0 <= key_code_position(k) < 155,
        key_code_position_inverse(key_code_position(k)) == Some(k),
{
}

/// Each gamepad button has its own position: the position determines the button.
pub proof fn lemma_gamepad_button_position_determines_button(b: GamepadButton)
    ensures
        0 <= gamepad_button_position(b) < 19,
        gamepad_button_position_inverse(gamepad_button_position(b)) == Some(b),
{
}

} // verus!
