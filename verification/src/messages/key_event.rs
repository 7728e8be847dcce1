//! The keyboard-symbol registry and the key input event.
use vstd::prelude::*;

use crate::error::Error;
use crate::io::read_u32_be;
use crate::io::spec_u32_be;
use crate::io::spec_u32_from_be;
use crate::io::write_u32_be;
use crate::io::write_u8;
use crate::io::Decode;
use crate::io::Encode;
use crate::io::Length;

verus! {

/// A key press or release, as sent by the client.
#[derive(Clone, Copy, Debug, PartialEq, Eq, Structural)]
pub struct KeyEvent {
    pub down: bool,
    pub key: u32,
}

impl Length for KeyEvent {
    open spec fn spec_len() -> int {
        8
    }

    fn length() -> usize {
        8
    }
}

impl Encode for KeyEvent {
    /// The 8-byte layout: the tag, the down flag, two zero padding
    /// bytes, then the key symbol big-endian.
    open spec fn spec_enc(&self) -> Seq<u8> {
        seq![
            4u8,
            if self.down {
                1u8
            } else {
                0u8
            },
            0u8,
            0u8,
        ] + spec_u32_be(self.key)
    }

    fn encode(&self) -> Vec<u8> {
        let mut out: Vec<u8> = Vec::new();
        write_u8(&mut out, 4);
        write_u8(&mut out, if self.down { 1 } else { 0 });
        write_u8(&mut out, 0);
        write_u8(&mut out, 0);
        write_u32_be(&mut out, self.key);
        proof {
            assert(out@ =~= self.spec_enc());
        }
        out
    }
}

impl Decode for KeyEvent {
    /// The tag and padding bytes are ignored on decode.
    open spec fn spec_dec(s: Seq<u8>) -> Result<KeyEvent, Error> {
        if s.len() < 8 {
            Err(Error::IoFailure)
        } else {
            Ok(KeyEvent { down: s[1] != 0, key: spec_u32_from_be(s.subrange(4, 8)) })
        }
    }

    fn decode(bytes: &[u8], pos: usize) -> (r: Result<(KeyEvent, usize), Error>) {
        if bytes.len() - pos < 8 {
            return Err(Error::IoFailure);
        }
        let down = bytes[pos + 1] != 0;
        let key = match read_u32_be(bytes, pos + 4) {
            Ok(p) => p.0,
            Err(_) => { return Err(Error::IoFailure) },
        };
        proof {
            let s = bytes@.skip(pos as int);
            assert(s.len() == bytes@.len() - pos);
            assert(s[1] == bytes@[pos + 1]);
            assert(s.subrange(4, 8) =~= bytes@.subrange(pos + 4, pos + 8));
        }
        Ok((KeyEvent { down, key }, pos + 8))
    }
}

/// Decoding the 8-byte wire form of any key event gives it back.
pub proof fn lemma_key_event_round_trip(x: KeyEvent)
    ensures
        KeyEvent::spec_dec(x.spec_enc()) == Ok::<KeyEvent, Error>(x),
{
    assert(x.spec_enc().subrange(4, 8) =~= spec_u32_be(x.key));
    crate::io::lemma_u32_be_round(x.key);
}

/// A named keyboard symbol. Codes outside the table map to the
/// sentinel `VoidSymbol` rather than erring, so that input from an
/// unrecognized layout never aborts a session.
#[derive(Clone, Copy, Debug, PartialEq, Eq, Structural, Default)]
pub enum Key {
    #[default]
    VoidSymbol,
    Space,
    BackSpace,
    Tab,
    Linefeed,
    Clear,
    Return,
    Pause,
    ScrollLock,
    SysReq,
    Escape,
    Delete,
    Print,
    DeadGrave,
    DeadAcute,
    DeadCircumflex,
    FeadTilde,
    DeadDiaeresis,
    Home,
    Left,
    Up,
    Right,
    Down,
    PageUp,
    PageDown,
    End,
    Begin,
    Select,
    Execute,
    Insert,
    Cancel,
    Help,
    Break,
    NumLock,
    KeypadSpace,
    KeypadTab,
    KeypadEnter,
    KeypadHome,
    KeypadLeft,
    KeypadUp,
    KeypadRight,
    KeypadDown,
    KeypadPrior,
    KeypadNext,
    KeypadEnd,
    KeypadBegin,
    KeypadInsert,
    KeypadDelete,
    KeypadEqual,
    KeypadMultiply,
    KeypadAdd,
    KeypadSeparator,
    KeypadSubtract,
    KeypadDecimal,
    KeypadDivide,
    Keypad0,
    Keypad1,
    Keypad2,
    Keypad3,
    Keypad4,
    Keypad5,
    Keypad6,
    Keypad7,
    Keypad8,
    Keypad9,
    F1,
    F2,
    F3,
    F4,
    F5,
    F6,
    F7,
    F8,
    F9,
    F10,
    F11,
    F12,
    F13,
    F14,
    F15,
    F16,
    F17,
    F18,
    F19,
    F20,
    F21,
    F22,
    F23,
    F24,
    ShiftL,
    ShiftR,
    ControlL,
    ControlR,
    CapsLock,
    ShiftLock,
    MetaL,
    MetaR,
    AltL,
    AltR,
}

impl Key {
    /// The symbol a 32-bit code names; unknown codes name the void key.
    pub open spec fn spec_of_code(c: u32) -> Key {
        if c == 0x020u32 {
            Key::Space
        } else if c == 0xFF08u32 {
            Key::BackSpace
        } else if c == 0xFF09u32 {
            Key::Tab
        } else if c == 0xFF0Au32 {
            Key::Linefeed
        } else if c == 0xFF0Bu32 {
            Key::Clear
        } else if c == 0xFF0Du32 {
            Key::Return
        } else if c == 0xFF13u32 {
            Key::Pause
        } else if c == 0xFF14u32 {
            Key::ScrollLock
        } else if c == 0xFF15u32 {
            Key::SysReq
        } else if c == 0xFF1Bu32 {
            Key::Escape
        } else if c == 0xFFFFu32 {
            Key::Delete
        } else if c == 0xFF61u32 {
            Key::Print
        } else if c == 0xFE50u32 {
            Key::DeadGrave
        } else if c == 0xFE51u32 {
            Key::DeadAcute
        } else if c == 0xFE52u32 {
            Key::DeadCircumflex
        } else if c == 0xFE53u32 {
            Key::FeadTilde
        } else if c == 0xFE57u32 {
            Key::DeadDiaeresis
        } else if c == 0xFF50u32 {
            Key::Home
        } else if c == 0xFF51u32 {
            Key::Left
        } else if c == 0xFF52u32 {
            Key::Up
        } else if c == 0xFF53u32 {
            Key::Right
        } else if c == 0xFF54u32 {
            Key::Down
        } else if c == 0xFF55u32 {
            Key::PageUp
        } else if c == 0xFF56u32 {
            Key::PageDown
        } else if c == 0xFF57u32 {
            Key::End
        } else if c == 0xFF58u32 {
            Key::Begin
        } else if c == 0xFF60u32 {
            Key::Select
        } else if c == 0xFF62u32 {
            Key::Execute
        } else if c == 0xFF63u32 {
            Key::Insert
        } else if c == 0xFF69u32 {
            Key::Cancel
        } else if c == 0xFF6Au32 {
            Key::Help
        } else if c == 0xFF6Bu32 {
            Key::Break
        } else if c == 0xFF7Fu32 {
            Key::NumLock
        } else if c == 0xFF80u32 {
            Key::KeypadSpace
        } else if c == 0xFF89u32 {
            Key::KeypadTab
        } else if c == 0xFF8Du32 {
            Key::KeypadEnter
        } else if c == 0xFF95u32 {
            Key::KeypadHome
        } else if c == 0xFF96u32 {
            Key::KeypadLeft
        } else if c == 0xFF97u32 {
            Key::KeypadUp
        } else if c == 0xFF98u32 {
            Key::KeypadRight
        } else if c == 0xFF99u32 {
            Key::KeypadDown
        } else if c == 0xFF9Au32 {
            Key::KeypadPrior
        } else if c == 0xFF9Bu32 {
            Key::KeypadNext
        } else if c == 0xFF9Cu32 {
            Key::KeypadEnd
        } else if c == 0xFF9Du32 {
            Key::KeypadBegin
        } else if c == 0xFF9Eu32 {
            Key::KeypadInsert
        } else if c == 0xFF9Fu32 {
            Key::KeypadDelete
        } else if c == 0xFFBDu32 {
            Key::KeypadEqual
        } else if c == 0xFFAAu32 {
            Key::KeypadMultiply
        } else if c == 0xFFABu32 {
            Key::KeypadAdd
        } else if c == 0xFFACu32 {
            Key::KeypadSeparator
        } else if c == 0xFFADu32 {
            Key::KeypadSubtract
        } else if c == 0xFFAEu32 {
            Key::KeypadDecimal
        } else if c == 0xFFAFu32 {
            Key::KeypadDivide
        } else if c == 0xFFB0u32 {
            Key::Keypad0
        } else if c == 0xFFB1u32 {
            Key::Keypad1
        } else if c == 0xFFB2u32 {
            Key::Keypad2
        } else if c == 0xFFB3u32 {
            Key::Keypad3
        } else if c == 0xFFB4u32 {
            Key::Keypad4
        } else if c == 0xFFB5u32 {
            Key::Keypad5
        } else if c == 0xFFB6u32 {
            Key::Keypad6
        } else if c == 0xFFB7u32 {
            Key::Keypad7
        } else if c == 0xFFB8u32 {
            Key::Keypad8
        } else if c == 0xFFB9u32 {
            Key::Keypad9
        } else if c == 0xFFBEu32 {
            Key::F1
        } else if c == 0xFFBFu32 {
            Key::F2
        } else if c == 0xFFC0u32 {
            Key::F3
        } else if c == 0xFFC1u32 {
            Key::F4
        } else if c == 0xFFC2u32 {
            Key::F5
        } else if c == 0xFFC3u32 {
            Key::F6
        } else if c == 0xFFC4u32 {
            Key::F7
        } else if c == 0xFFC5u32 {
            Key::F8
        } else if c == 0xFFC6u32 {
            Key::F9
        } else if c == 0xFFC7u32 {
            Key::F10
        } else if c == 0xFFC8u32 {
            Key::F11
        } else if c == 0xFFC9u32 {
            Key::F12
        } else if c == 0xFFCAu32 {
            Key::F13
        } else if c == 0xFFCBu32 {
            Key::F14
        } else if c == 0xFFCCu32 {
            Key::F15
        } else if c == 0xFFCDu32 {
            Key::F16
        } else if c == 0xFFCEu32 {
            Key::F17
        } else if c == 0xFFCFu32 {
            Key::F18
        } else if c == 0xFFD0u32 {
            Key::F19
        } else if c == 0xFFD1u32 {
            Key::F20
        } else if c == 0xFFD2u32 {
            Key::F21
        } else if c == 0xFFD3u32 {
            Key::F22
        } else if c == 0xFFD4u32 {
            Key::F23
        } else if c == 0xFFD5u32 {
            Key::F24
        } else if c == 0xFFE1u32 {
            Key::ShiftL
        } else if c == 0xFFE2u32 {
            Key::ShiftR
        } else if c == 0xFFE3u32 {
            Key::ControlL
        } else if c == 0xFFE4u32 {
            Key::ControlR
        } else if c == 0xFFE5u32 {
            Key::CapsLock
        } else if c == 0xFFE6u32 {
            Key::ShiftLock
        } else if c == 0xFFE7u32 {
            Key::MetaL
        } else if c == 0xFFE8u32 {
            Key::MetaR
        } else if c == 0xFFE9u32 {
            Key::AltL
        } else if c == 0xFFEAu32 {
            Key::AltR
        } else {
            Key::VoidSymbol
        }
    }

    /// The 32-bit code of a symbol.
    pub open spec fn spec_code(self) -> u32 {
        match self {
            Key::VoidSymbol => 0xFFFFFF,
            Key::Space => 0x020,
            Key::BackSpace => 0xFF08,
            Key::Tab => 0xFF09,
            Key::Linefeed => 0xFF0A,
            Key::Clear => 0xFF0B,
            Key::Return => 0xFF0D,
            Key::Pause => 0xFF13,
            Key::ScrollLock => 0xFF14,
            Key::SysReq => 0xFF15,
            Key::Escape => 0xFF1B,
            Key::Delete => 0xFFFF,
            Key::Print => 0xFF61,
            Key::DeadGrave => 0xFE50,
            Key::DeadAcute => 0xFE51,
            Key::DeadCircumflex => 0xFE52,
            Key::FeadTilde => 0xFE53,
            Key::DeadDiaeresis => 0xFE57,
            Key::Home => 0xFF50,
            Key::Left => 0xFF51,
            Key::Up => 0xFF52,
            Key::Right => 0xFF53,
            Key::Down => 0xFF54,
            Key::PageUp => 0xFF55,
            Key::PageDown => 0xFF56,
            Key::End => 0xFF57,
            Key::Begin => 0xFF58,
            Key::Select => 0xFF60,
            Key::Execute => 0xFF62,
            Key::Insert => 0xFF63,
            Key::Cancel => 0xFF69,
            Key::Help => 0xFF6A,
            Key::Break => 0xFF6B,
            Key::NumLock => 0xFF7F,
            Key::KeypadSpace => 0xFF80,
            Key::KeypadTab => 0xFF89,
            Key::KeypadEnter => 0xFF8D,
            Key::KeypadHome => 0xFF95,
            Key::KeypadLeft => 0xFF96,
            Key::KeypadUp => 0xFF97,
            Key::KeypadRight => 0xFF98,
            Key::KeypadDown => 0xFF99,
            Key::KeypadPrior => 0xFF9A,
            Key::KeypadNext => 0xFF9B,
            Key::KeypadEnd => 0xFF9C,
            Key::KeypadBegin => 0xFF9D,
            Key::KeypadInsert => 0xFF9E,
            Key::KeypadDelete => 0xFF9F,
            Key::KeypadEqual => 0xFFBD,
            Key::KeypadMultiply => 0xFFAA,
            Key::KeypadAdd => 0xFFAB,
            Key::KeypadSeparator => 0xFFAC,
            Key::KeypadSubtract => 0xFFAD,
            Key::KeypadDecimal => 0xFFAE,
            Key::KeypadDivide => 0xFFAF,
            Key::Keypad0 => 0xFFB0,
            Key::Keypad1 => 0xFFB1,
            Key::Keypad2 => 0xFFB2,
            Key::Keypad3 => 0xFFB3,
            Key::Keypad4 => 0xFFB4,
            Key::Keypad5 => 0xFFB5,
            Key::Keypad6 => 0xFFB6,
            Key::Keypad7 => 0xFFB7,
            Key::Keypad8 => 0xFFB8,
            Key::Keypad9 => 0xFFB9,
            Key::F1 => 0xFFBE,
            Key::F2 => 0xFFBF,
            Key::F3 => 0xFFC0,
            Key::F4 => 0xFFC1,
            Key::F5 => 0xFFC2,
            Key::F6 => 0xFFC3,
            Key::F7 => 0xFFC4,
            Key::F8 => 0xFFC5,
            Key::F9 => 0xFFC6,
            Key::F10 => 0xFFC7,
            Key::F11 => 0xFFC8,
            Key::F12 => 0xFFC9,
            Key::F13 => 0xFFCA,
            Key::F14 => 0xFFCB,
            Key::F15 => 0xFFCC,
            Key::F16 => 0xFFCD,
            Key::F17 => 0xFFCE,
            Key::F18 => 0xFFCF,
            Key::F19 => 0xFFD0,
            Key::F20 => 0xFFD1,
            Key::F21 => 0xFFD2,
            Key::F22 => 0xFFD3,
            Key::F23 => 0xFFD4,
            Key::F24 => 0xFFD5,
            Key::ShiftL => 0xFFE1,
            Key::ShiftR => 0xFFE2,
            Key::ControlL => 0xFFE3,
            Key::ControlR => 0xFFE4,
            Key::CapsLock => 0xFFE5,
            Key::ShiftLock => 0xFFE6,
            Key::MetaL => 0xFFE7,
            Key::MetaR => 0xFFE8,
            Key::AltL => 0xFFE9,
            Key::AltR => 0xFFEA,
        }
    }

    /// Look a 32-bit code up in the key registry.
    pub fn from_code(c: u32) -> (r: Key)
        ensures
            r == Self::spec_of_code(c),
    {
        if c == 0x020u32 {
            Key::Space
        } else if c == 0xFF08u32 {
            Key::BackSpace
        } else if c == 0xFF09u32 {
            Key::Tab
        } else if c == 0xFF0Au32 {
            Key::Linefeed
        } else if c == 0xFF0Bu32 {
            Key::Clear
        } else if c == 0xFF0Du32 {
            Key::Return
        } else if c == 0xFF13u32 {
            Key::Pause
        } else if c == 0xFF14u32 {
            Key::ScrollLock
        } else if c == 0xFF15u32 {
            Key::SysReq
        } else if c == 0xFF1Bu32 {
            Key::Escape
        } else if c == 0xFFFFu32 {
            Key::Delete
        } else if c == 0xFF61u32 {
            Key::Print
        } else if c == 0xFE50u32 {
            Key::DeadGrave
        } else if c == 0xFE51u32 {
            Key::DeadAcute
        } else if c == 0xFE52u32 {
            Key::DeadCircumflex
        } else if c == 0xFE53u32 {
            Key::FeadTilde
        } else if c == 0xFE57u32 {
            Key::DeadDiaeresis
        } else if c == 0xFF50u32 {
            Key::Home
        } else if c == 0xFF51u32 {
            Key::Left
        } else if c == 0xFF52u32 {
            Key::Up
        } else if c == 0xFF53u32 {
            Key::Right
        } else if c == 0xFF54u32 {
            Key::Down
        } else if c == 0xFF55u32 {
            Key::PageUp
        } else if c == 0xFF56u32 {
            Key::PageDown
        } else if c == 0xFF57u32 {
            Key::End
        } else if c == 0xFF58u32 {
            Key::Begin
        } else if c == 0xFF60u32 {
            Key::Select
        } else if c == 0xFF62u32 {
            Key::Execute
        } else if c == 0xFF63u32 {
            Key::Insert
        } else if c == 0xFF69u32 {
            Key::Cancel
        } else if c == 0xFF6Au32 {
            Key::Help
        } else if c == 0xFF6Bu32 {
            Key::Break
        } else if c == 0xFF7Fu32 {
            Key::NumLock
        } else if c == 0xFF80u32 {
            Key::KeypadSpace
        } else if c == 0xFF89u32 {
            Key::KeypadTab
        } else if c == 0xFF8Du32 {
            Key::KeypadEnter
        } else if c == 0xFF95u32 {
            Key::KeypadHome
        } else if c == 0xFF96u32 {
            Key::KeypadLeft
        } else if c == 0xFF97u32 {
            Key::KeypadUp
        } else if c == 0xFF98u32 {
            Key::KeypadRight
        } else if c == 0xFF99u32 {
            Key::KeypadDown
        } else if c == 0xFF9Au32 {
            Key::KeypadPrior
        } else if c == 0xFF9Bu32 {
            Key::KeypadNext
        } else if c == 0xFF9Cu32 {
            Key::KeypadEnd
        } else if c == 0xFF9Du32 {
            Key::KeypadBegin
        } else if c == 0xFF9Eu32 {
            Key::KeypadInsert
        } else if c == 0xFF9Fu32 {
            Key::KeypadDelete
        } else if c == 0xFFBDu32 {
            Key::KeypadEqual
        } else if c == 0xFFAAu32 {
            Key::KeypadMultiply
        } else if c == 0xFFABu32 {
            Key::KeypadAdd
        } else if c == 0xFFACu32 {
            Key::KeypadSeparator
        } else if c == 0xFFADu32 {
            Key::KeypadSubtract
        } else if c == 0xFFAEu32 {
            Key::KeypadDecimal
        } else if c == 0xFFAFu32 {
            Key::KeypadDivide
        } else if c == 0xFFB0u32 {
            Key::Keypad0
        } else if c == 0xFFB1u32 {
            Key::Keypad1
        } else if c == 0xFFB2u32 {
            Key::Keypad2
        } else if c == 0xFFB3u32 {
            Key::Keypad3
        } else if c == 0xFFB4u32 {
            Key::Keypad4
        } else if c == 0xFFB5u32 {
            Key::Keypad5
        } else if c == 0xFFB6u32 {
            Key::Keypad6
        } else if c == 0xFFB7u32 {
            Key::Keypad7
        } else if c == 0xFFB8u32 {
            Key::Keypad8
        } else if c == 0xFFB9u32 {
            Key::Keypad9
        } else if c == 0xFFBEu32 {
            Key::F1
        } else if c == 0xFFBFu32 {
            Key::F2
        } else if c == 0xFFC0u32 {
            Key::F3
        } else if c == 0xFFC1u32 {
            Key::F4
        } else if c == 0xFFC2u32 {
            Key::F5
        } else if c == 0xFFC3u32 {
            Key::F6
        } else if c == 0xFFC4u32 {
            Key::F7
        } else if c == 0xFFC5u32 {
            Key::F8
        } else if c == 0xFFC6u32 {
            Key::F9
        } else if c == 0xFFC7u32 {
            Key::F10
        } else if c == 0xFFC8u32 {
            Key::F11
        } else if c == 0xFFC9u32 {
            Key::F12
        } else if c == 0xFFCAu32 {
            Key::F13
        } else if c == 0xFFCBu32 {
            Key::F14
        } else if c == 0xFFCCu32 {
            Key::F15
        } else if c == 0xFFCDu32 {
            Key::F16
        } else if c == 0xFFCEu32 {
            Key::F17
        } else if c == 0xFFCFu32 {
            Key::F18
        } else if c == 0xFFD0u32 {
            Key::F19
        } else if c == 0xFFD1u32 {
            Key::F20
        } else if c == 0xFFD2u32 {
            Key::F21
        } else if c == 0xFFD3u32 {
            Key::F22
        } else if c == 0xFFD4u32 {
            Key::F23
        } else if c == 0xFFD5u32 {
            Key::F24
        } else if c == 0xFFE1u32 {
            Key::ShiftL
        } else if c == 0xFFE2u32 {
            Key::ShiftR
        } else if c == 0xFFE3u32 {
            Key::ControlL
        } else if c == 0xFFE4u32 {
            Key::ControlR
        } else if c == 0xFFE5u32 {
            Key::CapsLock
        } else if c == 0xFFE6u32 {
            Key::ShiftLock
        } else if c == 0xFFE7u32 {
            Key::MetaL
        } else if c == 0xFFE8u32 {
            Key::MetaR
        } else if c == 0xFFE9u32 {
            Key::AltL
        } else if c == 0xFFEAu32 {
            Key::AltR
        } else {
            Key::VoidSymbol
        }
    }

    /// The code this symbol encodes to.
    pub fn code(&self) -> (r: u32)
        ensures
            r == self.spec_code(),
    {
        match self {
            Key::VoidSymbol => 0xFFFFFF,
            Key::Space => 0x020,
            Key::BackSpace => 0xFF08,
            Key::Tab => 0xFF09,
            Key::Linefeed => 0xFF0A,
            Key::Clear => 0xFF0B,
            Key::Return => 0xFF0D,
            Key::Pause => 0xFF13,
            Key::ScrollLock => 0xFF14,
            Key::SysReq => 0xFF15,
            Key::Escape => 0xFF1B,
            Key::Delete => 0xFFFF,
            Key::Print => 0xFF61,
            Key::DeadGrave => 0xFE50,
            Key::DeadAcute => 0xFE51,
            Key::DeadCircumflex => 0xFE52,
            Key::FeadTilde => 0xFE53,
            Key::DeadDiaeresis => 0xFE57,
            Key::Home => 0xFF50,
            Key::Left => 0xFF51,
            Key::Up => 0xFF52,
            Key::Right => 0xFF53,
            Key::Down => 0xFF54,
            Key::PageUp => 0xFF55,
            Key::PageDown => 0xFF56,
            Key::End => 0xFF57,
            Key::Begin => 0xFF58,
            Key::Select => 0xFF60,
            Key::Execute => 0xFF62,
            Key::Insert => 0xFF63,
            Key::Cancel => 0xFF69,
            Key::Help => 0xFF6A,
            Key::Break => 0xFF6B,
            Key::NumLock => 0xFF7F,
            Key::KeypadSpace => 0xFF80,
            Key::KeypadTab => 0xFF89,
            Key::KeypadEnter => 0xFF8D,
            Key::KeypadHome => 0xFF95,
            Key::KeypadLeft => 0xFF96,
            Key::KeypadUp => 0xFF97,
            Key::KeypadRight => 0xFF98,
            Key::KeypadDown => 0xFF99,
            Key::KeypadPrior => 0xFF9A,
            Key::KeypadNext => 0xFF9B,
            Key::KeypadEnd => 0xFF9C,
            Key::KeypadBegin => 0xFF9D,
            Key::KeypadInsert => 0xFF9E,
            Key::KeypadDelete => 0xFF9F,
            Key::KeypadEqual => 0xFFBD,
            Key::KeypadMultiply => 0xFFAA,
            Key::KeypadAdd => 0xFFAB,
            Key::KeypadSeparator => 0xFFAC,
            Key::KeypadSubtract => 0xFFAD,
            Key::KeypadDecimal => 0xFFAE,
            Key::KeypadDivide => 0xFFAF,
            Key::Keypad0 => 0xFFB0,
            Key::Keypad1 => 0xFFB1,
            Key::Keypad2 => 0xFFB2,
            Key::Keypad3 => 0xFFB3,
            Key::Keypad4 => 0xFFB4,
            Key::Keypad5 => 0xFFB5,
            Key::Keypad6 => 0xFFB6,
            Key::Keypad7 => 0xFFB7,
            Key::Keypad8 => 0xFFB8,
            Key::Keypad9 => 0xFFB9,
            Key::F1 => 0xFFBE,
            Key::F2 => 0xFFBF,
            Key::F3 => 0xFFC0,
            Key::F4 => 0xFFC1,
            Key::F5 => 0xFFC2,
            Key::F6 => 0xFFC3,
            Key::F7 => 0xFFC4,
            Key::F8 => 0xFFC5,
            Key::F9 => 0xFFC6,
            Key::F10 => 0xFFC7,
            Key::F11 => 0xFFC8,
            Key::F12 => 0xFFC9,
            Key::F13 => 0xFFCA,
            Key::F14 => 0xFFCB,
            Key::F15 => 0xFFCC,
            Key::F16 => 0xFFCD,
            Key::F17 => 0xFFCE,
            Key::F18 => 0xFFCF,
            Key::F19 => 0xFFD0,
            Key::F20 => 0xFFD1,
            Key::F21 => 0xFFD2,
            Key::F22 => 0xFFD3,
            Key::F23 => 0xFFD4,
            Key::F24 => 0xFFD5,
            Key::ShiftL => 0xFFE1,
            Key::ShiftR => 0xFFE2,
            Key::ControlL => 0xFFE3,
            Key::ControlR => 0xFFE4,
            Key::CapsLock => 0xFFE5,
            Key::ShiftLock => 0xFFE6,
            Key::MetaL => 0xFFE7,
            Key::MetaR => 0xFFE8,
            Key::AltL => 0xFFE9,
            Key::AltR => 0xFFEA,
        }
    }
}

/// Every named symbol survives the wire unchanged: decoding its code
/// gives the symbol itself, the void key included.
pub proof fn lemma_key_round_trip(k: Key)
    ensures
        Key::spec_of_code(k.spec_code()) == k,
{
}

/// A known code survives the registry unchanged; of unknown codes only
/// the void key's own code does.
pub proof fn lemma_key_code_round(c: u32)
    requires
        Key::spec_of_code(c) != Key::VoidSymbol || c == 0xFFFFFF,
    ensures
        Key::spec_of_code(c).spec_code() == c,
{
}

impl Length for Key {
    open spec fn spec_len() -> int {
        4
    }

    fn length() -> usize {
        4
    }
}

impl Encode for Key {
    open spec fn spec_enc(&self) -> Seq<u8> {
        spec_u32_be(self.spec_code())
    }

    fn encode(&self) -> Vec<u8> {
        let mut out: Vec<u8> = Vec::new();
        write_u32_be(&mut out, self.code());
        out
    }
}

impl Decode for Key {
    open spec fn spec_dec(s: Seq<u8>) -> Result<Key, Error> {
        if s.len() < 4 {
            Err(Error::IoFailure)
        } else {
            Ok(Key::spec_of_code(spec_u32_from_be(s.take(4))))
        }
    }

    fn decode(bytes: &[u8], pos: usize) -> (r: Result<(Key, usize), Error>) {
        proof {
            let s = bytes@.skip(pos as int);
            assert(s.len() == bytes@.len() - pos);
            if bytes@.len() - pos >= 4 {
                assert(s.take(4) =~= bytes@.subrange(pos as int, pos + 4));
            }
        }
        match read_u32_be(bytes, pos) {
            Ok((c, end)) => Ok((Key::from_code(c), end)),
            Err(e) => Err(e),
        }
    }
}

} // verus!
