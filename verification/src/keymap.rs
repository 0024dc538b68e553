//! Key bindings: named keys read from the configuration, parsed into a
//! plain key code.

use vstd::prelude::*;

use crate::strutil::str_eq;

verus! {

/// A plain key code.
#[derive(Debug, Clone, Copy, PartialEq, Eq, Structural)]
pub enum Key {
    Left,
    Right,
    Up,
    Down,
    Enter,
    Esc,
    Tab,
    BackTab,
    Backspace,
    F(u8),
    Char(char),
    Null,
}

/// One configured binding: either a bare key name or a key name with
/// modifier flags.
#[derive(Debug)]
pub enum KeyMapEntry {
    Simple(String),
    WithModifier { key: String, ctrl: bool, alt: bool },
}

impl Clone for KeyMapEntry {
    fn clone(&self) -> (res: Self)
        ensures
            res == *self,
    {
        match self {
            KeyMapEntry::Simple(s) => KeyMapEntry::Simple(s.clone()),
            KeyMapEntry::WithModifier { key, ctrl, alt } => KeyMapEntry::WithModifier {
                key: key.clone(),
                ctrl: *ctrl,
                alt: *alt,
            },
        }
    }
}

/// The key name of a binding.
pub open spec fn spec_key_string(e: KeyMapEntry) -> Seq<char> {
    match e {
        KeyMapEntry::Simple(s) => s@,
        KeyMapEntry::WithModifier { key, ctrl, alt } => key@,
    }
}

/// The key code a key name parses to: a known name, a single character,
/// or nothing.
pub open spec fn spec_parse_key(s: Seq<char>) -> Key {
    if s == "Left"@ || s == "left"@ {
        Key::Left
    } else if s == "Right"@ || s == "right"@ {
        Key::Right
    } else if s == "Up"@ || s == "up"@ {
        Key::Up
    } else if s == "Down"@ || s == "down"@ {
        Key::Down
    } else if s == "Enter"@ || s == "return"@ {
        Key::Enter
    } else if s == "Esc"@ || s == "escape"@ {
        Key::Esc
    } else if s == "Tab"@ {
        Key::Tab
    } else if s == "BackTab"@ {
        Key::BackTab
    } else if s == "Backspace"@ {
        Key::Backspace
    } else if s == "F1"@ {
        Key::F(1)
    } else if s == "F2"@ {
        Key::F(2)
    } else if s == "F3"@ {
        Key::F(3)
    } else if s.len() == 1 {
        Key::Char(s[0])
    } else {
        Key::Null
    }
}

impl KeyMapEntry {
    /// Parses the binding's key name into a key code; modifier flags are
    /// kept in the configuration but do not change the code.
    pub fn parse(&self) -> (r: Key)
        ensures
            r == spec_parse_key(spec_key_string(*self)),
    {
        let key_str: &str = match self {
            KeyMapEntry::Simple(s) => s.as_str(),
            KeyMapEntry::WithModifier { key, ctrl, alt } => key.as_str(),
        };
        if str_eq(key_str, "Left") || str_eq(key_str, "left") {
            Key::Left
        } else if str_eq(key_str, "Right") || str_eq(key_str, "right") {
            Key::Right
        } else if str_eq(key_str, "Up") || str_eq(key_str, "up") {
            Key::Up
        } else if str_eq(key_str, "Down") || str_eq(key_str, "down") {
            Key::Down
        } else if str_eq(key_str, "Enter") || str_eq(key_str, "return") {
            Key::Enter
        } else if str_eq(key_str, "Esc") || str_eq(key_str, "escape") {
            Key::Esc
        } else if str_eq(key_str, "Tab") {
            Key::Tab
        } else if str_eq(key_str, "BackTab") {
            Key::BackTab
        } else if str_eq(key_str, "Backspace") {
            Key::Backspace
        } else if str_eq(key_str, "F1") {
            Key::F(1)
        } else if str_eq(key_str, "F2") {
            Key::F(2)
        } else if str_eq(key_str, "F3") {
            Key::F(3)
        } else if key_str.unicode_len() == 1 {
            Key::Char(key_str.get_char(0))
        } else {
            Key::Null
        }
    }
}

/// The six configurable bindings of the application.
#[derive(Debug)]
pub struct KeyMap {
    pub prev_day: KeyMapEntry,
    pub cur_day: KeyMapEntry,
    pub next_day: KeyMapEntry,
    pub selector: KeyMapEntry,
    pub settings: KeyMapEntry,
    pub exit: KeyMapEntry,
}

impl Clone for KeyMap {
    fn clone(&self) -> (res: Self)
        ensures
            res == *self,
    {
        KeyMap {
            prev_day: self.prev_day.clone(),
            cur_day: self.cur_day.clone(),
            next_day: self.next_day.clone(),
            selector: self.selector.clone(),
            settings: self.settings.clone(),
            exit: self.exit.clone(),
        }
    }
}

impl KeyMap {
    /// The key that moves one day back.
    pub fn prev_day(&self) -> (r: Key)
        ensures
            r == spec_parse_key(spec_key_string(self.prev_day)),
    {
        self.prev_day.parse()
    }

    /// The key that jumps to today.
    pub fn cur_day(&self) -> (r: Key)
        ensures
            r == spec_parse_key(spec_key_string(self.cur_day)),
    {
        self.cur_day.parse()
    }

    /// The key that moves one day forward.
    pub fn next_day(&self) -> (r: Key)
        ensures
            r == spec_parse_key(spec_key_string(self.next_day)),
    {
        self.next_day.parse()
    }

    /// The key that opens the selector.
    pub fn selector(&self) -> (r: Key)
        ensures
            r == spec_parse_key(spec_key_string(self.selector)),
    {
        self.selector.parse()
    }

    /// The key that opens the settings screen.
    pub fn settings(&self) -> (r: Key)
        ensures
            r == spec_parse_key(spec_key_string(self.settings)),
    {
        self.settings.parse()
    }

    /// The key that quits the application.
    pub fn exit(&self) -> (r: Key)
        ensures
            r == spec_parse_key(spec_key_string(self.exit)),
    {
        self.exit.parse()
    }
}

impl Default for KeyMap {
    /// Arrow keys for navigation, `o` for the selector, `s` for the
    /// settings, `q` to quit.
    fn default() -> (r: Self)
        ensures
            spec_key_string(r.prev_day) == "Left"@,
            spec_key_string(r.cur_day) == "Up"@,
            spec_key_string(r.next_day) == "Right"@,
            spec_key_string(r.selector) == "o"@,
            spec_key_string(r.settings) == "s"@,
            spec_key_string(r.exit) == "q"@,
    {
        KeyMap {
            prev_day: KeyMapEntry::Simple("Left".to_owned()),
            cur_day: KeyMapEntry::Simple("Up".to_owned()),
            next_day: KeyMapEntry::Simple("Right".to_owned()),
            selector: KeyMapEntry::Simple("o".to_owned()),
            settings: KeyMapEntry::Simple("s".to_owned()),
            exit: KeyMapEntry::Simple("q".to_owned()),
        }
    }
}

} // verus!
