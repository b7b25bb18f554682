use crate::app::{App, PlatformAdapter};
use crate::settings::{
    line_width_for, DEFAULT_TEXT_WIDTH_PERCENT, FULL_TEXT_WIDTH_PERCENT,
};
use crate::text::{focus_for, OpenText, Persister};
use crate::text_wrapper::{cursor_target, Dir};
use vstd::prelude::*;
use vstd::string::*;

verus! {

/// A key pressed, with the modifier held.
#[derive(Debug, Copy, Clone, PartialEq, Eq)]
pub struct KeyDown {
    pub code: KeyCode,
    pub mods: KeyModifiers,
}

#[derive(Debug, Copy, Clone, PartialEq, Eq)]
pub enum KeyCode {
    Char(char),
    Up,
    Down,
    Left,
    Right,
    Esc,
    Unimplemented,
}

#[derive(Debug, Copy, Clone, PartialEq, Eq)]
pub enum KeyModifiers {
    Ctrl,
    Unimplemented,
}

/// What a key does.
#[derive(Debug, Copy, Clone, PartialEq, Eq)]
pub enum KeyAction {
    Quit,
    ToggleFullWidth,
    Type(char),
    Move(Dir),
    Snap,
    Nothing,
}

/// Ctrl-C quits, Ctrl-F switches between full and default text width, any other
/// character is typed, the arrows move the focus and Escape brings it back to the
/// sample.
pub open spec fn key_action(key: KeyDown) -> KeyAction {
    match (key.mods, key.code) {
        (KeyModifiers::Ctrl, KeyCode::Char('c')) => KeyAction::Quit,
        (KeyModifiers::Ctrl, KeyCode::Char('f')) => KeyAction::ToggleFullWidth,
        (_, KeyCode::Char(c)) => KeyAction::Type(c),
        (_, KeyCode::Up) => KeyAction::Move(Dir::Up),
        (_, KeyCode::Down) => KeyAction::Move(Dir::Down),
        (_, KeyCode::Left) => KeyAction::Move(Dir::Left),
        (_, KeyCode::Right) => KeyAction::Move(Dir::Right),
        (_, KeyCode::Esc) => KeyAction::Snap,
        _ => KeyAction::Nothing,
    }
}

impl KeyDown {
    /// What this key does; see [`key_action`].
    pub fn action(&self) -> (r: KeyAction)
        ensures
            r == key_action(*self),
    {
        match (self.mods, self.code) {
            (KeyModifiers::Ctrl, KeyCode::Char('c')) => KeyAction::Quit,
            (KeyModifiers::Ctrl, KeyCode::Char('f')) => KeyAction::ToggleFullWidth,
            (_, KeyCode::Char(c)) => KeyAction::Type(c),
            (_, KeyCode::Up) => KeyAction::Move(Dir::Up),
            (_, KeyCode::Down) => KeyAction::Move(Dir::Down),
            (_, KeyCode::Left) => KeyAction::Move(Dir::Left),
            (_, KeyCode::Right) => KeyAction::Move(Dir::Right),
            (_, KeyCode::Esc) => KeyAction::Snap,
            _ => KeyAction::Nothing,
        }
    }
}

/// The key code for a browser key name: the arrow and Escape names, or the character
/// itself when the name is a single byte (one ASCII character).
pub open spec fn browser_code(key: Seq<char>) -> KeyCode {
    if key == "Escape"@ {
        KeyCode::Esc
    } else if key == "ArrowUp"@ {
        KeyCode::Up
    } else if key == "ArrowDown"@ {
        KeyCode::Down
    } else if key == "ArrowRight"@ {
        KeyCode::Right
    } else if key == "ArrowLeft"@ {
        KeyCode::Left
    } else if key.len() == 1 && key[0] <= '\u{7f}' {
        KeyCode::Char(key[0])
    } else {
        KeyCode::Unimplemented
    }
}

/// Ctrl with one of these is a browser shortcut (zoom), not a key for the text.
pub open spec fn is_browser_shortcut(code: KeyCode, mods: KeyModifiers) -> bool {
    mods == KeyModifiers::Ctrl && match code {
        KeyCode::Char(c) => c == ')' || c == '0' || c == '-' || c == '_' || c == '+' || c == '=',
        _ => false,
    }
}

/// The key a browser reports by name, with Ctrl held or not; browser shortcuts
/// become a key that does nothing.
pub open spec fn browser_key(key: Seq<char>, ctrl: bool) -> KeyDown {
    let code = browser_code(key);
    let mods = if ctrl {
        KeyModifiers::Ctrl
    } else {
        KeyModifiers::Unimplemented
    };
    if is_browser_shortcut(code, mods) {
        KeyDown { code: KeyCode::Unimplemented, mods: KeyModifiers::Unimplemented }
    } else {
        KeyDown { code, mods }
    }
}

fn same_text(a: &str, b: &str) -> (r: bool)
    ensures
        r == (a@ == b@),
{
    let n = a.unicode_len();
    if n != b.unicode_len() {
        return false;
    }
    let mut i: usize = 0;
    while i < n
        invariant
            n == a@.len() == b@.len(),
            i <= n,
            forall|j: int| 0 <= j < i ==> a@[j] == b@[j],
        decreases n - i,
    {
        if a.get_char(i) != b.get_char(i) {
            return false;
        }
        i = i + 1;
    }
    proof {
        assert(a@ =~= b@);
    }
    true
}

impl KeyDown {
    /// The key a browser reports as `key` (its `KeyboardEvent.key`), with Ctrl held
    /// when `ctrl`; see [`browser_key`].
    pub fn from_browser_key(key: &str, ctrl: bool) -> (r: KeyDown)
        ensures
            r == browser_key(key@, ctrl),
    {
        let code = if same_text(key, "Escape") {
            KeyCode::Esc
        } else if same_text(key, "ArrowUp") {
            KeyCode::Up
        } else if same_text(key, "ArrowDown") {
            KeyCode::Down
        } else if same_text(key, "ArrowRight") {
            KeyCode::Right
        } else if same_text(key, "ArrowLeft") {
            KeyCode::Left
        } else if key.unicode_len() == 1 && key.is_ascii() {
            KeyCode::Char(key.get_char(0))
        } else {
            KeyCode::Unimplemented
        };
        let mods = if ctrl {
            KeyModifiers::Ctrl
        } else {
            KeyModifiers::Unimplemented
        };
        let shortcut = match (mods, code) {
            (KeyModifiers::Ctrl, KeyCode::Char(c)) => c == ')' || c == '0' || c == '-' || c == '_'
                || c == '+' || c == '=',
            _ => false,
        };
        if shortcut {
            KeyDown { code: KeyCode::Unimplemented, mods: KeyModifiers::Unimplemented }
        } else {
            KeyDown { code, mods }
        }
    }
}

impl<PA: PlatformAdapter> App<PA> {
    /// Acts on one key: see [`key_action`]. Cursor moves use the line width of a
    /// terminal `terminal_width` columns wide. What typing returns is returned.
    pub fn handle_key_events<P: Persister>(
        &mut self,
        key_press: KeyDown,
        text: &mut OpenText<P>,
        terminal_width: u16,
    ) -> (r: Result<(), String>)
        requires
            old(text).wf(),
        ensures
            final(text).wf(),
            final(self).adapter == old(self).adapter,
            match key_action(key_press) {
                KeyAction::Quit => {
                    &&& !final(self).running
                    &&& final(self).settings == old(self).settings
                    &&& *final(text) == *old(text)
                    &&& r is Ok
                },
                KeyAction::ToggleFullWidth => {
                    &&& final(self).running == old(self).running
                    &&& final(self).settings.full_text_width == !old(self).settings.full_text_width
                    &&& final(self).settings.text_width_percent == (if old(self).settings.full_text_width {
                        DEFAULT_TEXT_WIDTH_PERCENT
                    } else {
                        FULL_TEXT_WIDTH_PERCENT
                    })
                    &&& *final(text) == *old(text)
                    &&& r is Ok
                },
                KeyAction::Type(c) => {
                    &&& *final(self) == *old(self)
                    &&& exists|now: i64| old(text).char_step(*final(text), c, now, r)
                },
                KeyAction::Move(dir) => {
                    let width = line_width_for(terminal_width, old(self).settings.text_width_percent);
                    &&& *final(self) == *old(self)
                    &&& final(text).wrapper.rewrapped(old(text).wrapper, old(text).text, width)
                    &&& final(text).focused_glyph == match cursor_target(
                        final(text).wrapper.line_ranges(),
                        old(text).focused_glyph as int,
                        dir,
                    ) {
                        Some(g) => g,
                        None => old(text).focused_glyph as int,
                    }
                    &&& final(text).text == old(text).text
                    &&& final(text).test == old(text).test
                    &&& final(text).test_log == old(text).test_log
                    &&& final(text).keypress_log == old(text).keypress_log
                    &&& final(text).save == old(text).save
                    &&& r is Ok
                },
                KeyAction::Snap => {
                    &&& *final(self) == *old(self)
                    &&& final(text).focused_glyph == focus_for(
                        old(text).test,
                        old(text).text.spec_len() as int,
                    )
                    &&& final(text).text == old(text).text
                    &&& final(text).test == old(text).test
                    &&& final(text).wrapper == old(text).wrapper
                    &&& final(text).test_log == old(text).test_log
                    &&& final(text).keypress_log == old(text).keypress_log
                    &&& final(text).save == old(text).save
                    &&& r is Ok
                },
                KeyAction::Nothing => {
                    &&& *final(self) == *old(self)
                    &&& *final(text) == *old(text)
                    &&& r is Ok
                },
            },
    {
        match key_press.action() {
            KeyAction::Quit => {
                self.quit();
                Ok(())
            },
            KeyAction::ToggleFullWidth => {
                self.settings.full_text_width = !self.settings.full_text_width;
                self.settings.text_width_percent = if self.settings.full_text_width {
                    FULL_TEXT_WIDTH_PERCENT
                } else {
                    DEFAULT_TEXT_WIDTH_PERCENT
                };
                Ok(())
            },
            KeyAction::Type(c) => text.handle_char(c),
            KeyAction::Move(dir) => {
                text.move_cursor(self.settings.line_width(terminal_width), dir);
                Ok(())
            },
            KeyAction::Snap => {
                text.snap_to_cursor();
                Ok(())
            },
            KeyAction::Nothing => Ok(()),
        }
    }
}

} // verus!
