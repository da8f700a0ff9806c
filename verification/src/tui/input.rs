//! Vim-style input modes: Normal, Command (`:`), and Search (`/`).
//!
//! [`InputHandler`] owns the current mode and input buffer, and turns key
//! presses into [`InputAction`]s for the application loop.
use vstd::prelude::*;

use crate::script::strings::{chars_of, copy_string, push_str, string_from_range};
use crate::tui::app::Tab;
use crate::tui::keys::{KeyCode, KeyEvent};

verus! {

/// Active input mode (displayed in the status bar).
#[derive(Debug, Clone, Copy, PartialEq, Eq, Structural)]
pub enum InputMode {
    /// Normal navigation: hjkl, tab switching, and so on.
    Normal,
    /// Command-line input after `:`.
    Command,
    /// Search input after `/`.
    Search,
}

impl Default for InputMode {
    fn default() -> (m: Self)
        ensures
            m == InputMode::Normal,
    {
        InputMode::Normal
    }
}

/// Direction of hjkl navigation.
#[derive(Debug, Clone, Copy, PartialEq, Eq, Structural)]
pub enum Direction {
    Left,
    Down,
    Up,
    Right,
}

/// What a key press asks the application to do.
#[derive(Debug, Clone, PartialEq, Eq)]
pub enum InputAction {
    /// No meaningful action for this key.
    NoAction,
    /// Quit the application.
    Quit,
    /// Switch to the given tab.
    SwitchTab(Tab),
    /// Navigate in a direction.
    Navigate(Direction),
    /// Execute a command line typed after `:`.
    ExecuteCommand(String),
    /// Run a search typed after `/`.
    Search(String),
    /// The current input mode was left without submitting.
    CancelInput,
    /// Scroll the viewport up (reserved for page-scroll keys).
    ScrollUp,
    /// Scroll the viewport down (reserved for page-scroll keys).
    ScrollDown,
    /// Select or confirm the current item.
    Select,
    /// Deselect or go back.
    Deselect,
    /// Enter sort-column selection.
    EnterSort,
    /// Toggle the help overlay.
    ToggleHelp,
    /// Jump to the next search match.
    NextMatch,
    /// Jump to the previous search match.
    PrevMatch,
}

/// View of an [`InputAction`].
#[verifier::ext_equal]
pub enum SpecInputAction {
    NoAction,
    Quit,
    SwitchTab(Tab),
    Navigate(Direction),
    ExecuteCommand(Seq<char>),
    Search(Seq<char>),
    CancelInput,
    ScrollUp,
    ScrollDown,
    Select,
    Deselect,
    EnterSort,
    ToggleHelp,
    NextMatch,
    PrevMatch,
}

impl View for InputAction {
    type V = SpecInputAction;

    open spec fn view(&self) -> SpecInputAction {
        match self {
            InputAction::NoAction => SpecInputAction::NoAction,
            InputAction::Quit => SpecInputAction::Quit,
            InputAction::SwitchTab(t) => SpecInputAction::SwitchTab(*t),
            InputAction::Navigate(d) => SpecInputAction::Navigate(*d),
            InputAction::ExecuteCommand(s) => SpecInputAction::ExecuteCommand(s@),
            InputAction::Search(s) => SpecInputAction::Search(s@),
            InputAction::CancelInput => SpecInputAction::CancelInput,
            InputAction::ScrollUp => SpecInputAction::ScrollUp,
            InputAction::ScrollDown => SpecInputAction::ScrollDown,
            InputAction::Select => SpecInputAction::Select,
            InputAction::Deselect => SpecInputAction::Deselect,
            InputAction::EnterSort => SpecInputAction::EnterSort,
            InputAction::ToggleHelp => SpecInputAction::ToggleHelp,
            InputAction::NextMatch => SpecInputAction::NextMatch,
            InputAction::PrevMatch => SpecInputAction::PrevMatch,
        }
    }
}

/// View of an [`InputHandler`].
#[verifier::ext_equal]
pub struct InputState {
    pub mode: InputMode,
    pub buffer: Seq<char>,
    pub has_search: bool,
}

/// The tab that function key `n` switches to, if any.
pub open spec fn function_key_tab(n: u8) -> Option<Tab> {
    if n == 1 {
        Some(Tab::Overview)
    } else if n == 2 {
        Some(Tab::World3D)
    } else if n == 3 {
        Some(Tab::Network)
    } else if n == 4 {
        Some(Tab::Arbiter)
    } else if n == 5 {
        Some(Tab::Rules)
    } else {
        None
    }
}

/// What a character key does in Normal mode.
pub open spec fn normal_char(st: InputState, c: char, control: bool) -> (InputState, SpecInputAction) {
    if c == 'q' || (c == 'c' && control) {
        (st, SpecInputAction::Quit)
    } else if c == 'h' {
        (st, SpecInputAction::Navigate(Direction::Left))
    } else if c == 'j' {
        (st, SpecInputAction::Navigate(Direction::Down))
    } else if c == 'k' {
        (st, SpecInputAction::Navigate(Direction::Up))
    } else if c == 'l' {
        (st, SpecInputAction::Navigate(Direction::Right))
    } else if c == 's' {
        (st, SpecInputAction::EnterSort)
    } else if c == ':' {
        (InputState { mode: InputMode::Command, buffer: Seq::empty(), ..st }, SpecInputAction::NoAction)
    } else if c == '/' {
        (InputState { mode: InputMode::Search, buffer: Seq::empty(), ..st }, SpecInputAction::NoAction)
    } else if c == '?' {
        (st, SpecInputAction::ToggleHelp)
    } else if c == 'n' && st.has_search {
        (st, SpecInputAction::NextMatch)
    } else if c == 'N' && st.has_search {
        (st, SpecInputAction::PrevMatch)
    } else {
        (st, SpecInputAction::NoAction)
    }
}

/// What a key does in Normal mode.
pub open spec fn normal_step(st: InputState, key: KeyEvent) -> (InputState, SpecInputAction) {
    match key.code {
        KeyCode::Char(c) => normal_char(st, c, key.control),
        KeyCode::Down => (st, SpecInputAction::Navigate(Direction::Down)),
        KeyCode::Up => (st, SpecInputAction::Navigate(Direction::Up)),
        KeyCode::F(n) => match function_key_tab(n) {
            Some(t) => (st, SpecInputAction::SwitchTab(t)),
            None => (st, SpecInputAction::NoAction),
        },
        KeyCode::Enter => (st, SpecInputAction::Select),
        KeyCode::Esc => (st, SpecInputAction::Deselect),
        _ => (st, SpecInputAction::NoAction),
    }
}

/// What a key does while a command line (`:`) or search (`/`) is typed.
pub open spec fn edit_step(st: InputState, key: KeyEvent) -> (InputState, SpecInputAction) {
    let normal = InputState { mode: InputMode::Normal, buffer: Seq::empty(), ..st };
    match key.code {
        KeyCode::Enter => if st.mode == InputMode::Command {
            (normal, SpecInputAction::ExecuteCommand(st.buffer))
        } else {
            (InputState { has_search: st.buffer.len() > 0, ..normal }, SpecInputAction::Search(st.buffer))
        },
        KeyCode::Esc => (normal, SpecInputAction::CancelInput),
        KeyCode::Backspace => {
            let rest = if st.buffer.len() > 0 { st.buffer.drop_last() } else { st.buffer };
            if rest.len() == 0 {
                (normal, SpecInputAction::CancelInput)
            } else {
                (InputState { buffer: rest, ..st }, SpecInputAction::NoAction)
            }
        },
        KeyCode::Char(c) => (InputState { buffer: st.buffer.push(c), ..st }, SpecInputAction::NoAction),
        _ => (st, SpecInputAction::NoAction),
    }
}

/// The next state and the action for `key` pressed in state `st`.
pub open spec fn input_step(st: InputState, key: KeyEvent) -> (InputState, SpecInputAction) {
    if st.mode == InputMode::Normal {
        normal_step(st, key)
    } else {
        edit_step(st, key)
    }
}

/// The status-bar mode indicator.
pub open spec fn status_line(st: InputState) -> Seq<char> {
    match st.mode {
        InputMode::Normal => "[NORMAL]"@,
        InputMode::Command => "[COMMAND] :"@ + st.buffer,
        InputMode::Search => "[SEARCH] /"@ + st.buffer,
    }
}

/// Vim-style input handler with modal editing.
///
/// Keeps the current [`InputMode`] and the text typed in Command and Search
/// modes.
#[derive(Debug)]
pub struct InputHandler {
    mode: InputMode,
    buffer: String,
    has_search: bool,
}

impl View for InputHandler {
    type V = InputState;

    closed spec fn view(&self) -> InputState {
        InputState { mode: self.mode, buffer: self.buffer@, has_search: self.has_search }
    }
}

impl Default for InputHandler {
    fn default() -> (h: Self)
        ensures
            h@ == (InputState { mode: InputMode::Normal, buffer: Seq::empty(), has_search: false }),
    {
        InputHandler { mode: InputMode::Normal, buffer: String::new(), has_search: false }
    }
}

impl InputHandler {
    /// Current input mode.
    pub fn mode(&self) -> (m: InputMode)
        ensures
            m == self@.mode,
    {
        self.mode
    }

    /// Current buffer contents (for Command/Search display).
    pub fn buffer(&self) -> (s: &str)
        ensures
            s@ == self@.buffer,
    {
        self.buffer.as_str()
    }

    /// The mode indicator for the status bar, such as `"[NORMAL]"`,
    /// `"[COMMAND] :kill "` or `"[SEARCH] /firefox"`.
    pub fn status_text(&self) -> (s: String)
        ensures
            s@ == status_line(self@),
    {
        match self.mode {
            InputMode::Normal => "[NORMAL]".to_owned(),
            InputMode::Command => {
                let mut s = "[COMMAND] :".to_owned();
                push_str(&mut s, self.buffer.as_str());
                s
            },
            InputMode::Search => {
                let mut s = "[SEARCH] /".to_owned();
                push_str(&mut s, self.buffer.as_str());
                s
            },
        }
    }

    /// Process a key press and return the corresponding action.
    pub fn handle_key(&mut self, key: KeyEvent) -> (a: InputAction)
        ensures
            (final(self)@, a@) == input_step(old(self)@, key),
    {
        match self.mode {
            InputMode::Normal => self.handle_normal(key),
            _ => self.handle_edit(key),
        }
    }

    fn handle_normal(&mut self, key: KeyEvent) -> (a: InputAction)
        requires
            old(self).mode == InputMode::Normal,
        ensures
            (final(self)@, a@) == normal_step(old(self)@, key),
    {
        match key.code {
            KeyCode::Char(c) => self.handle_normal_char(c, key.control),
            KeyCode::Down => InputAction::Navigate(Direction::Down),
            KeyCode::Up => InputAction::Navigate(Direction::Up),
            KeyCode::F(1) => InputAction::SwitchTab(Tab::Overview),
            KeyCode::F(2) => InputAction::SwitchTab(Tab::World3D),
            KeyCode::F(3) => InputAction::SwitchTab(Tab::Network),
            KeyCode::F(4) => InputAction::SwitchTab(Tab::Arbiter),
            KeyCode::F(5) => InputAction::SwitchTab(Tab::Rules),
            KeyCode::Enter => InputAction::Select,
            KeyCode::Esc => InputAction::Deselect,
            _ => InputAction::NoAction,
        }
    }

    fn handle_normal_char(&mut self, c: char, control: bool) -> (a: InputAction)
        requires
            old(self).mode == InputMode::Normal,
        ensures
            (final(self)@, a@) == normal_char(old(self)@, c, control),
    {
        if c == 'q' || (c == 'c' && control) {
            InputAction::Quit
        } else if c == 'h' {
            InputAction::Navigate(Direction::Left)
        } else if c == 'j' {
            InputAction::Navigate(Direction::Down)
        } else if c == 'k' {
            InputAction::Navigate(Direction::Up)
        } else if c == 'l' {
            InputAction::Navigate(Direction::Right)
        } else if c == 's' {
            InputAction::EnterSort
        } else if c == ':' {
            self.mode = InputMode::Command;
            self.buffer = String::new();
            InputAction::NoAction
        } else if c == '/' {
            self.mode = InputMode::Search;
            self.buffer = String::new();
            InputAction::NoAction
        } else if c == '?' {
            InputAction::ToggleHelp
        } else if c == 'n' && self.has_search {
            InputAction::NextMatch
        } else if c == 'N' && self.has_search {
            InputAction::PrevMatch
        } else {
            InputAction::NoAction
        }
    }

    /// Removes the last character of the buffer, if there is one.
    fn pop_buffer(&mut self)
        ensures
            final(self).mode == old(self).mode,
            final(self).has_search == old(self).has_search,
            final(self).buffer@ == (if old(self).buffer@.len() > 0 {
                old(self).buffer@.drop_last()
            } else {
                old(self).buffer@
            }),
    {
        let chars = chars_of(self.buffer.as_str());
        if chars.len() > 0 {
            self.buffer = string_from_range(&chars, 0, chars.len() - 1);
        }
    }

    fn handle_edit(&mut self, key: KeyEvent) -> (a: InputAction)
        requires
            old(self).mode != InputMode::Normal,
        ensures
            (final(self)@, a@) == edit_step(old(self)@, key),
    {
        match key.code {
            KeyCode::Enter => {
                let text = copy_string(&self.buffer);
                let is_command = self.mode == InputMode::Command;
                if !is_command {
                    self.has_search = !text.as_str().is_empty();
                }
                self.mode = InputMode::Normal;
                self.buffer = String::new();
                if is_command {
                    InputAction::ExecuteCommand(text)
                } else {
                    InputAction::Search(text)
                }
            },
            KeyCode::Esc => {
                self.mode = InputMode::Normal;
                self.buffer = String::new();
                InputAction::CancelInput
            },
            KeyCode::Backspace => {
                self.pop_buffer();
                if self.buffer.as_str().is_empty() {
                    self.mode = InputMode::Normal;
                    InputAction::CancelInput
                } else {
                    InputAction::NoAction
                }
            },
            KeyCode::Char(c) => {
                self.buffer.push(c);
                InputAction::NoAction
            },
            _ => InputAction::NoAction,
        }
    }
}

/// Leaving a command line or search with Esc always returns to Normal mode
/// with an empty buffer, and Enter submits exactly what was typed.
pub proof fn lemma_edit_exits(st: InputState)
    requires
        st.mode != InputMode::Normal,
    ensures
        input_step(st, KeyEvent { code: KeyCode::Esc, control: false }).0.mode == InputMode::Normal,
        input_step(st, KeyEvent { code: KeyCode::Esc, control: false }).0.buffer.len() == 0,
        input_step(st, KeyEvent { code: KeyCode::Enter, control: false }).0.mode == InputMode::Normal,
        input_step(st, KeyEvent { code: KeyCode::Enter, control: false }).1 == if st.mode == InputMode::Command {
            SpecInputAction::ExecuteCommand(st.buffer)
        } else {
            SpecInputAction::Search(st.buffer)
        },
{
}

/// Typing a character in a command line or search appends it to the buffer
/// and stays in that mode.
pub proof fn lemma_typing_appends(st: InputState, c: char, control: bool)
    requires
        st.mode != InputMode::Normal,
    ensures
        input_step(st, KeyEvent { code: KeyCode::Char(c), control }).0 == (InputState {
            buffer: st.buffer.push(c),
            ..st
        }),
{
}

/// In Normal mode only `:` and `/` change the handler's state.
pub proof fn lemma_normal_keeps_state(st: InputState, key: KeyEvent)
    requires
        st.mode == InputMode::Normal,
        key.code != KeyCode::Char(':'),
        key.code != KeyCode::Char('/'),
    ensures
        input_step(st, key).0 == st,
{
}

} // verus!
