//! Keyboard input and the actions it maps to.

use vstd::prelude::*;
use crate::text::push_char;

verus! {

/// What the user asked for.
#[derive(Debug, Clone)]
pub enum Action {
    Quit,
    Refresh,
    NavigateUp,
    NavigateDown,
    SelectItem,
    KillProcess(bool),
    StartFilter,
    UpdateFilter(String),
    ClearFilter,
    ToggleHelp,
    ToggleAlerts,
    Nothing,
}

/// The keys the monitor reacts to; every other key is `Other`.
#[derive(Debug, Clone, Copy, PartialEq, Eq, Structural)]
pub enum KeyCode {
    Char(char),
    Up,
    Down,
    Enter,
    Esc,
    Backspace,
    Other,
}

/// A key press: the key and whether Control was held.
#[derive(Debug, Clone, Copy, PartialEq, Eq, Structural)]
pub struct KeyEvent {
    pub code: KeyCode,
    pub control: bool,
}

/// The text that `UpdateFilter` carries for Backspace.
pub open spec fn backspace_text() -> Seq<char> {
    seq!['\u{8}']
}

/// The action for a key outside filter mode, and whether it starts filter mode.
pub open spec fn normal_key_action(key: KeyEvent) -> Action {
    match key.code {
        KeyCode::Char(c) => if c == 'q' {
            Action::Quit
        } else if c == 'c' && key.control {
            Action::Quit
        } else if c == 'r' {
            Action::Refresh
        } else if c == 'k' {
            Action::KillProcess(true)
        } else if c == 'K' {
            Action::KillProcess(false)
        } else if c == '/' {
            Action::StartFilter
        } else if c == '?' {
            Action::ToggleHelp
        } else {
            Action::Nothing
        },
        KeyCode::Up => Action::NavigateUp,
        KeyCode::Down => Action::NavigateDown,
        KeyCode::Enter => Action::SelectItem,
        KeyCode::Esc => Action::ClearFilter,
        _ => Action::Nothing,
    }
}

/// Actions are the same, an `UpdateFilter` by the text it carries.
pub open spec fn same_action(a: Action, b: Action) -> bool {
    match (a, b) {
        (Action::UpdateFilter(s), Action::UpdateFilter(t)) => s@ == t@,
        (Action::UpdateFilter(_), _) => false,
        (_, Action::UpdateFilter(_)) => false,
        _ => a == b,
    }
}

/// Outside filter mode every key maps to its own action, with or without Control:
/// the Up arrow navigates up and the Down arrow down, `q` (and Control-`c`) quits,
/// `r` refreshes, `k` and `K` kill the selected process (`k` forcefully), Enter
/// selects, Esc clears the filter, `/` starts a filter, `?` toggles the help, and every
/// other key does nothing.
pub proof fn law_normal_keys(control: bool, c: char)
    ensures
        normal_key_action(KeyEvent { code: KeyCode::Up, control }) is NavigateUp,
        normal_key_action(KeyEvent { code: KeyCode::Down, control }) is NavigateDown,
        normal_key_action(KeyEvent { code: KeyCode::Char('q'), control }) is Quit,
        normal_key_action(KeyEvent { code: KeyCode::Char('c'), control: true }) is Quit,
        normal_key_action(KeyEvent { code: KeyCode::Char('r'), control }) is Refresh,
        normal_key_action(KeyEvent { code: KeyCode::Char('k'), control }) matches Action::KillProcess(
            true,
        ),
        normal_key_action(KeyEvent { code: KeyCode::Char('K'), control }) matches Action::KillProcess(
            false,
        ),
        normal_key_action(KeyEvent { code: KeyCode::Enter, control }) is SelectItem,
        normal_key_action(KeyEvent { code: KeyCode::Esc, control }) is ClearFilter,
        normal_key_action(KeyEvent { code: KeyCode::Char('/'), control }) is StartFilter,
        normal_key_action(KeyEvent { code: KeyCode::Char('?'), control }) is ToggleHelp,
        normal_key_action(KeyEvent { code: KeyCode::Backspace, control }) is Nothing,
        normal_key_action(KeyEvent { code: KeyCode::Other, control }) is Nothing,
        c != 'q' && c != 'r' && c != 'k' && c != 'K' && c != '/' && c != '?' && !(c == 'c'
            && control) ==> normal_key_action(KeyEvent { code: KeyCode::Char(c), control }) is Nothing,
{
}

/// Turns key presses into actions, tracking whether a filter is being typed.
pub struct EventHandler {
    filter_mode: bool,
}

impl EventHandler {
    /// A handler outside filter mode.
    pub fn new() -> (h: Self)
        ensures
            !h.filter_mode(),
    {
        EventHandler { filter_mode: false }
    }

    /// Whether keys currently edit the filter.
    pub closed spec fn filter_mode(self) -> bool {
        self.filter_mode
    }

    /// Whether keys currently edit the filter.
    pub fn is_filter_mode(&self) -> (b: bool)
        ensures
            b == self.filter_mode(),
    {
        self.filter_mode
    }

    /// The action for a key press. Outside filter mode keys are commands and `/`
    /// enters filter mode; in filter mode characters and Backspace edit the filter,
    /// Esc clears it and Enter keeps it, both leaving filter mode.
    pub fn handle_key(&mut self, key: KeyEvent) -> (a: Action)
        ensures
            !old(self).filter_mode() ==> same_action(a, normal_key_action(key))
                && final(self).filter_mode() == (key.code == KeyCode::Char('/')),
            old(self).filter_mode() ==> match key.code {
                KeyCode::Esc => a is ClearFilter && !final(self).filter_mode(),
                KeyCode::Enter => a is Nothing && !final(self).filter_mode(),
                KeyCode::Backspace => a matches Action::UpdateFilter(s) && s@ == backspace_text()
                    && final(self).filter_mode(),
                KeyCode::Char(c) => a matches Action::UpdateFilter(s) && s@ == seq![c]
                    && final(self).filter_mode(),
                _ => a is Nothing && final(self).filter_mode(),
            },
    {
        if self.filter_mode {
            return self.handle_filter_key(key);
        }
        match key.code {
            KeyCode::Char(c) => {
                if c == 'q' {
                    Action::Quit
                } else if c == 'c' && key.control {
                    Action::Quit
                } else if c == 'r' {
                    Action::Refresh
                } else if c == 'k' {
                    Action::KillProcess(true)
                } else if c == 'K' {
                    Action::KillProcess(false)
                } else if c == '/' {
                    self.filter_mode = true;
                    Action::StartFilter
                } else if c == '?' {
                    Action::ToggleHelp
                } else {
                    Action::Nothing
                }
            },
            KeyCode::Up => Action::NavigateUp,
            KeyCode::Down => Action::NavigateDown,
            KeyCode::Enter => Action::SelectItem,
            KeyCode::Esc => Action::ClearFilter,
            _ => Action::Nothing,
        }
    }

    fn handle_filter_key(&mut self, key: KeyEvent) -> (a: Action)
        requires
            old(self).filter_mode(),
        ensures
            match key.code {
                KeyCode::Esc => a is ClearFilter && !final(self).filter_mode(),
                KeyCode::Enter => a is Nothing && !final(self).filter_mode(),
                KeyCode::Backspace => a matches Action::UpdateFilter(s) && s@ == backspace_text()
                    && final(self).filter_mode(),
                KeyCode::Char(c) => a matches Action::UpdateFilter(s) && s@ == seq![c]
                    && final(self).filter_mode(),
                _ => a is Nothing && final(self).filter_mode(),
            },
    {
        match key.code {
            KeyCode::Esc => {
                self.filter_mode = false;
                Action::ClearFilter
            },
            KeyCode::Enter => {
                self.filter_mode = false;
                Action::Nothing
            },
            KeyCode::Backspace => {
                let mut s = String::new();
                push_char(&mut s, '\u{8}');
                Action::UpdateFilter(s)
            },
            KeyCode::Char(c) => {
                let mut s = String::new();
                push_char(&mut s, c);
                Action::UpdateFilter(s)
            },
            _ => Action::Nothing,
        }
    }
}

impl Default for EventHandler {
    fn default() -> (h: Self)
        ensures
            !h.filter_mode(),
    {
        EventHandler::new()
    }
}

} // verus!
