use vstd::prelude::*;

use crate::state::{InputState, ShellState};

verus! {

/// A key press, as the input line sees it.
#[derive(Debug, Clone, Copy, PartialEq, Eq, Structural)]
pub enum Key {
    /// A character typed without modifier.
    Char(char),
    /// A character typed with the control key.
    Ctrl(char),
    Up,
    Down,
    Left,
    Right,
    Enter,
    Backspace,
    /// Any other key.
    Other,
}

/// `c` with an ASCII lowercase letter turned uppercase.
pub open spec fn upper(c: char) -> char {
    if 'a' <= c && c <= 'z' {
        ((c as u32 - 32) as u8) as char
    } else {
        c
    }
}

pub fn to_upper(c: char) -> (r: char)
    ensures
        r == upper(c),
{
    if 'a' <= c && c <= 'z' {
        ((c as u8) - 32) as char
    } else {
        c
    }
}

/// The line being typed, and the cursor as a position among its characters.
#[derive(Debug, Clone)]
pub struct Input {
    pub user_input: Vec<char>,
    pub cursor: usize,
    pub state: InputState,
}

impl Input {
    pub open spec fn wf(&self) -> bool {
        self.cursor <= self.user_input@.len()
    }

    pub fn new() -> (r: Input)
        ensures
            r.wf(),
            r.user_input@.len() == 0,
            r.cursor == 0,
            r.state == InputState::NONE,
    {
        Input { user_input: Vec::new(), cursor: 0, state: InputState::NONE }
    }

    /// Applies a key press. A control key writes `^` and the uppercase letter at the end
    /// of the line; control-d asks the session to end and control-c starts a new line.
    pub fn input(&mut self, key: Key, state: &mut ShellState)
        requires
            old(self).wf(),
            old(self).user_input@.len() + 2 < usize::MAX,
        ensures
            final(self).wf(),
            final(state).commands == old(state).commands,
            final(state).envs == old(state).envs,
            final(state).is_exit == (old(state).is_exit || key == Key::Ctrl('d')),
            match key {
                Key::Char(c) => final(self).user_input@ == old(self).user_input@.insert(
                    old(self).cursor as int,
                    c,
                ) && final(self).cursor == old(self).cursor + 1 && final(self).state
                    == InputState::NONE,
                Key::Ctrl(c) => final(self).user_input@ == old(self).user_input@ + seq![
                    '^',
                    upper(c),
                ] && final(self).cursor == old(self).cursor && final(self).state == (if c == 'c' {
                    InputState::NewLine
                } else {
                    InputState::NONE
                }),
                Key::Up => final(self).user_input == old(self).user_input && final(self).cursor
                    == old(self).cursor && final(self).state == InputState::Up,
                Key::Down => final(self).user_input == old(self).user_input && final(self).cursor
                    == old(self).cursor && final(self).state == InputState::Down,
                Key::Left => final(self).user_input == old(self).user_input && final(self).cursor
                    == (if old(self).cursor > 0 {
                    old(self).cursor - 1
                } else {
                    0
                }) && final(self).state == InputState::NONE,
                Key::Right => final(self).user_input == old(self).user_input && final(self).cursor
                    == (if old(self).cursor < old(self).user_input@.len() {
                    old(self).cursor + 1
                } else {
                    old(self).cursor as int
                }) && final(self).state == InputState::NONE,
                Key::Enter => final(self).user_input == old(self).user_input && final(self).cursor
                    == old(self).cursor && final(self).state == InputState::Execute,
                Key::Backspace => {
                    let c = if old(self).cursor > 0 {
                        old(self).cursor - 1
                    } else {
                        0
                    };
                    &&& final(self).cursor == c
                    &&& final(self).user_input@ == if old(self).cursor > 0 {
                        old(self).user_input@.remove(c)
                    } else {
                        old(self).user_input@
                    }
                    &&& final(self).state == InputState::NONE
                },
                Key::Other => final(self).user_input == old(self).user_input && final(self).cursor
                    == old(self).cursor && final(self).state == InputState::NONE,
            },
    {
        self.state = InputState::NONE;
        match key {
            Key::Ctrl(c) => self.ctrl(c, state),
            _ => self.normal_input(key),
        }
    }

    /// Empties the line.
    pub fn clear(&mut self)
        ensures
            final(self).wf(),
            final(self).user_input@.len() == 0,
            final(self).cursor == 0,
            final(self).state == old(self).state,
    {
        self.cursor = 0;
        self.user_input.clear();
    }

    fn ctrl(&mut self, c: char, state: &mut ShellState)
        requires
            old(self).wf(),
            old(self).user_input@.len() + 2 < usize::MAX,
        ensures
            final(self).wf(),
            final(state).commands == old(state).commands,
            final(state).envs == old(state).envs,
            final(state).is_exit == (old(state).is_exit || c == 'd'),
            final(self).user_input@ == old(self).user_input@ + seq!['^', upper(c)],
            final(self).cursor == old(self).cursor,
            final(self).state == (if c == 'c' {
                InputState::NewLine
            } else {
                old(self).state
            }),
    {
        self.user_input.push('^');
        self.user_input.push(to_upper(c));
        assert(self.user_input@ =~= old(self).user_input@ + seq!['^', upper(c)]);
        if c == 'd' {
            state.exit();
        } else if c == 'c' {
            self.state = InputState::NewLine;
        }
    }

    fn normal_input(&mut self, key: Key)
        requires
            old(self).wf(),
            old(self).user_input@.len() + 2 < usize::MAX,
            old(self).state == InputState::NONE,
            !(key is Ctrl),
        ensures
            final(self).wf(),
            match key {
                Key::Char(c) => final(self).user_input@ == old(self).user_input@.insert(
                    old(self).cursor as int,
                    c,
                ) && final(self).cursor == old(self).cursor + 1 && final(self).state
                    == InputState::NONE,
                Key::Up => final(self).user_input == old(self).user_input && final(self).cursor
                    == old(self).cursor && final(self).state == InputState::Up,
                Key::Down => final(self).user_input == old(self).user_input && final(self).cursor
                    == old(self).cursor && final(self).state == InputState::Down,
                Key::Left => final(self).user_input == old(self).user_input && final(self).cursor
                    == (if old(self).cursor > 0 {
                    old(self).cursor - 1
                } else {
                    0
                }) && final(self).state == InputState::NONE,
                Key::Right => final(self).user_input == old(self).user_input && final(self).cursor
                    == (if old(self).cursor < old(self).user_input@.len() {
                    old(self).cursor + 1
                } else {
                    old(self).cursor as int
                }) && final(self).state == InputState::NONE,
                Key::Enter => final(self).user_input == old(self).user_input && final(self).cursor
                    == old(self).cursor && final(self).state == InputState::Execute,
                Key::Backspace => {
                    let c = if old(self).cursor > 0 {
                        old(self).cursor - 1
                    } else {
                        0
                    };
                    &&& final(self).cursor == c
                    &&& final(self).user_input@ == if old(self).cursor > 0 {
                        old(self).user_input@.remove(c)
                    } else {
                        old(self).user_input@
                    }
                    &&& final(self).state == InputState::NONE
                },
                _ => final(self).user_input == old(self).user_input && final(self).cursor == old(
                    self,
                ).cursor && final(self).state == InputState::NONE,
            },
    {
        match key {
            Key::Char(c) => {
                self.user_input.insert(self.cursor, c);
                self.cursor = self.cursor + 1;
            },
            Key::Up => self.state = InputState::Up,
            Key::Down => self.state = InputState::Down,
            Key::Left => self.left(),
            Key::Right => self.right(),
            Key::Enter => self.state = InputState::Execute,
            Key::Backspace => {
                if self.cursor > 0 {
                    self.left();
                    self.user_input.remove(self.cursor);
                }
            },
            _ => {},
        }
    }

    /// Moves the cursor one character back, if it can.
    fn left(&mut self)
        requires
            old(self).wf(),
        ensures
            final(self).wf(),
            final(self).user_input == old(self).user_input,
            final(self).state == old(self).state,
            final(self).cursor == (if old(self).cursor > 0 {
                old(self).cursor - 1
            } else {
                0
            }),
    {
        if self.cursor != 0 {
            self.cursor = self.cursor - 1;
        }
    }

    /// Moves the cursor one character on, if it can.
    fn right(&mut self)
        requires
            old(self).wf(),
        ensures
            final(self).wf(),
            final(self).user_input == old(self).user_input,
            final(self).state == old(self).state,
            final(self).cursor == (if old(self).cursor < old(self).user_input@.len() {
                old(self).cursor + 1
            } else {
                old(self).cursor as int
            }),
    {
        if self.cursor < self.user_input.len() {
            self.cursor = self.cursor + 1;
        }
    }
}

} // verus!
