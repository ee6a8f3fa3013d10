//! The editor as a state machine: its state, the effect that a step asks the
//! caller to carry out, and the transition on one line of input.

use vstd::prelude::*;
use crate::address::resolve;
use crate::buffer::{joined, split};
use crate::error::EditorError;
use crate::substitution::{fields, spliced};
use crate::text::{first_index, is_digit};

verus! {

/// Where captured lines go: before the current line or after it.
#[derive(Clone, Copy, Debug, PartialEq, Eq, Structural)]
pub enum Placement {
    Before,
    After,
}

/// What the next line of input is taken for.
#[derive(Clone, Copy, Debug, PartialEq, Eq, Structural)]
pub enum Mode {
    /// A command.
    Idle,
    /// A line of text for the buffer, or the lone `.` that ends the capture.
    Capturing(Placement),
    /// The text that replaces the current line.
    Changing,
}

/// The state of a session.
pub struct State {
    /// The file name that was last opened or saved to; empty until then.
    pub path: Seq<char>,
    /// The lines under edit.
    pub buffer: Seq<Seq<char>>,
    /// The zero-based index of the current line.
    pub current: int,
    /// The shell command that was last given.
    pub run_command: Seq<char>,
    /// What the next line of input is taken for.
    pub mode: Mode,
}

/// What a step asks its caller to do.
pub enum Effect {
    Nothing,
    /// Print these lines, in order.
    Print(Seq<Seq<char>>),
    /// Print the line number, a tab and the line.
    PrintNumbered(int, Seq<char>),
    /// Print the line number.
    PrintNumber(int),
    /// Read the file of this name and hand its text to the editor.
    Load(Seq<char>),
    /// Write `content` to the file `path`, report the buffer's size and, with
    /// `quit`, end the session.
    Save { path: Seq<char>, content: Seq<char>, quit: bool },
    /// Run this shell command.
    Run(Seq<char>),
    /// End the session.
    Quit,
}

/// A state with the outcome of the step that led to it.
pub type Step = (State, Result<Effect, EditorError>);

/// Whether a line that starts with `c` is read as an address.
pub open spec fn starts_address(c: char) -> bool {
    is_digit(c) || c == '.' || c == '$'
}

/// Whether the line is the letter `a` and the letter `b`, and nothing else.
pub open spec fn is_pair(line: Seq<char>, a: char, b: char) -> bool {
    line.len() == 2 && line[0] == a && line[1] == b
}

/// Whether the line starts with the letter `a` and a blank.
pub open spec fn has_argument(line: Seq<char>, a: char) -> bool {
    line.len() >= 2 && line[0] == a && line[1] == ' '
}

/// Whether the line is the one character `c`.
pub open spec fn is_single(line: Seq<char>, c: char) -> bool {
    line.len() == 1 && line[0] == c
}

impl State {
    /// The state at the start of a session.
    pub open spec fn initial() -> State {
        State {
            path: Seq::empty(),
            buffer: Seq::empty(),
            current: 0,
            run_command: Seq::empty(),
            mode: Mode::Idle,
        }
    }

    /// Whether the cursor stands on a line of the buffer.
    pub open spec fn addressable(self) -> bool {
        0 <= self.current < self.buffer.len()
    }

    /// The invariant of a session: the cursor is never more than one past the
    /// last line, and while the editor takes text it stands on a line unless
    /// the buffer is empty (for a changed line: always).
    pub open spec fn wf(self) -> bool {
        &&& 0 <= self.current <= self.buffer.len()
        &&& self.mode != Mode::Idle ==> self.buffer.len() == 0 || self.addressable()
        &&& self.mode == Mode::Changing ==> self.addressable()
    }

    /// The same state, failed with `error`.
    pub open spec fn rejected(self, error: EditorError) -> Step {
        (self, Err(error))
    }

    /// One captured line goes into the buffer: as its only line where it is
    /// empty, else before or after the current line; the cursor moves on by
    /// one.
    pub open spec fn capture(self, placement: Placement, text: Seq<char>) -> State {
        if self.buffer.len() == 0 {
            State { buffer: seq![text], ..self }
        } else {
            match placement {
                Placement::After => State {
                    buffer: self.buffer.insert(self.current + 1, text),
                    current: self.current + 1,
                    ..self
                },
                Placement::Before => State {
                    buffer: self.buffer.insert(self.current, text),
                    current: self.current + 1,
                    ..self
                },
            }
        }
    }

    /// `a` and `i`: the editor starts to take text, unless the buffer has
    /// lines and the cursor stands on none of them.
    pub open spec fn begin_capture(self, placement: Placement) -> Step {
        if self.buffer.len() == 0 || self.addressable() {
            (State { mode: Mode::Capturing(placement), ..self }, Ok(Effect::Nothing))
        } else {
            self.rejected(EditorError::InvalidAddress)
        }
    }

    /// `c`: the next line of input will replace the current line.
    pub open spec fn begin_change(self) -> Step {
        if self.addressable() {
            (State { mode: Mode::Changing, ..self }, Ok(Effect::Nothing))
        } else {
            self.rejected(EditorError::InvalidAddress)
        }
    }

    /// `d`: the current line leaves the buffer; the cursor keeps its index.
    pub open spec fn delete_current(self) -> Step {
        if self.addressable() {
            (State { buffer: self.buffer.remove(self.current), ..self }, Ok(Effect::Nothing))
        } else {
            self.rejected(EditorError::InvalidAddress)
        }
    }

    /// `p`: the current line is printed.
    pub open spec fn print_current(self) -> Step {
        if self.addressable() {
            (self, Ok(Effect::Print(seq![self.buffer[self.current]])))
        } else {
            self.rejected(EditorError::InvalidAddress)
        }
    }

    /// `n`: the current line is printed behind its number, counted from one.
    pub open spec fn print_numbered(self) -> Step {
        if self.addressable() {
            (self, Ok(Effect::PrintNumbered(self.current + 1, self.buffer[self.current])))
        } else {
            self.rejected(EditorError::InvalidAddress)
        }
    }

    /// `=`: the number of the current line is printed, counted from one.
    pub open spec fn print_number(self) -> Step {
        if self.addressable() {
            (self, Ok(Effect::PrintNumber(self.current + 1)))
        } else {
            self.rejected(EditorError::InvalidAddress)
        }
    }

    /// `w` and `wq`: the buffer is handed out to be written to the known file;
    /// without a file name the save is refused.
    pub open spec fn save(self, quit: bool) -> Step {
        if self.path.len() == 0 {
            self.rejected(EditorError::SaveError)
        } else {
            (self, Ok(Effect::Save { path: self.path, content: joined(self.buffer), quit }))
        }
    }

    /// `r`: a command behind the verb is remembered; the remembered command is
    /// run, unless it is empty.
    pub open spec fn run(self, line: Seq<char>) -> Step {
        let next = if first_index(line, ' ') < line.len() {
            State { run_command: line.skip(2), ..self }
        } else {
            self
        };
        if next.run_command.len() == 0 {
            next.rejected(EditorError::EmptyCommand)
        } else {
            (next, Ok(Effect::Run(next.run_command)))
        }
    }

    /// `s`: the first occurrence of the pattern in the current line gives way
    /// to the replacement, and the line is printed.
    pub open spec fn substitute(self, line: Seq<char>) -> Step {
        match fields(line) {
            None => self.rejected(EditorError::MissingDelimiter),
            Some(f) => if self.addressable() {
                self.replaced(spliced(self.buffer[self.current], f.0, f.1))
            } else {
                self.rejected(EditorError::InvalidAddress)
            },
        }
    }

    /// The current line becomes `text` and is printed.
    pub open spec fn replaced(self, text: Seq<char>) -> Step {
        (
            State { buffer: self.buffer.update(self.current, text), ..self },
            Ok(Effect::Print(seq![text])),
        )
    }

    /// An address: its lines are printed and the cursor goes to the first of
    /// them.
    pub open spec fn select(self, line: Seq<char>) -> Step {
        match resolve(line, self.current, self.buffer.len() as int) {
            Some(range) => (
                State { current: range.0, ..self },
                Ok(Effect::Print(self.buffer.subrange(range.0, range.1 + 1))),
            ),
            None => self.rejected(EditorError::InvalidAddress),
        }
    }

    /// The step on a command line.
    pub open spec fn command(self, line: Seq<char>) -> Step {
        if line.len() == 0 {
            (self, Ok(Effect::Nothing))
        } else if is_single(line, 'a') {
            self.begin_capture(Placement::After)
        } else if is_single(line, 'c') {
            self.begin_change()
        } else if is_single(line, 'd') {
            self.delete_current()
        } else if has_argument(line, 'e') {
            (self, Ok(Effect::Load(line.skip(2))))
        } else if is_single(line, 'i') {
            self.begin_capture(Placement::Before)
        } else if is_single(line, 'n') {
            self.print_numbered()
        } else if is_single(line, 'p') {
            self.print_current()
        } else if line[0] == 'r' {
            self.run(line)
        } else if line[0] == 's' {
            self.substitute(line)
        } else if is_single(line, 'q') {
            (self, Ok(Effect::Quit))
        } else if is_pair(line, 'w', 'q') {
            self.save(true)
        } else if has_argument(line, 'w') {
            State { path: line.skip(2), ..self }.save(false)
        } else if is_single(line, 'w') {
            self.save(false)
        } else if starts_address(line[0]) {
            self.select(line)
        } else if line[0] == '=' {
            self.print_number()
        } else if line[0] == '#' {
            (self, Ok(Effect::Nothing))
        } else {
            self.rejected(EditorError::UnknownCommand)
        }
    }

    /// The step on one line of input, whatever the mode.
    pub open spec fn next(self, line: Seq<char>) -> Step {
        match self.mode {
            Mode::Idle => self.command(line),
            Mode::Capturing(placement) => if is_single(line, '.') {
                (State { mode: Mode::Idle, ..self }, Ok(Effect::Nothing))
            } else {
                (self.capture(placement, line), Ok(Effect::Nothing))
            },
            Mode::Changing => (
                State {
                    buffer: self.buffer.update(self.current, line),
                    mode: Mode::Idle,
                    ..self
                },
                Ok(Effect::Nothing),
            ),
        }
    }

    /// The state after a file was opened under `path`: with its text, the
    /// buffer holds the lines of the text and the cursor stands on the last
    /// of them, and the editor takes commands; without, only the file name
    /// changes.
    pub open spec fn opened(self, path: Seq<char>, data: Option<Seq<char>>) -> State {
        match data {
            Some(text) => State {
                path,
                buffer: split(text),
                current: if split(text).len() == 0 {
                    0
                } else {
                    split(text).len() - 1
                },
                mode: Mode::Idle,
                ..self
            },
            None => State { path, ..self },
        }
    }

    /// The state after the lines of `input` were taken one after another.
    pub open spec fn run_all(self, input: Seq<Seq<char>>) -> State
        decreases input.len(),
    {
        if input.len() == 0 {
            self
        } else {
            self.run_all(input.drop_last()).next(input.last()).0
        }
    }
}

} // verus!
