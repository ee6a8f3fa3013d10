//! The editor: the session's data and the executable form of its steps.

use vstd::prelude::*;
use crate::address::{resolve, resolve_address, resolve_token, token_index};
use crate::buffer::{
    copy_range, delete, insert_after, insert_before, join_with_newlines, lines_of, replace,
    size_in_bytes, split_lines, total_length,
};
use crate::error::EditorError;
use crate::model::{Effect, Mode, Placement, State};
use crate::substitution::{split_fields, substitute_first};
use crate::text::{chars_of, find_char, string_of};

verus! {

/// What a step asks its caller to do; `Effect` is its view.
#[derive(Debug, PartialEq, Eq)]
pub enum Action {
    Nothing,
    /// Print these lines, in order.
    Print(Vec<String>),
    /// Print the line number, a tab and the line.
    PrintNumbered(usize, String),
    /// Print the line number.
    PrintNumber(usize),
    /// Read the file of this name and hand its text to `Editor::open_file`.
    Load(String),
    /// Write `content` to the file `path`, report the buffer's size and, with
    /// `quit`, end the session.
    Save { path: String, content: String, quit: bool },
    /// Run this shell command.
    Run(String),
    /// End the session.
    Quit,
}

impl View for Action {
    type V = Effect;

    open spec fn view(&self) -> Effect {
        match *self {
            Action::Nothing => Effect::Nothing,
            Action::Print(lines) => Effect::Print(lines_of(lines@)),
            Action::PrintNumbered(number, line) => Effect::PrintNumbered(number as int, line@),
            Action::PrintNumber(number) => Effect::PrintNumber(number as int),
            Action::Load(path) => Effect::Load(path@),
            Action::Save { path, content, quit } => Effect::Save {
                path: path@,
                content: content@,
                quit,
            },
            Action::Run(command) => Effect::Run(command@),
            Action::Quit => Effect::Quit,
        }
    }
}

/// The outcome of a step over views.
pub open spec fn outcome(r: Result<Action, EditorError>) -> Result<Effect, EditorError> {
    match r {
        Ok(action) => Ok(action@),
        Err(error) => Err(error),
    }
}

/// A session of the editor.
pub struct Editor {
    path: String,
    buffer: Vec<String>,
    current: usize,
    run_command: String,
    mode: Mode,
}

impl View for Editor {
    type V = State;

    closed spec fn view(&self) -> State {
        State {
            path: self.path@,
            buffer: lines_of(self.buffer@),
            current: self.current as int,
            run_command: self.run_command@,
            mode: self.mode,
        }
    }
}

impl Editor {
    /// The invariant of a session, see `State::wf`.
    pub open spec fn wf(&self) -> bool {
        self@.wf()
    }

    /// An editor with an empty buffer, no file name and no remembered command.
    pub fn new() -> (editor: Editor)
        ensures
            editor@ == State::initial(),
            editor.wf(),
    {
        let editor = Editor {
            path: String::new(),
            buffer: Vec::new(),
            current: 0,
            run_command: String::new(),
            mode: Mode::Idle,
        };
        assert(editor@.buffer =~= Seq::<Seq<char>>::empty());
        editor
    }

    /// The file name that was last opened or saved to.
    pub fn path(&self) -> (path: &String)
        ensures
            path@ == self@.path,
    {
        &self.path
    }

    /// The lines under edit.
    pub fn buffer(&self) -> (lines: &Vec<String>)
        ensures
            lines_of(lines@) == self@.buffer,
    {
        &self.buffer
    }

    /// The zero-based index of the current line.
    pub fn current(&self) -> (current: usize)
        ensures
            current == self@.current,
    {
        self.current
    }

    /// The shell command that was last given.
    pub fn remembered_command(&self) -> (command: &String)
        ensures
            command@ == self@.run_command,
    {
        &self.run_command
    }

    /// What the next line of input is taken for.
    pub fn mode(&self) -> (mode: Mode)
        ensures
            mode == self@.mode,
    {
        self.mode
    }

    /// Whether the invariant of a session holds.
    pub fn is_well_formed(&self) -> (b: bool)
        ensures
            b == self.wf(),
    {
        let addressable: bool = self.current < self.buffer.len();
        match self.mode {
            Mode::Idle => self.current <= self.buffer.len(),
            Mode::Capturing(_) => self.buffer.len() == 0 && self.current == 0 || addressable,
            Mode::Changing => addressable,
        }
    }

    /// The size of the buffer: the characters of all its lines, counted.
    pub fn buffer_size(&self) -> (size: u128)
        ensures
            size == total_length(self@.buffer),
    {
        size_in_bytes(&self.buffer)
    }

    /// Resolves one address token against this buffer and cursor. The result
    /// is an index into the buffer; every other token is an invalid address.
    pub fn parse_line_number(&self, s: &str) -> (r: Result<usize, EditorError>)
        ensures
            match token_index(s@, self@.current, self@.buffer.len() as int) {
                Some(i) => r == Ok::<usize, EditorError>(i as usize),
                None => r == Err::<usize, EditorError>(EditorError::InvalidAddress),
            },
            r matches Ok(i) ==> i < self@.buffer.len(),
    {
        let chars = chars_of(s);
        proof {
            assert(chars@.subrange(0, chars@.len() as int) =~= chars@);
        }
        resolve_token(&chars, 0, chars.len(), self.current, self.buffer.len())
    }

    /// Resolves an address, one token or two with a comma between them,
    /// against this buffer and cursor. The result is a range of the buffer,
    /// start first; everything else is an invalid address.
    pub fn parse_address(&self, s: &str) -> (r: Result<(usize, usize), EditorError>)
        ensures
            match resolve(s@, self@.current, self@.buffer.len() as int) {
                Some(range) => r == Ok::<(usize, usize), EditorError>(
                    (range.0 as usize, range.1 as usize),
                ),
                None => r == Err::<(usize, usize), EditorError>(EditorError::InvalidAddress),
            },
            r matches Ok(range) ==> range.0 <= range.1 < self@.buffer.len(),
    {
        let chars = chars_of(s);
        resolve_address(&chars, self.current, self.buffer.len())
    }

    /// The current line as the lines to print.
    pub fn print_current_line(&self) -> (r: Result<Action, EditorError>)
        ensures
            (self@, outcome(r)) == self@.print_current(),
    {
        if self.current < self.buffer.len() {
            let lines = copy_range(&self.buffer, self.current, self.current + 1);
            proof {
                assert(lines_of(lines@) =~= seq![self@.buffer[self@.current]]);
            }
            Ok(Action::Print(lines))
        } else {
            Err(EditorError::InvalidAddress)
        }
    }

    /// The text of the buffer to write to the known file, or `SaveError` where
    /// no file name is known.
    pub fn save_file(&self, quit: bool) -> (r: Result<Action, EditorError>)
        ensures
            (self@, outcome(r)) == self@.save(quit),
    {
        if self.path.as_str().is_empty() {
            Err(EditorError::SaveError)
        } else {
            Ok(
                Action::Save {
                    path: self.path.clone(),
                    content: join_with_newlines(&self.buffer),
                    quit,
                },
            )
        }
    }

    /// Takes the outcome of reading the file `path`: its text, or `None` where
    /// it could not be read. Returns the size of the loaded buffer, or
    /// `LoadError`.
    pub fn open_file(&mut self, path: String, data: Option<String>) -> (r: Result<
        u128,
        EditorError,
    >)
        requires
            old(self).wf(),
        ensures
            final(self).wf(),
            final(self)@ == old(self)@.opened(
                path@,
                match data {
                    Some(text) => Some(text@),
                    None => None,
                },
            ),
            match data {
                Some(text) => r == Ok::<u128, EditorError>(
                    total_length(final(self)@.buffer) as u128,
                ),
                None => r == Err::<u128, EditorError>(EditorError::LoadError),
            },
    {
        self.path = path;
        match data {
            Some(text) => {
                self.buffer = split_lines(text.as_str());
                self.current = if self.buffer.len() == 0 {
                    0
                } else {
                    self.buffer.len() - 1
                };
                self.mode = Mode::Idle;
                Ok(size_in_bytes(&self.buffer))
            },
            None => Err(EditorError::LoadError),
        }
    }

    /// Puts one captured line into the buffer.
    fn capture(&mut self, placement: Placement, text: String)
        requires
            old(self).wf(),
            old(self)@.buffer.len() == 0 || old(self)@.addressable(),
        ensures
            final(self)@ == old(self)@.capture(placement, text@),
            final(self)@.addressable(),
    {
        if self.buffer.len() == 0 {
            self.buffer.push(text);
            assert(self@.buffer =~= seq![text@]);
        } else {
            match placement {
                Placement::After => {
                    insert_after(&mut self.buffer, self.current, text);
                },
                Placement::Before => {
                    insert_before(&mut self.buffer, self.current, text);
                },
            }
            self.current = self.current + 1;
        }
    }

    /// Takes the outcome of a substitution on the current line: the new line,
    /// which replaces the current one and is printed, or the error, which
    /// leaves the editor as it is.
    pub fn apply_replacement(&mut self, replaced: Result<String, EditorError>) -> (r: Result<
        Action,
        EditorError,
    >)
        requires
            old(self).wf(),
        ensures
            final(self).wf(),
            match replaced {
                Ok(text) => (final(self)@, outcome(r)) == if old(self)@.addressable() {
                    old(self)@.replaced(text@)
                } else {
                    old(self)@.rejected(EditorError::InvalidAddress)
                },
                Err(error) => final(self)@ == old(self)@ && r == Err::<Action, EditorError>(error),
            },
    {
        match replaced {
            Ok(text) => {
                if self.current < self.buffer.len() {
                    let mut lines: Vec<String> = Vec::new();
                    lines.push(text.clone());
                    replace(&mut self.buffer, self.current, text);
                    proof {
                        assert(lines_of(lines@) =~= seq![text@]);
                    }
                    Ok(Action::Print(lines))
                } else {
                    Err(EditorError::InvalidAddress)
                }
            },
            Err(error) => Err(error),
        }
    }

    /// The substitute command.
    fn substitute(&mut self, chars: &Vec<char>) -> (r: Result<Action, EditorError>)
        requires
            old(self).wf(),
        ensures
            final(self).wf(),
            !(r matches Err(EditorError::BadPattern)) ==> (final(self)@, outcome(r)) == old(
                self,
            )@.substitute(chars@),
            r matches Err(EditorError::BadPattern) ==> final(self)@ == old(self)@ && old(
                self,
            )@.substitute(chars@).1 is Ok,
    {
        match split_fields(chars) {
            Err(error) => Err(error),
            Ok(found) => {
                if self.current < self.buffer.len() {
                    let replaced = substitute_first(
                        self.buffer[self.current].as_str(),
                        found.0.as_str(),
                        found.1.as_str(),
                    );
                    self.apply_replacement(replaced)
                } else {
                    Err(EditorError::InvalidAddress)
                }
            },
        }
    }

    /// The run command.
    fn run(&mut self, chars: &Vec<char>) -> (r: Result<Action, EditorError>)
        requires
            old(self).wf(),
            chars@.len() > 0,
            chars@[0] == 'r',
        ensures
            (final(self)@, outcome(r)) == old(self)@.run(chars@),
            final(self).wf(),
    {
        let n: usize = chars.len();
        let k: usize = find_char(chars, 0, ' ');
        proof {
            assert(chars@.skip(0) =~= chars@);
        }
        if k < n {
            self.run_command = string_of(chars, 2, n);
            proof {
                assert(chars@.subrange(2, n as int) =~= chars@.skip(2));
            }
        }
        if self.run_command.as_str().is_empty() {
            Err(EditorError::EmptyCommand)
        } else {
            Ok(Action::Run(self.run_command.clone()))
        }
    }

    /// An address as a command.
    fn select(&mut self, chars: &Vec<char>) -> (r: Result<Action, EditorError>)
        requires
            old(self).wf(),
            old(self)@.mode == Mode::Idle,
        ensures
            (final(self)@, outcome(r)) == old(self)@.select(chars@),
            final(self).wf(),
    {
        match resolve_address(chars, self.current, self.buffer.len()) {
            Ok(range) => {
                let lines = copy_range(&self.buffer, range.0, range.1 + 1);
                self.current = range.0;
                Ok(Action::Print(lines))
            },
            Err(error) => Err(error),
        }
    }

    /// A command line.
    fn command(&mut self, chars: &Vec<char>) -> (r: Result<Action, EditorError>)
        requires
            old(self).wf(),
            old(self)@.mode == Mode::Idle,
        ensures
            final(self).wf(),
            !(r matches Err(EditorError::BadPattern)) ==> (final(self)@, outcome(r)) == old(
                self,
            )@.command(chars@),
            r matches Err(EditorError::BadPattern) ==> final(self)@ == old(self)@ && old(
                self,
            )@.command(chars@).1 is Ok && chars@.len() > 0 && chars@[0] == 's',
    {
        let n: usize = chars.len();
        if n == 0 {
            return Ok(Action::Nothing);
        }
        let first: char = chars[0];
        let code: u32 = first as u32;
        let addressable: bool = self.current < self.buffer.len();
        let blank: bool = n >= 2 && chars[1] == ' ';
        if n == 1 && (first == 'a' || first == 'i') {
            if self.buffer.len() == 0 || addressable {
                self.mode = Mode::Capturing(
                    if first == 'a' {
                        Placement::After
                    } else {
                        Placement::Before
                    },
                );
                Ok(Action::Nothing)
            } else {
                Err(EditorError::InvalidAddress)
            }
        } else if n == 1 && first == 'c' {
            if addressable {
                self.mode = Mode::Changing;
                Ok(Action::Nothing)
            } else {
                Err(EditorError::InvalidAddress)
            }
        } else if n == 1 && first == 'd' {
            if addressable {
                delete(&mut self.buffer, self.current);
                Ok(Action::Nothing)
            } else {
                Err(EditorError::InvalidAddress)
            }
        } else if first == 'e' && blank {
            proof {
                assert(chars@.subrange(2, n as int) =~= chars@.skip(2));
            }
            Ok(Action::Load(string_of(chars, 2, n)))
        } else if n == 1 && first == 'n' {
            if addressable {
                Ok(Action::PrintNumbered(self.current + 1, self.buffer[self.current].clone()))
            } else {
                Err(EditorError::InvalidAddress)
            }
        } else if n == 1 && first == 'p' {
            self.print_current_line()
        } else if first == 'r' {
            self.run(chars)
        } else if first == 's' {
            self.substitute(chars)
        } else if n == 1 && first == 'q' {
            Ok(Action::Quit)
        } else if n == 2 && first == 'w' && chars[1] == 'q' {
            self.save_file(true)
        } else if first == 'w' && blank {
            proof {
                assert(chars@.subrange(2, n as int) =~= chars@.skip(2));
            }
            self.path = string_of(chars, 2, n);
            self.save_file(false)
        } else if n == 1 && first == 'w' {
            self.save_file(false)
        } else if (48 <= code && code <= 57) || first == '.' || first == '$' {
            self.select(chars)
        } else if first == '=' {
            if addressable {
                Ok(Action::PrintNumber(self.current + 1))
            } else {
                Err(EditorError::InvalidAddress)
            }
        } else if first == '#' {
            Ok(Action::Nothing)
        } else {
            Err(EditorError::UnknownCommand)
        }
    }

    /// Takes one line of input, without its line ending, and makes the step
    /// that `State::next` describes: the editor goes to the next state, and
    /// the result says what the caller is to do or why the line was refused.
    /// The one thing left open is whether the matcher accepts the pattern of a
    /// substitute command; where it does not, the result is `BadPattern` and
    /// nothing changes.
    pub fn step(&mut self, line: &str) -> (r: Result<Action, EditorError>)
        requires
            old(self).wf(),
        ensures
            final(self).wf(),
            !(r matches Err(EditorError::BadPattern)) ==> (final(self)@, outcome(r)) == old(
                self,
            )@.next(line@),
            r matches Err(EditorError::BadPattern) ==> final(self)@ == old(self)@ && old(
                self,
            )@.next(line@).1 is Ok && old(self)@.mode == Mode::Idle && line@.len() > 0 && line@[0]
                == 's',
    {
        let chars = chars_of(line);
        match self.mode {
            Mode::Idle => self.command(&chars),
            Mode::Capturing(placement) => {
                if chars.len() == 1 && chars[0] == '.' {
                    self.mode = Mode::Idle;
                } else {
                    self.capture(placement, line.to_owned());
                }
                Ok(Action::Nothing)
            },
            Mode::Changing => {
                replace(&mut self.buffer, self.current, line.to_owned());
                self.mode = Mode::Idle;
                Ok(Action::Nothing)
            },
        }
    }
}

} // verus!
