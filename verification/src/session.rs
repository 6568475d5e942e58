//! An editing session: the buffer, the block that is being typed in, and
//! the step that takes one line of input.

use crate::buffer::{AdaptiveBuffer, BufferModel};
use crate::command::{command_of, parse_command, Command};
use crate::style::{display_line, is_display_line};
use crate::text::{join_lines, joined, texts, trim, trimmed};
use vstd::prelude::*;

verus! {

/// What the caller of a step is to do next.
#[derive(Clone, Copy, Debug, PartialEq, Eq, Structural)]
pub enum Reply {
    /// Leave the loop and save the buffer.
    Quit,
    /// Nothing to show; read the next line.
    Continue,
    /// Show the listing of the buffer.
    List,
    /// Tell the user how the delete command is used.
    DeleteUsage,
    /// Tell the user that the command is not known.
    InvalidCommand,
    /// Tell the user that there is no line with the number given.
    OutOfRange,
}

/// The line that ends a block of lines to append.
pub open spec fn end_of_block() -> Seq<char> {
    seq!['.']
}

/// The position in the buffer of the line with the number `number`. Line
/// numbers start at one, positions at zero: this is where the two meet.
pub open spec fn position_of(number: int) -> int {
    number - 1
}

/// The number of the line at the position `position`.
pub open spec fn number_at(position: int) -> int {
    position + 1
}

/// What a session is, mathematically: the buffer, the lines typed so far
/// into a block, and whether a block is being typed.
pub struct SessionModel {
    pub buffer: BufferModel,
    pub pending: Seq<Seq<char>>,
    pub appending: bool,
}

impl SessionModel {
    /// The buffer is well formed.
    pub open spec fn wf(self) -> bool {
        self.buffer.wf()
    }

    /// The session after the line `input`.
    ///
    /// While a block is typed, a line that is a single dot, white space
    /// around it set aside, ends the block: its lines, joined by line
    /// feeds, become one new line at the end of the buffer. Any other line
    /// joins the block, without the white space around it.
    ///
    /// Otherwise the line is a command. Append opens an empty block, delete
    /// takes out the line with the number given, and every other command
    /// leaves the session as it is.
    pub open spec fn next(self, input: Seq<char>) -> SessionModel {
        if self.appending {
            let line = trimmed(input);
            if line == end_of_block() {
                SessionModel {
                    buffer: self.buffer.insert_line(
                        self.buffer.lines.len() as int,
                        joined(self.pending),
                    ),
                    pending: Seq::empty(),
                    appending: false,
                }
            } else {
                SessionModel { pending: self.pending.push(line), ..self }
            }
        } else {
            match command_of(input) {
                Command::Append => SessionModel { pending: Seq::empty(), appending: true, ..self },
                Command::Delete(number) => SessionModel {
                    buffer: self.buffer.delete_line(position_of(number as int)),
                    ..self
                },
                _ => self,
            }
        }
    }

    /// The reply to the line `input`.
    pub open spec fn reply(self, input: Seq<char>) -> Reply {
        if self.appending {
            Reply::Continue
        } else {
            match command_of(input) {
                Command::Quit => Reply::Quit,
                Command::List => Reply::List,
                Command::Append => Reply::Continue,
                Command::Delete(number) => if self.buffer.has_line(position_of(number as int)) {
                    Reply::Continue
                } else {
                    Reply::OutOfRange
                },
                Command::DeleteUsage => Reply::DeleteUsage,
                Command::Unknown => Reply::InvalidCommand,
            }
        }
    }
}

/// An editing session over one buffer.
pub struct Session {
    buffer: AdaptiveBuffer,
    pending: Vec<String>,
    appending: bool,
}

impl View for Session {
    type V = SessionModel;

    closed spec fn view(&self) -> SessionModel {
        SessionModel {
            buffer: self.buffer@,
            pending: texts(self.pending@),
            appending: self.appending,
        }
    }
}

impl Session {
    /// The session is well formed when its model is.
    pub open spec fn wf(&self) -> bool {
        self@.wf()
    }

    /// A session over `buffer` that awaits a command.
    pub fn new(buffer: AdaptiveBuffer) -> (session: Session)
        requires
            buffer.wf(),
        ensures
            session.wf(),
            session@ == (SessionModel {
                buffer: buffer@,
                pending: Seq::empty(),
                appending: false,
            }),
    {
        let pending: Vec<String> = Vec::new();
        proof {
            assert(texts(pending@) =~= Seq::<Seq<char>>::empty());
        }
        Session { buffer, pending, appending: false }
    }

    /// The buffer of the session.
    pub fn buffer(&self) -> (buffer: &AdaptiveBuffer)
        ensures
            buffer@ == self@.buffer,
    {
        &self.buffer
    }

    /// Ends the session and hands its buffer out.
    pub fn into_buffer(self) -> (buffer: AdaptiveBuffer)
        ensures
            buffer@ == self@.buffer,
    {
        self.buffer
    }

    /// Whether a block of lines is being typed, so that the next line is
    /// no command.
    pub fn is_appending(&self) -> (result: bool)
        ensures
            result == self@.appending,
    {
        self.appending
    }

    /// Takes one line of input and says what to do next.
    pub fn step(&mut self, input: &str) -> (reply: Reply)
        requires
            old(self).wf(),
            old(self)@.appending ==> old(self)@.buffer.lines.len() < usize::MAX,
        ensures
            final(self).wf(),
            final(self)@ == old(self)@.next(input@),
            reply == old(self)@.reply(input@),
    {
        if self.appending {
            let line = trim(input);
            if is_end_of_block(line.as_str()) {
                let block = join_lines(&self.pending);
                let end = self.buffer.len();
                let _ = self.buffer.insert_line(end, block);
                self.pending = Vec::new();
                self.appending = false;
                proof {
                    assert(texts(self.pending@) =~= Seq::<Seq<char>>::empty());
                }
            } else {
                let ghost before = self.pending@;
                self.pending.push(line);
                proof {
                    assert(texts(self.pending@) =~= texts(before).push(trimmed(input@)));
                }
            }
            Reply::Continue
        } else {
            match parse_command(input) {
                Command::Quit => Reply::Quit,
                Command::List => Reply::List,
                Command::Append => {
                    self.pending = Vec::new();
                    self.appending = true;
                    proof {
                        assert(texts(self.pending@) =~= Seq::<Seq<char>>::empty());
                    }
                    Reply::Continue
                },
                Command::Delete(number) => {
                    if number == 0 {
                        Reply::OutOfRange
                    } else {
                        match self.buffer.delete_line(number - 1) {
                            Ok(()) => Reply::Continue,
                            Err(_) => Reply::OutOfRange,
                        }
                    }
                },
                Command::DeleteUsage => Reply::DeleteUsage,
                Command::Unknown => Reply::InvalidCommand,
            }
        }
    }

    /// The listing of the buffer: one text for each line, the number of
    /// the line in front of it. Line numbers start at one, as they do for
    /// the delete command.
    pub fn listing(&self) -> (shown: Vec<String>)
        ensures
            shown@.len() == self@.buffer.lines.len(),
            forall|i: int|
                0 <= i < shown@.len() ==> is_display_line(
                    (#[trigger] shown@[i])@,
                    number_at(i) as nat,
                    self@.buffer.lines[i],
                ),
    {
        let lines = self.buffer.lines();
        let mut shown: Vec<String> = Vec::new();
        let mut i: usize = 0;
        while i < lines.len()
            invariant
                i <= lines@.len(),
                texts(lines@) == self@.buffer.lines,
                shown@.len() == i,
                forall|j: int|
                    0 <= j < i ==> is_display_line(
                        (#[trigger] shown@[j])@,
                        number_at(j) as nat,
                        self@.buffer.lines[j],
                    ),
            decreases lines@.len() - i,
        {
            proof {
                assert(texts(lines@)[i as int] == lines@[i as int]@);
            }
            shown.push(display_line(i + 1, lines[i].as_str()));
            i += 1;
        }
        shown
    }
}

/// Whether a line, taken without the white space around it, ends a block.
pub fn is_end_of_block(line: &str) -> (result: bool)
    ensures
        result == (line@ == end_of_block()),
{
    let chars = crate::text::chars_of(line);
    proof {
        if chars@.len() == 1 && chars@[0] == '.' {
            assert(line@ =~= end_of_block());
        }
        if line@ == end_of_block() {
            assert(end_of_block().len() == 1 && end_of_block()[0] == '.');
        }
    }
    chars.len() == 1 && chars[0] == '.'
}

impl Reply {
    /// The text that the user is shown for the reply, where it has one.
    pub open spec fn spec_message(self) -> Option<Seq<char>> {
        match self {
            Reply::DeleteUsage => Some("Invalid command. Usage: d <line number>"@),
            Reply::InvalidCommand => Some("Invalid command"@),
            Reply::OutOfRange => Some("Line number out of range"@),
            _ => None,
        }
    }

    /// The text to show the user for the reply, where it has one.
    pub fn message(&self) -> (text: Option<&'static str>)
        ensures
            text is Some <==> self.spec_message() is Some,
            text matches Some(t) ==> Some(t@) == self.spec_message(),
    {
        match self {
            Reply::DeleteUsage => Some("Invalid command. Usage: d <line number>"),
            Reply::InvalidCommand => Some("Invalid command"),
            Reply::OutOfRange => Some("Line number out of range"),
            _ => None,
        }
    }
}

} // verus!
