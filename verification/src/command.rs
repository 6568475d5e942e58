//! The commands of the editor and how a line of input is read as one.

use crate::number::{index_of, parse_number_in};
use crate::text::{chars_of, find, find_char, trim, trimmed};
use vstd::prelude::*;

verus! {

/// What a line of input asks for.
#[derive(Clone, Copy, Debug, PartialEq, Eq, Structural)]
pub enum Command {
    /// Leave the editor.
    Quit,
    /// Show every line with its number.
    List,
    /// Take the lines that follow as a block to append.
    Append,
    /// Delete the line with this number; line numbers start at one.
    Delete(usize),
    /// A delete without a line number that can be read.
    DeleteUsage,
    /// Anything else.
    Unknown,
}

/// The command word of a line of input: the input without the white space
/// around it, up to its first space.
pub open spec fn command_word(input: Seq<char>) -> Seq<char> {
    let line = trimmed(input);
    line.subrange(0, find(line, ' ', 0))
}

/// What follows the first space behind the command word, where there is
/// such a space.
pub open spec fn command_argument(input: Seq<char>) -> Option<Seq<char>> {
    let line = trimmed(input);
    let space = find(line, ' ', 0);
    if space < line.len() {
        Some(line.subrange(space + 1, line.len() as int))
    } else {
        None
    }
}

/// The delete command that an argument makes: the argument has to be there
/// and to denote a line number, which is one at least.
pub open spec fn delete_command(argument: Option<Seq<char>>) -> Command {
    match argument {
        Some(text) => match index_of(text) {
            Some(number) => if number >= 1 {
                Command::Delete(number)
            } else {
                Command::DeleteUsage
            },
            None => Command::DeleteUsage,
        },
        None => Command::DeleteUsage,
    }
}

/// The command that a line of input denotes. Only the command word decides
/// between the commands; what follows it matters to the delete command
/// alone.
pub open spec fn command_of(input: Seq<char>) -> Command {
    let word = command_word(input);
    if word == seq!['q'] {
        Command::Quit
    } else if word == seq!['n'] {
        Command::List
    } else if word == seq!['a'] {
        Command::Append
    } else if word == seq!['d'] {
        delete_command(command_argument(input))
    } else {
        Command::Unknown
    }
}

/// Reads a line of input as a command.
pub fn parse_command(input: &str) -> (command: Command)
    ensures
        command == command_of(input@),
{
    let line = trim(input);
    let chars = chars_of(line.as_str());
    let space = find_char(&chars, ' ', 0);
    let ghost word = command_word(input@);
    proof {
        assert(word.len() == space);
        if space == 1 {
            assert(word =~= seq![chars@[0]]);
            assert(seq![chars@[0]][0] == chars@[0]);
        }
    }
    if space != 1 {
        proof {
            assert(seq!['q'].len() == 1 && seq!['n'].len() == 1 && seq!['a'].len() == 1 && seq![
                'd',
            ].len() == 1);
        }
        return Command::Unknown;
    }
    let letter = chars[0];
    proof {
        assert(word == seq!['q'] <==> letter == 'q') by {
            assert(seq!['q'][0] == 'q');
        }
        assert(word == seq!['n'] <==> letter == 'n') by {
            assert(seq!['n'][0] == 'n');
        }
        assert(word == seq!['a'] <==> letter == 'a') by {
            assert(seq!['a'][0] == 'a');
        }
        assert(word == seq!['d'] <==> letter == 'd') by {
            assert(seq!['d'][0] == 'd');
        }
    }
    if letter == 'q' {
        Command::Quit
    } else if letter == 'n' {
        Command::List
    } else if letter == 'a' {
        Command::Append
    } else if letter == 'd' {
        if space < chars.len() {
            match parse_number_in(&chars, space + 1, chars.len()) {
                Some(number) => if number >= 1 {
                    Command::Delete(number)
                } else {
                    Command::DeleteUsage
                },
                None => Command::DeleteUsage,
            }
        } else {
            Command::DeleteUsage
        }
    } else {
        Command::Unknown
    }
}

} // verus!
