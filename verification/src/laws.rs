//! What holds of the buffer and of a session whatever their lines and
//! their policy are.

use crate::buffer::BufferModel;
use crate::command::{command_argument, command_of, command_word, Command};
use crate::number::{decimal, is_digit, lemma_decimal_denotes, lemma_decimal_reads_back};
use crate::policy::{lemma_growth_progress, lemma_of_nonnegative, lemma_reduction_lowers};
use crate::session::{number_at, Reply, SessionModel};
use crate::text::{back_space, find, lemma_split_then_join, plainly_separated, skip_space, trimmed};
use vstd::prelude::*;

verus! {

/// An insert keeps a well-formed buffer well formed, and lines that fitted
/// in the capacity before it fit after it.
pub proof fn lemma_insert_keeps_within_capacity(buffer: BufferModel, index: int, content: Seq<char>)
    requires
        buffer.wf(),
        buffer.lines.len() < usize::MAX,
        buffer.within_capacity(),
    ensures
        buffer.insert_line(index, content).wf(),
        buffer.insert_line(index, content).within_capacity(),
{
    if buffer.accepts_insert(index) && buffer.expansion_due() {
        lemma_growth_progress(buffer.expansion_factor, buffer.capacity);
    }
}

/// After a delete the lines fit in the capacity exactly when what is left
/// fits in the capacity scaled down by the shrink factor.
pub proof fn lemma_delete_within_capacity(buffer: BufferModel, index: int)
    requires
        buffer.wf(),
        buffer.has_line(index),
    ensures
        buffer.delete_line(index).wf(),
        buffer.delete_line(index).within_capacity() <==> buffer.lines.len() - 1
            <= buffer.shrink_factor.of(buffer.capacity),
{
    let left = buffer.lines.len() - 1;
    lemma_reduction_lowers(buffer.shrink_factor, buffer.capacity);
    lemma_reduction_lowers(buffer.shrink_factor, left);
    lemma_of_nonnegative(buffer.shrink_factor, buffer.capacity);
}

/// One edit of a buffer.
pub enum Edit {
    /// The insert of a line at a position.
    Insert(int, Seq<char>),
    /// The delete of the line at a position.
    Delete(int),
}

/// The buffer after one edit.
pub open spec fn edited(buffer: BufferModel, edit: Edit) -> BufferModel {
    match edit {
        Edit::Insert(index, content) => buffer.insert_line(index, content),
        Edit::Delete(index) => buffer.delete_line(index),
    }
}

/// The buffer after a sequence of edits, the first of them first.
pub open spec fn edited_by(buffer: BufferModel, edits: Seq<Edit>) -> BufferModel
    decreases edits.len(),
{
    if edits.len() == 0 {
        buffer
    } else {
        edited(edited_by(buffer, edits.drop_last()), edits.last())
    }
}

/// Whether an edit can leave the lines within the capacity: an insert
/// where the machine can count one more line, a delete where what it
/// leaves fits in the capacity scaled down by the shrink factor. A delete
/// that is refused changes nothing.
pub open spec fn leaves_room(buffer: BufferModel, edit: Edit) -> bool {
    match edit {
        Edit::Insert(_, _) => buffer.lines.len() < usize::MAX,
        Edit::Delete(index) => buffer.has_line(index) ==> buffer.lines.len() - 1
            <= buffer.shrink_factor.of(buffer.capacity),
    }
}

/// The capacity invariant over the first `count` edits of a sequence.
proof fn lemma_first_edits_keep_within_capacity(
    buffer: BufferModel,
    edits: Seq<Edit>,
    count: int,
)
    requires
        buffer.wf(),
        buffer.within_capacity(),
        0 <= count <= edits.len(),
        forall|k: int|
            0 <= k < edits.len() ==> leaves_room(
                #[trigger] edited_by(buffer, edits.take(k)),
                edits[k],
            ),
    ensures
        edited_by(buffer, edits.take(count)).wf(),
        edited_by(buffer, edits.take(count)).within_capacity(),
    decreases count,
{
    if count > 0 {
        lemma_first_edits_keep_within_capacity(buffer, edits, count - 1);
        let before = edited_by(buffer, edits.take(count - 1));
        let edit = edits[count - 1];
        assert(edits.take(count).drop_last() =~= edits.take(count - 1));
        assert(edits.take(count).last() == edit);
        assert(leaves_room(before, edit));
        match edit {
            Edit::Insert(index, content) => {
                lemma_insert_keeps_within_capacity(before, index, content);
            },
            Edit::Delete(index) => {
                if before.has_line(index) {
                    lemma_delete_within_capacity(before, index);
                }
            },
        }
    }
}

/// The capacity invariant: from a buffer whose lines fit in its capacity,
/// after every edit of a sequence of inserts and deletes the lines fit in
/// the capacity, as long as each edit leaves room.
pub proof fn lemma_edits_keep_within_capacity(buffer: BufferModel, edits: Seq<Edit>)
    requires
        buffer.wf(),
        buffer.within_capacity(),
        forall|k: int|
            0 <= k < edits.len() ==> leaves_room(
                #[trigger] edited_by(buffer, edits.take(k)),
                edits[k],
            ),
    ensures
        forall|k: int|
            0 <= k <= edits.len() ==> (#[trigger] edited_by(buffer, edits.take(k))).wf()
                && edited_by(buffer, edits.take(k)).within_capacity(),
{
    assert forall|k: int| 0 <= k <= edits.len() implies (#[trigger] edited_by(
        buffer,
        edits.take(k),
    )).wf() && edited_by(buffer, edits.take(k)).within_capacity() by {
        lemma_first_edits_keep_within_capacity(buffer, edits, k);
    }
}

/// An insert into a buffer whose lines fill its capacity strictly
/// increases the capacity, also where the expansion factor rounds down to
/// no growth at all.
pub proof fn lemma_insert_at_capacity_grows(buffer: BufferModel, index: int, content: Seq<char>)
    requires
        buffer.wf(),
        buffer.lines.len() < usize::MAX,
        buffer.lines.len() >= buffer.capacity,
        buffer.accepts_insert(index),
    ensures
        buffer.insert_line(index, content).capacity > buffer.capacity,
{
    lemma_growth_progress(buffer.expansion_factor, buffer.capacity);
}

/// Shrinking changes the capacity only: every line stays, at its position.
pub proof fn lemma_shrink_keeps_lines(buffer: BufferModel)
    ensures
        buffer.shrunk().lines == buffer.lines,
        buffer.shrunk().expansion_factor == buffer.expansion_factor,
        buffer.shrunk().shrink_factor == buffer.shrink_factor,
{
}

/// A delete takes out the line at its position and no other, whether or
/// not the capacity shrinks: the lines before it stay where they were, the
/// lines behind it move one position earlier.
pub proof fn lemma_delete_keeps_other_lines(buffer: BufferModel, index: int)
    requires
        buffer.has_line(index),
    ensures
        buffer.delete_line(index).lines == buffer.lines.remove(index),
        buffer.delete_line(index).lines.len() == buffer.lines.len() - 1,
        forall|i: int|
            0 <= i < index ==> buffer.delete_line(index).lines[i] == buffer.lines[i],
        forall|i: int|
            index <= i < buffer.lines.len() - 1 ==> buffer.delete_line(index).lines[i]
                == buffer.lines[i + 1],
{
}

/// After an insert the new line is read at the position it was inserted
/// at, the lines before it stay where they were, and the lines from that
/// position on are found one position later.
pub proof fn lemma_insert_then_read(buffer: BufferModel, index: int, content: Seq<char>)
    requires
        buffer.accepts_insert(index),
    ensures
        buffer.insert_line(index, content).lines.len() == buffer.lines.len() + 1,
        buffer.insert_line(index, content).lines[index] == content,
        forall|i: int|
            0 <= i < index ==> buffer.insert_line(index, content).lines[i] == buffer.lines[i],
        forall|i: int|
            index <= i < buffer.lines.len() ==> buffer.insert_line(index, content).lines[i + 1]
                == buffer.lines[i],
{
}

/// Loading a text that does not end in a line feed and in which no line
/// feed follows a carriage return, then saving the buffer, gives the text
/// back.
pub proof fn lemma_load_then_serialize(buffer: BufferModel, text: Seq<char>)
    requires
        plainly_separated(text),
    ensures
        buffer.load(text).serialize() == text,
{
    lemma_split_then_join(text);
}

/// A delete at the position behind the last line and an insert one
/// position further are both refused, and leave the buffer as it is.
pub proof fn lemma_out_of_range_rejected(buffer: BufferModel, content: Seq<char>)
    ensures
        !buffer.has_line(buffer.lines.len() as int),
        buffer.delete_line(buffer.lines.len() as int) == buffer,
        !buffer.accepts_insert(buffer.lines.len() as int + 1),
        buffer.insert_line(buffer.lines.len() as int + 1, content) == buffer,
{
}

/// The delete command as it is typed for the line number `number`.
pub open spec fn delete_input(number: nat) -> Seq<char> {
    seq!['d', ' '] + decimal(number)
}

/// The delete command typed with a line number in decimal notation is read
/// as the delete of that line number.
pub proof fn lemma_typed_number_is_read(number: nat)
    requires
        1 <= number <= usize::MAX,
    ensures
        command_of(delete_input(number)) == Command::Delete(number as usize),
{
    let digits = decimal(number);
    let input = delete_input(number);
    lemma_decimal_denotes(number);
    lemma_decimal_reads_back(number);
    let len = input.len() as int;
    assert(input[0] == 'd' && input[1] == ' ');
    assert(input[len - 1] == digits[digits.len() - 1]);
    assert(is_digit(digits[digits.len() - 1]));
    assert(skip_space(input, 0) == 0);
    assert(back_space(input, len) == len);
    assert(trimmed(input) =~= input);
    assert(find(input, ' ', 0) == 1) by {
        assert(find(input, ' ', 1) == 1);
    }
    assert(command_word(input) =~= seq!['d']);
    assert(seq!['d'] != seq!['q'] && seq!['d'] != seq!['n'] && seq!['d'] != seq!['a']) by {
        assert(seq!['d'][0] == 'd');
        assert(seq!['q'][0] == 'q');
        assert(seq!['n'][0] == 'n');
        assert(seq!['a'][0] == 'a');
    }
    assert(input.subrange(2, len) =~= digits);
    assert(command_argument(input) == Some(digits));
}

/// The numbers of a listing are those that the delete command takes: in a
/// session that awaits a command, the delete command typed with the number
/// under which a line is listed takes out that line and no other.
pub proof fn lemma_delete_by_listed_number(session: SessionModel, position: int)
    requires
        session.wf(),
        !session.appending,
        session.buffer.has_line(position),
    ensures
        session.reply(delete_input(number_at(position) as nat)) == Reply::Continue,
        session.next(delete_input(number_at(position) as nat)).buffer.lines
            == session.buffer.lines.remove(position),
        session.next(delete_input(number_at(position) as nat)).pending == session.pending,
        !session.next(delete_input(number_at(position) as nat)).appending,
{
    lemma_typed_number_is_read(number_at(position) as nat);
}

} // verus!
