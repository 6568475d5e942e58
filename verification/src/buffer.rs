//! The adaptive line buffer: the lines of a document in order, and a
//! capacity that follows how many of them there are.

use crate::policy::{lemma_reduction_lowers, Factor};
use crate::text::{join_lines, joined, lines_of, split_lines, texts};
use vstd::prelude::*;

verus! {

/// Why the buffer refused an operation.
#[derive(Clone, Copy, Debug, PartialEq, Eq, Structural)]
pub enum BufferError {
    /// The position lies outside the lines of the buffer.
    OutOfRange,
}

/// What a buffer is, mathematically: its lines in document order, its
/// capacity, and the two factors of its capacity policy.
pub struct BufferModel {
    pub lines: Seq<Seq<char>>,
    pub capacity: int,
    pub expansion_factor: Factor,
    pub shrink_factor: Factor,
}

impl BufferModel {
    /// The capacity and the number of lines are what a machine can hold, the
    /// expansion factor is above one and the shrink factor between zero and
    /// one.
    pub open spec fn wf(self) -> bool {
        &&& 0 <= self.capacity <= usize::MAX
        &&& self.lines.len() <= usize::MAX
        &&& self.expansion_factor.spec_is_expansion()
        &&& self.shrink_factor.spec_is_reduction()
    }

    /// The lines fit in the capacity.
    pub open spec fn within_capacity(self) -> bool {
        self.lines.len() <= self.capacity
    }

    /// One more line would not fit in the capacity.
    pub open spec fn expansion_due(self) -> bool {
        self.lines.len() + 1 > self.capacity
    }

    /// The capacity exceeds the shrink factor times the number of lines.
    pub open spec fn shrink_due(self) -> bool {
        self.capacity > self.shrink_factor.of(self.lines.len() as int)
    }

    /// The buffer with the same lines and the grown capacity.
    pub open spec fn expanded(self) -> BufferModel {
        BufferModel { capacity: self.expansion_factor.grown(self.capacity), ..self }
    }

    /// The buffer with the same lines and the capacity scaled down by the
    /// shrink factor.
    pub open spec fn shrunk(self) -> BufferModel {
        BufferModel { capacity: self.shrink_factor.of(self.capacity), ..self }
    }

    /// Whether a line can be inserted at `index`.
    pub open spec fn accepts_insert(self, index: int) -> bool {
        0 <= index <= self.lines.len()
    }

    /// Whether there is a line at `index`.
    pub open spec fn has_line(self, index: int) -> bool {
        0 <= index < self.lines.len()
    }

    /// The buffer after `content` was inserted at `index`: the capacity
    /// grows first where the new line would not fit, then the line takes
    /// its place. A position that accepts no insert leaves the buffer as
    /// it is.
    pub open spec fn insert_line(self, index: int, content: Seq<char>) -> BufferModel {
        if self.accepts_insert(index) {
            let ready = if self.expansion_due() {
                self.expanded()
            } else {
                self
            };
            BufferModel { lines: ready.lines.insert(index, content), ..ready }
        } else {
            self
        }
    }

    /// The buffer after the line at `index` was deleted: the line leaves,
    /// then the capacity shrinks where it exceeds the shrink factor times
    /// what is left. A position without a line leaves the buffer as it is.
    pub open spec fn delete_line(self, index: int) -> BufferModel {
        if self.has_line(index) {
            let removed = BufferModel { lines: self.lines.remove(index), ..self };
            if removed.shrink_due() {
                removed.shrunk()
            } else {
                removed
            }
        } else {
            self
        }
    }

    /// The buffer with the lines of `text` in place of its own.
    pub open spec fn load(self, text: Seq<char>) -> BufferModel {
        BufferModel { lines: lines_of(text), ..self }
    }

    /// The text that the buffer is saved as.
    pub open spec fn serialize(self) -> Seq<char> {
        joined(self.lines)
    }
}

/// An ordered container of text lines with a capacity that grows before an
/// insert would exceed it and shrinks after a delete leaves it too large.
pub struct AdaptiveBuffer {
    lines: Vec<String>,
    capacity: usize,
    expansion_factor: Factor,
    shrink_factor: Factor,
}

impl View for AdaptiveBuffer {
    type V = BufferModel;

    closed spec fn view(&self) -> BufferModel {
        BufferModel {
            lines: texts(self.lines@),
            capacity: self.capacity as int,
            expansion_factor: self.expansion_factor,
            shrink_factor: self.shrink_factor,
        }
    }
}

/// Gives spare room back, through `Vec::shrink_to_fit` of the standard
/// library. The contract claims that the elements stay as they are.
#[verifier::external_body]
fn release_spare_room(lines: &mut Vec<String>)
    ensures
        final(lines)@ == old(lines)@,
{
    lines.shrink_to_fit();
}

impl AdaptiveBuffer {
    /// The buffer is well formed when its model is.
    pub open spec fn wf(&self) -> bool {
        self@.wf()
    }

    /// An empty buffer with the given capacity and policy.
    pub fn new(initial_capacity: usize, expansion_factor: Factor, shrink_factor: Factor) -> (buffer:
        Self)
        requires
            expansion_factor.spec_is_expansion(),
            shrink_factor.spec_is_reduction(),
        ensures
            buffer.wf(),
            buffer@ == (BufferModel {
                lines: Seq::empty(),
                capacity: initial_capacity as int,
                expansion_factor,
                shrink_factor,
            }),
            buffer@.within_capacity(),
    {
        let mut lines: Vec<String> = Vec::new();
        let _ = lines.try_reserve(initial_capacity);
        proof {
            assert(texts(lines@) =~= Seq::<Seq<char>>::empty());
        }
        AdaptiveBuffer { lines, capacity: initial_capacity, expansion_factor, shrink_factor }
    }

    /// The number of lines.
    pub fn len(&self) -> (result: usize)
        ensures
            result == self@.lines.len(),
    {
        self.lines.len()
    }

    /// Whether the buffer holds no line.
    pub fn is_empty(&self) -> (result: bool)
        ensures
            result == (self@.lines.len() == 0),
    {
        self.lines.len() == 0
    }

    /// The current capacity.
    pub fn capacity(&self) -> (result: usize)
        ensures
            result == self@.capacity,
    {
        self.capacity
    }

    /// The factor by which the capacity grows.
    pub fn expansion_factor(&self) -> (result: Factor)
        ensures
            result == self@.expansion_factor,
    {
        self.expansion_factor
    }

    /// The factor by which the capacity shrinks.
    pub fn shrink_factor(&self) -> (result: Factor)
        ensures
            result == self@.shrink_factor,
    {
        self.shrink_factor
    }

    /// The line at `index`, where there is one.
    pub fn line(&self, index: usize) -> (result: Option<&String>)
        ensures
            result is Some <==> self@.has_line(index as int),
            result matches Some(line) ==> line@ == self@.lines[index as int],
    {
        if index < self.lines.len() {
            Some(&self.lines[index])
        } else {
            None
        }
    }

    /// All lines, in document order.
    pub fn lines(&self) -> (result: &Vec<String>)
        ensures
            texts(result@) == self@.lines,
    {
        &self.lines
    }

    /// Grows the capacity by the expansion factor, by one at least, and
    /// asks for room for that many lines. The lines stay as they are.
    pub fn expand_buffer(&mut self)
        requires
            old(self).wf(),
        ensures
            final(self).wf(),
            final(self)@ == old(self)@.expanded(),
            final(self)@.lines == old(self)@.lines,
            old(self)@.capacity < usize::MAX ==> final(self)@.capacity > old(self)@.capacity,
    {
        let new_capacity = self.expansion_factor.grow(self.capacity);
        let len = self.lines.len();
        if new_capacity > len {
            let _ = self.lines.try_reserve(new_capacity - len);
        }
        self.capacity = new_capacity;
    }

    /// Scales the capacity down by the shrink factor and gives spare room
    /// back. The lines stay as they are.
    pub fn shrink_buffer(&mut self)
        requires
            old(self).wf(),
        ensures
            final(self).wf(),
            final(self)@ == old(self)@.shrunk(),
            final(self)@.lines == old(self)@.lines,
    {
        proof {
            lemma_reduction_lowers(self.shrink_factor, self.capacity as int);
        }
        let new_capacity = self.shrink_factor.apply(self.capacity);
        release_spare_room(&mut self.lines);
        self.capacity = new_capacity;
    }

    /// Inserts `content` at `index`, moving the lines from there on one
    /// position later. A position beyond the end is refused and leaves the
    /// buffer as it is.
    pub fn insert_line(&mut self, index: usize, content: String) -> (result: Result<
        (),
        BufferError,
    >)
        requires
            old(self).wf(),
            old(self)@.lines.len() < usize::MAX,
        ensures
            final(self).wf(),
            result is Ok <==> old(self)@.accepts_insert(index as int),
            result is Err ==> result == Err::<(), BufferError>(BufferError::OutOfRange),
            final(self)@ == old(self)@.insert_line(index as int, content@),
            result is Ok ==> final(self)@.lines == old(self)@.lines.insert(index as int, content@),
            result is Err ==> final(self)@ == old(self)@,
            old(self)@.within_capacity() ==> final(self)@.within_capacity(),
            result is Ok && old(self)@.lines.len() >= old(self)@.capacity ==> final(self)@.capacity
                > old(self)@.capacity,
    {
        let len = self.lines.len();
        if index > len {
            return Err(BufferError::OutOfRange);
        }
        if len >= self.capacity {
            self.expand_buffer();
        }
        let ghost before = self.lines@;
        self.lines.insert(index, content);
        proof {
            assert(texts(self.lines@) =~= texts(before).insert(index as int, content@));
        }
        Ok(())
    }

    /// Deletes the line at `index`, moving the lines behind it one position
    /// earlier. A position without a line is refused and leaves the buffer
    /// as it is.
    pub fn delete_line(&mut self, index: usize) -> (result: Result<(), BufferError>)
        requires
            old(self).wf(),
        ensures
            final(self).wf(),
            result is Ok <==> old(self)@.has_line(index as int),
            result is Err ==> result == Err::<(), BufferError>(BufferError::OutOfRange),
            final(self)@ == old(self)@.delete_line(index as int),
            result is Ok ==> final(self)@.lines == old(self)@.lines.remove(index as int),
            result is Err ==> final(self)@ == old(self)@,
            result is Ok ==> (final(self)@.within_capacity() <==> old(self)@.lines.len() - 1
                <= old(self)@.shrink_factor.of(old(self)@.capacity)),
    {
        if index >= self.lines.len() {
            return Err(BufferError::OutOfRange);
        }
        proof {
            lemma_reduction_lowers(self.shrink_factor, self.capacity as int);
            lemma_reduction_lowers(self.shrink_factor, self.lines@.len() - 1);
        }
        let ghost before = self.lines@;
        let _ = self.lines.remove(index);
        proof {
            assert(texts(self.lines@) =~= texts(before).remove(index as int));
        }
        let threshold = self.shrink_factor.apply(self.lines.len());
        if self.capacity > threshold {
            self.shrink_buffer();
        }
        Ok(())
    }

    /// Every line with its position, in document order, positions counted
    /// from zero.
    pub fn display_buffer(&self) -> (entries: Vec<(usize, String)>)
        ensures
            entries@.len() == self@.lines.len(),
            forall|i: int|
                0 <= i < entries@.len() ==> (#[trigger] entries@[i]).0 == i && entries@[i].1@
                    == self@.lines[i],
    {
        let mut entries: Vec<(usize, String)> = Vec::new();
        let mut i: usize = 0;
        while i < self.lines.len()
            invariant
                i <= self.lines@.len(),
                entries@.len() == i,
                forall|j: int|
                    0 <= j < i ==> (#[trigger] entries@[j]).0 == j && entries@[j].1@
                        == self.lines@[j]@,
            decreases self.lines@.len() - i,
        {
            entries.push((i, self.lines[i].clone()));
            i += 1;
        }
        entries
    }

    /// Replaces the lines by those of `text`. Capacity and policy stay as
    /// they are.
    pub fn load(&mut self, text: &str)
        requires
            old(self).wf(),
        ensures
            final(self).wf(),
            final(self)@ == old(self)@.load(text@),
    {
        self.lines = split_lines(text);
        proof {
            assert(self.lines.len() == texts(self.lines@).len());
        }
    }

    /// The text that the buffer is saved as: its lines with a line feed
    /// between each two of them.
    pub fn serialize(&self) -> (text: String)
        ensures
            text@ == self@.serialize(),
    {
        join_lines(&self.lines)
    }
}

} // verus!
