//! A generic forward-only cursor over a fixed sequence of elements, shared by
//! the lexer (over characters) and the parser (over tokens).

use vstd::prelude::*;

verus! {

/// A forward-only cursor over a fixed sequence of elements.
///
/// `peek` and `next` are safe at or past the end of the sequence; `skip`
/// demands that the stream is not yet exhausted, so a `skip` past the end is
/// a caller bug, not a data fault.
pub struct Stream<T: Clone> {
    ary: Vec<T>,
    pos: usize,
}

impl<T: Clone> Stream<T> {
    /// The fixed sequence of elements the stream ranges over.
    pub closed spec fn elems(self) -> Seq<T> {
        self.ary@
    }

    /// The current position of the cursor.
    pub closed spec fn spec_pos(self) -> int {
        self.pos as int
    }

    /// The stream is exhausted exactly when the position is at or past the
    /// end of the sequence.
    pub open spec fn spec_is_exhausted(self) -> bool {
        self.spec_pos() >= self.elems().len()
    }

    /// Positions the cursor at index 0 over the given elements.
    pub fn new(ary: Vec<T>) -> (s: Self)
        ensures
            s.elems() == ary@,
            s.spec_pos() == 0,
    {
        Self { ary, pos: 0 }
    }

    pub fn get_pos(&self) -> (p: usize)
        ensures
            p == self.spec_pos(),
    {
        self.pos
    }

    /// Returns the element at the current position without advancing, or
    /// `None` when the stream is exhausted.
    pub fn peek(&self) -> (r: Option<T>)
        ensures
            match r {
                Some(t) => !self.spec_is_exhausted() && cloned(
                    self.elems()[self.spec_pos()],
                    t,
                ),
                None => self.spec_is_exhausted(),
            },
    {
        if self.pos < self.ary.len() {
            Some(self.ary[self.pos].clone())
        } else {
            None
        }
    }

    /// Advances the position by exactly one. Callers must check for
    /// exhaustion first: skipping past the end is a precondition violation.
    pub fn skip(&mut self)
        requires
            !old(self).spec_is_exhausted(),
        ensures
            final(self).elems() == old(self).elems(),
            final(self).spec_pos() == old(self).spec_pos() + 1,
    {
        proof {
            assert(self.ary.len() == self.ary@.len());
        }
        self.pos = self.pos + 1;
    }

    /// Returns the element at the current position (or `None` when already
    /// exhausted) and unconditionally advances the position by one.
    pub fn next(&mut self) -> (r: Option<T>)
        requires
            old(self).spec_pos() < usize::MAX,
        ensures
            final(self).elems() == old(self).elems(),
            final(self).spec_pos() == old(self).spec_pos() + 1,
            match r {
                Some(t) => !old(self).spec_is_exhausted() && cloned(
                    old(self).elems()[old(self).spec_pos()],
                    t,
                ),
                None => old(self).spec_is_exhausted(),
            },
    {
        let res = self.peek();
        self.pos = self.pos + 1;
        res
    }

    /// True exactly when the position is at or beyond the sequence length.
    pub fn is_exhausted(&self) -> (b: bool)
        ensures
            b == self.spec_is_exhausted(),
    {
        self.pos >= self.ary.len()
    }
}

impl<T: Clone + DeepView> Stream<T> {
    /// The elements of the stream, each taken to its mathematical view.
    pub open spec fn deep_elems(self) -> Seq<T::V> {
        self.elems().map(|i: int, t: T| t.deep_view())
    }
}

/// A stream's position is never negative.
pub broadcast proof fn lemma_stream_pos_nonneg<T: Clone>(s: Stream<T>)
    ensures
        #[trigger] s.spec_pos() >= 0,
{
}

/// The deep elements of a stream are the views of its elements, index by
/// index.
pub broadcast proof fn lemma_stream_deep_elems<T: Clone + DeepView>(s: Stream<T>)
    ensures
        (#[trigger] s.deep_elems()).len() == s.elems().len(),
        forall|i: int| 0 <= i < s.elems().len() ==> s.deep_elems()[i] == s.elems()[i].deep_view(),
{
}

} // verus!
