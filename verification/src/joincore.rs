//! The sorted merge of two ascending sequences, one step at a time.
//!
//! The left sequence is handed in element by element; the right one is held
//! here. Each step looks at the current left element and the head of the
//! right sequence, and says how the two stand to each other.

use vstd::prelude::*;
use core::cmp::Ordering;

verus! {

/// How the left element stands to the head of the right sequence.
pub enum Join<T> {
    /// The right sequence is used up, or its head is ahead of the left
    /// element. Nothing is consumed: the left side may proceed.
    Next,
    /// The head of the right sequence is behind the left element. The head
    /// has been discarded; the left element has not been consumed.
    Stop,
    /// The head of the right sequence equals the left element. The head has
    /// been consumed and is handed out.
    Match(T),
}

/// The right side of a merge: an ascending sequence and how far it has
/// been consumed.
pub struct JoinCore<'a, R> {
    right: &'a [R],
    pos: usize,
}

impl<'a, R> Clone for JoinCore<'a, R> {
    fn clone(&self) -> (r: Self)
        ensures
            r == *self,
    {
        proof {
            use_type_invariant(self);
        }
        JoinCore { right: self.right, pos: self.pos }
    }
}

impl<'a, R> Copy for JoinCore<'a, R> {

}

impl<'a, R> JoinCore<'a, R> {
    #[verifier::type_invariant]
    spec fn in_bounds(self) -> bool {
        self.pos <= self.right@.len()
    }

    /// The whole right sequence.
    pub closed spec fn all(self) -> Seq<R> {
        self.right@
    }

    /// How many elements of the right sequence have been consumed.
    pub closed spec fn consumed(self) -> usize {
        self.pos
    }

    /// What is left of the right sequence.
    pub open spec fn remaining(self) -> Seq<R> {
        self.all().skip(self.consumed() as int)
    }

    /// Whether the right sequence is used up.
    pub open spec fn exhausted(self) -> bool {
        self.consumed() >= self.all().len()
    }

    /// The head of what is left of the right sequence.
    pub open spec fn head(self) -> R
        recommends
            !self.exhausted(),
    {
        self.all()[self.consumed() as int]
    }

    /// Start a merge against `right`, with nothing consumed.
    pub fn new(right: &'a [R]) -> (core: Self)
        ensures
            core.all() == right@,
            core.consumed() == 0,
    {
        JoinCore { right, pos: 0 }
    }

    /// One step of the merge: compare `left` with the head of what is left of
    /// the right sequence, as `cmp` orders them.
    pub fn join<L, F>(&mut self, left: L, cmp: F) -> (j: Join<&'a R>) where
        F: Fn(&L, &R) -> Ordering,

        requires
            !old(self).exhausted() ==> cmp.requires((&left, &old(self).head())),
        ensures
            final(self).all() == old(self).all(),
            old(self).consumed() <= old(self).all().len(),
            match j {
                Join::Next => {
                    &&& final(self).consumed() == old(self).consumed()
                    &&& !old(self).exhausted() ==> cmp.ensures(
                        (&left, &old(self).head()),
                        Ordering::Less,
                    )
                },
                Join::Stop => {
                    &&& !old(self).exhausted()
                    &&& final(self).consumed() == old(self).consumed() + 1
                    &&& cmp.ensures((&left, &old(self).head()), Ordering::Greater)
                },
                Join::Match(head) => {
                    &&& !old(self).exhausted()
                    &&& final(self).consumed() == old(self).consumed() + 1
                    &&& *head == old(self).head()
                    &&& cmp.ensures((&left, &old(self).head()), Ordering::Equal)
                },
            },
    {
        proof {
            use_type_invariant(&*self);
        }
        let right: &'a [R] = self.right;
        if self.pos >= right.len() {
            return Join::Next;
        }
        let head = &right[self.pos];
        match cmp(&left, head) {
            Ordering::Less => Join::Next,
            Ordering::Greater => {
                self.pos = self.pos + 1;
                Join::Stop
            },
            Ordering::Equal => {
                self.pos = self.pos + 1;
                Join::Match(head)
            },
        }
    }
}

} // verus!
