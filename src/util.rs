use vstd::prelude::*;
use vstd::std_specs::cmp::PartialEqSpec;
use vstd::std_specs::iter::IteratorSpec;

verus! {

/// A vector with a cursor that walks it forward and backward.
///
/// The cursor is a plain index; it may stand past the end (an empty vector
/// has its cursor at 0), in which case there is no current element.
#[derive(Debug)]
pub struct StatefulVector<T> {
    vector: Vec<T>,
    position: usize,
}

impl<T> Default for StatefulVector<T> {
    fn default() -> (r: StatefulVector<T>)
        ensures
            r@ == Seq::<T>::empty(),
            r.pos() == 0,
    {
        StatefulVector::new()
    }
}

impl<T> View for StatefulVector<T> {
    type V = Seq<T>;

    closed spec fn view(&self) -> Seq<T> {
        self.vector@
    }
}

impl<T> StatefulVector<T> {
    /// The index of the cursor.
    pub closed spec fn pos(&self) -> int {
        self.position as int
    }

    pub proof fn lemma_pos_nonnegative(&self)
        ensures
            self.pos() >= 0,
    {
    }

    /// The cursor stands on an element.
    pub open spec fn valid_at(&self, i: int) -> bool {
        0 <= i < self@.len()
    }

    pub fn new() -> (r: StatefulVector<T>)
        ensures
            r@ == Seq::<T>::empty(),
            r.pos() == 0,
    {
        StatefulVector { vector: Vec::new(), position: 0 }
    }

    pub fn from_vec(vector: Vec<T>) -> (r: StatefulVector<T>)
        ensures
            r@ == vector@,
            r.pos() == 0,
    {
        StatefulVector { vector, position: 0 }
    }

    pub fn is_empty(&self) -> (r: bool)
        ensures
            r == (self@.len() == 0),
    {
        self.vector.len() == 0
    }

    pub fn first(&self) -> (r: Option<&T>)
        ensures
            self@.len() == 0 ==> r.is_none(),
            self@.len() > 0 ==> r == Some(&self@[0]),
    {
        if self.vector.len() == 0 {
            None
        } else {
            Some(&self.vector[0])
        }
    }

    pub fn last(&self) -> (r: Option<&T>)
        ensures
            self@.len() == 0 ==> r.is_none(),
            self@.len() > 0 ==> r == Some(&self@[self@.len() - 1]),
    {
        if self.vector.len() == 0 {
            None
        } else {
            Some(&self.vector[self.vector.len() - 1])
        }
    }

    pub fn current(&self) -> (r: Option<&T>)
        ensures
            self.valid_at(self.pos()) ==> r == Some(&self@[self.pos()]),
            !self.valid_at(self.pos()) ==> r.is_none(),
    {
        if self.is_pos_valid(self.position) {
            Some(&self.vector[self.position])
        } else {
            None
        }
    }

    /// Moves the cursor one step forward when an element stands there, and
    /// returns that element.
    pub fn to_next(&mut self) -> (r: Option<&T>)
        ensures
            final(self)@ == old(self)@,
            old(self).valid_at(old(self).pos() + 1) ==> final(self).pos() == old(self).pos() + 1
                && r == Some(&old(self)@[old(self).pos() + 1]),
            !old(self).valid_at(old(self).pos() + 1) ==> final(self).pos() == old(self).pos()
                && r.is_none(),
    {
        if self.has_next() {
            self.position = self.position + 1;
            Some(&self.vector[self.position])
        } else {
            None
        }
    }

    /// Moves the cursor one step back when an element stands there, and
    /// returns that element.
    pub fn to_previous(&mut self) -> (r: Option<&T>)
        ensures
            final(self)@ == old(self)@,
            old(self).valid_at(old(self).pos() - 1) ==> final(self).pos() == old(self).pos() - 1
                && r == Some(&old(self)@[old(self).pos() - 1]),
            !old(self).valid_at(old(self).pos() - 1) ==> final(self).pos() == old(self).pos()
                && r.is_none(),
    {
        if self.has_previous() {
            self.position = self.position - 1;
            Some(&self.vector[self.position])
        } else {
            None
        }
    }

    /// The element after the cursor, if there is one; the cursor stays.
    pub fn peek_next(&self) -> (r: Option<&T>)
        ensures
            self.valid_at(self.pos() + 1) ==> r == Some(&self@[self.pos() + 1]),
            !self.valid_at(self.pos() + 1) ==> r.is_none(),
    {
        if self.has_next() {
            Some(&self.vector[self.position + 1])
        } else {
            None
        }
    }

    /// Whether the element after the cursor exists and meets `predicate`.
    pub fn is_next_match<F: FnOnce(&T) -> bool>(&self, predicate: F) -> (r: bool)
        requires
            self.valid_at(self.pos() + 1) ==> predicate.requires((&self@[self.pos() + 1],)),
        ensures
            self.valid_at(self.pos() + 1) ==> predicate.ensures((&self@[self.pos() + 1],), r),
            !self.valid_at(self.pos() + 1) ==> !r,
    {
        if self.has_next() {
            predicate(&self.vector[self.position + 1])
        } else {
            false
        }
    }

    pub fn push(&mut self, element: T)
        ensures
            final(self)@ == old(self)@.push(element),
            final(self).pos() == old(self).pos(),
    {
        self.vector.push(element)
    }

    /// Removes the last element; a cursor left past the end moves back onto
    /// the new last element, or to 0 when none is left.
    pub fn pop(&mut self) -> (r: Option<T>)
        ensures
            old(self)@.len() == 0 ==> r.is_none() && final(self)@ == old(self)@
                && final(self).pos() == old(self).pos(),
            old(self)@.len() > 0 ==> r == Some(old(self)@.last()) && final(self)@
                == old(self)@.drop_last(),
            old(self)@.len() > 0 && old(self).pos() < final(self)@.len() ==> final(self).pos()
                == old(self).pos(),
            old(self)@.len() > 0 && old(self).pos() >= final(self)@.len() ==> final(self).pos()
                == if final(self)@.len() == 0 {
                0
            } else {
                final(self)@.len() - 1
            },
    {
        let ele = self.vector.pop();
        if ele.is_some() && self.position >= self.vector.len() {
            if self.vector.len() == 0 {
                self.position = 0;
            } else {
                self.position = self.vector.len() - 1;
            }
        }
        ele
    }

    pub fn insert(&mut self, index: usize, element: T)
        requires
            index <= old(self)@.len(),
        ensures
            final(self)@ == old(self)@.insert(index as int, element),
            final(self).pos() == old(self).pos(),
    {
        self.vector.insert(index, element)
    }

    pub fn remove(&mut self, index: usize) -> (r: T)
        requires
            index < old(self)@.len(),
        ensures
            r == old(self)@[index as int],
            final(self)@ == old(self)@.remove(index as int),
            final(self).pos() == old(self).pos(),
    {
        self.vector.remove(index)
    }

    pub fn has_next(&self) -> (r: bool)
        ensures
            r == self.valid_at(self.pos() + 1),
            r ==> self.pos() < usize::MAX,
    {
        self.vector.len() > 0 && self.position < self.vector.len() - 1
    }

    pub fn has_previous(&self) -> (r: bool)
        ensures
            r == self.valid_at(self.pos() - 1),
    {
        self.position > 0 && self.is_pos_valid(self.position - 1)
    }

    pub fn iter(&self) -> (r: std::slice::Iter<'_, T>)
        ensures
            r.remaining() == self@.as_ref(),
    {
        let r = self.vector.as_slice().iter();
        proof {
            broadcast use vstd::std_specs::slice::axiom_spec_slice_iter;
        }
        r
    }

    pub fn to_vec(self) -> (r: Vec<T>)
        ensures
            r@ == self@,
    {
        self.vector
    }

    fn is_pos_valid(&self, pos: usize) -> (r: bool)
        ensures
            r == self.valid_at(pos as int),
    {
        if self.is_empty() {
            false
        } else {
            pos < self.vector.len()
        }
    }
}

impl<T: PartialEq> StatefulVector<T> {
    /// Whether the element after the cursor exists and equals `expected`.
    pub fn is_next_eq(&self, expected: &T) -> (r: bool)
        ensures
            !self.valid_at(self.pos() + 1) ==> !r,
            T::obeys_eq_spec() && self.valid_at(self.pos() + 1) ==> r == self@[self.pos()
                + 1].eq_spec(expected),
    {
        if self.has_next() {
            self.vector[self.position + 1] == *expected
        } else {
            false
        }
    }
}

} // verus!
