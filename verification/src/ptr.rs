//! Handles into stores.

use std::marker::PhantomData;
use vstd::prelude::*;
use vstd::std_specs::cmp::PartialEqSpecImpl;

verus! {

/// A handle to an immutable value kept in a store.
///
/// The handle is the position at which the value was appended; two handles
/// into the same store denote the same value exactly when their ids agree.
#[derive(Debug)]
pub struct Ptr<T> {
    index: usize,
    marker: PhantomData<T>,
}

impl<T> PartialEq for Ptr<T> {
    fn eq(&self, other: &Self) -> (equal: bool) {
        self.index == other.index
    }
}

impl<T> Eq for Ptr<T> {

}

impl<T> PartialEqSpecImpl for Ptr<T> {
    open spec fn obeys_eq_spec() -> bool {
        true
    }

    open spec fn eq_spec(&self, other: &Self) -> bool {
        self@ == other@
    }
}

impl<T> Clone for Ptr<T> {
    fn clone(&self) -> (copy: Self)
        ensures
            copy == *self,
    {
        Ptr { index: self.index, marker: PhantomData }
    }
}

impl<T> Copy for Ptr<T> {

}

impl<T> View for Ptr<T> {
    type V = int;

    /// The position in the store that the handle names.
    closed spec fn view(&self) -> int {
        self.index as int
    }
}

impl<T> Ptr<T> {
    /// The handle that names position `index`.
    pub closed spec fn nth(index: nat) -> Self {
        Ptr { index: index as usize, marker: PhantomData }
    }

    /// The handle of a position names that position, and a handle is known
    /// by the position it names.
    pub proof fn lemma_nth(self, index: nat)
        ensures
            0 <= self@ <= usize::MAX,
            self == Self::nth(self@ as nat),
            index <= usize::MAX ==> Self::nth(index)@ == index,
    {
    }

    /// Appends `value` to `store` and returns the handle that names it.
    pub fn new(store: &mut Vec<T>, value: T) -> (ptr: Self)
        ensures
            final(store)@ == old(store)@.push(value),
            ptr@ == old(store)@.len(),
            ptr == Self::nth(old(store)@.len()),
    {
        let index: usize = store.len();
        store.push(value);
        Ptr { index, marker: PhantomData }
    }

    /// A handle is live in a store that holds a value at its position.
    pub open spec fn live(&self, store: Seq<T>) -> bool {
        0 <= self@ < store.len()
    }

    /// The value that the handle names in `store`.
    pub fn value<'a>(&self, store: &'a Vec<T>) -> (value: &'a T)
        requires
            self.live(store@),
        ensures
            *value == store@[self@],
    {
        &store[self.index]
    }

    /// The value that the handle names in `store`, if the store holds one there.
    pub fn get<'a>(&self, store: &'a Vec<T>) -> (value: Option<&'a T>)
        ensures
            self.live(store@) ==> value == Some(&store@[self@]),
            !self.live(store@) ==> value.is_none(),
    {
        if self.index < store.len() {
            Some(&store[self.index])
        } else {
            None
        }
    }

    /// The identity of the handle.
    pub fn id(&self) -> (id: usize)
        ensures
            id == self@,
    {
        self.index
    }
}

/// A handle to a mutable value kept in a store.
#[derive(Debug)]
pub struct PtrMut<T> {
    index: usize,
    marker: PhantomData<T>,
}

impl<T> PartialEq for PtrMut<T> {
    fn eq(&self, other: &Self) -> (equal: bool) {
        self.index == other.index
    }
}

impl<T> Eq for PtrMut<T> {

}

impl<T> PartialEqSpecImpl for PtrMut<T> {
    open spec fn obeys_eq_spec() -> bool {
        true
    }

    open spec fn eq_spec(&self, other: &Self) -> bool {
        self@ == other@
    }
}

impl<T> Clone for PtrMut<T> {
    fn clone(&self) -> (copy: Self)
        ensures
            copy == *self,
    {
        PtrMut { index: self.index, marker: PhantomData }
    }
}

impl<T> Copy for PtrMut<T> {

}

impl<T> View for PtrMut<T> {
    type V = int;

    /// The position in the store that the handle names.
    closed spec fn view(&self) -> int {
        self.index as int
    }
}

impl<T> PtrMut<T> {
    /// The handle that names position `index`.
    pub closed spec fn nth(index: nat) -> Self {
        PtrMut { index: index as usize, marker: PhantomData }
    }

    /// The handle of a position names that position, and a handle is known
    /// by the position it names.
    pub proof fn lemma_nth(self, index: nat)
        ensures
            0 <= self@ <= usize::MAX,
            self == Self::nth(self@ as nat),
            index <= usize::MAX ==> Self::nth(index)@ == index,
    {
    }

    /// Appends `value` to `store` and returns the handle that names it.
    pub fn new(store: &mut Vec<T>, value: T) -> (ptr: Self)
        ensures
            final(store)@ == old(store)@.push(value),
            ptr@ == old(store)@.len(),
            ptr == Self::nth(old(store)@.len()),
    {
        let index: usize = store.len();
        store.push(value);
        PtrMut { index, marker: PhantomData }
    }

    /// A handle is live in a store that holds a value at its position.
    pub open spec fn live(&self, store: Seq<T>) -> bool {
        0 <= self@ < store.len()
    }

    /// The value that the handle names in `store`.
    pub fn value<'a>(&self, store: &'a Vec<T>) -> (value: &'a T)
        requires
            self.live(store@),
        ensures
            *value == store@[self@],
    {
        &store[self.index]
    }

    /// The value that the handle names in `store`, if the store holds one there.
    pub fn get<'a>(&self, store: &'a Vec<T>) -> (value: Option<&'a T>)
        ensures
            self.live(store@) ==> value == Some(&store@[self@]),
            !self.live(store@) ==> value.is_none(),
    {
        if self.index < store.len() {
            Some(&store[self.index])
        } else {
            None
        }
    }

    /// Mutable access to the value that the handle names in `store`; the
    /// rest of the store stays as it is.
    pub fn value_mut<'a>(&self, store: &'a mut Vec<T>) -> (value: &'a mut T)
        requires
            self.live(old(store)@),
        ensures
            *value == old(store)@[self@],
            final(store)@ == old(store)@.update(self@, *final(value)),
    {
        &mut store[self.index]
    }

    /// The identity of the handle.
    pub fn id(&self) -> (id: usize)
        ensures
            id == self@,
    {
        self.index
    }
}

} // verus!
