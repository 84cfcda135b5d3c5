use vstd::prelude::*;

verus! {

/// A value that can be built from a raw counter value: what the stream of a
/// `UniqueIdMaker` is made of.
pub trait CounterId: Sized {
    /// The value that the counter value `x` is turned into.
    spec fn from_counter_spec(x: usize) -> Self;

    /// Turns a raw counter value into an identifier.
    fn from_counter(x: usize) -> (r: Self)
        ensures
            r == Self::from_counter_spec(x),
    ;
}

/// Hands out identifiers in strictly increasing order, starting from a
/// configurable base. Once the counter reaches the top of its range, no
/// further identifier can be produced.
#[derive(Debug)]
pub struct UniqueIdMaker<T: CounterId> {
    next_id: usize,
    marker: core::marker::PhantomData<T>,
}

impl<T: CounterId> UniqueIdMaker<T> {
    /// The raw counter value that the next identifier will be built from.
    pub closed spec fn upcoming(self) -> usize {
        self.next_id
    }

    pub fn starting_at(start: usize) -> (maker: Self)
        ensures
            maker.upcoming() == start,
    {
        Self { next_id: start, marker: core::marker::PhantomData }
    }

    /// One step of the stream: a fresh identifier strictly greater than all
    /// previously issued ones, or `None` once the range is exhausted.
    pub fn next_fresh(&mut self) -> (id: Option<T>)
        ensures
            old(self).upcoming() == usize::MAX ==> id is None && final(self).upcoming() == old(
                self,
            ).upcoming(),
            old(self).upcoming() < usize::MAX ==> {
                &&& final(self).upcoming() == old(self).upcoming() + 1
                &&& id == Some(T::from_counter_spec(old(self).upcoming()))
            },
    {
        if self.next_id == usize::MAX {
            None
        } else {
            let next_id = self.next_id;
            self.next_id = next_id + 1;
            Some(T::from_counter(next_id))
        }
    }

    /// Produces the next identifier. Exhaustion of the counter range is an
    /// unrecoverable condition and is excluded by precondition.
    pub fn make_new_id(&mut self) -> (id: T)
        requires
            old(self).upcoming() < usize::MAX,
        ensures
            final(self).upcoming() == old(self).upcoming() + 1,
            id == T::from_counter_spec(old(self).upcoming()),
    {
        self.next_fresh().unwrap()
    }
}

} // verus!
