//! Making body elements out of leaves, and nodes out of loops.

use vstd::prelude::*;
use vstd::std_specs::convert::FromSpecImpl;
use crate::for_each::{ForEach, ForEachOr};

verus! {

/// A leaf becomes a body element by being wrapped as an item.
impl<T> From<T> for ForEachOr<T> {
    fn from(item: T) -> (node: Self)
        ensures
            node == ForEachOr::Item(item),
    {
        ForEachOr::Item(item)
    }
}

impl<T> FromSpecImpl<T> for ForEachOr<T> {
    open spec fn obeys_from_spec() -> bool {
        true
    }

    open spec fn from_spec(item: T) -> Self {
        ForEachOr::Item(item)
    }
}

/// The leaves of `items`, each wrapped as an item, in the same order.
pub open spec fn lifted<T>(items: Seq<T>) -> Seq<ForEachOr<T>> {
    Seq::new(items.len(), |i: int| ForEachOr::Item(items[i]))
}

/// A list of leaves that can be made the body of a loop.
pub trait ToForEach {
    type Target;

    /// Turns the leaves into body elements.
    fn for_each(self) -> Self::Target;
}

impl<T> ToForEach for Vec<T> {
    type Target = Vec<ForEachOr<T>>;

    /// Wraps every leaf as an item: as many elements as there were leaves,
    /// each in its old place, and no loop among them.
    fn for_each(self) -> (body: Vec<ForEachOr<T>>)
        ensures
            body@ == lifted(self@),
            body@.len() == self@.len(),
            forall|i: int| 0 <= i < self@.len() ==> body@[i] == ForEachOr::Item(self@[i]),
    {
        let mut body: Vec<ForEachOr<T>> = Vec::new();
        for item in it: self
            invariant
                body@ == lifted(it.seq().take(it.index() as int)),
        {
            body.push(ForEachOr::Item(item));
            proof {
                assert(body@ =~= lifted(it.seq().take(it.index() + 1)));
            }
        }
        proof {
            assert(body@ =~= lifted(self@));
        }
        body
    }
}

/// A node kind that has a place for a loop over nodes of its own kind.
pub trait ConstructForEach: Sized {
    /// The loop that this node holds, where it is a loop node.
    spec fn as_for_each(&self) -> Option<ForEach<Self>>;

    /// Makes the node that holds `foreach`: looking into it gives back
    /// `foreach` as it was.
    fn construct_for_each(foreach: ForEach<Self>) -> (node: Self)
        ensures
            node.as_for_each() == Some(foreach),
    ;
}

/// A body element holds a loop in its `ForEach` variant, so loops nest in
/// loops to any depth.
impl<T> ConstructForEach for ForEachOr<T> {
    open spec fn as_for_each(&self) -> Option<ForEach<Self>> {
        match self {
            ForEachOr::ForEach(foreach) => Some(*foreach),
            ForEachOr::Item(_) => None,
        }
    }

    fn construct_for_each(foreach: ForEach<Self>) -> (node: Self)
        ensures
            node == ForEachOr::ForEach(foreach),
    {
        ForEachOr::ForEach(foreach)
    }
}

} // verus!
