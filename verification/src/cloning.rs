//! Copies of nodes.
//!
//! A copy has the ranges and the shape of the node it was made from. Its
//! leaves are what the leaf type's own `clone` makes of that node's leaves.

use vstd::prelude::*;
use crate::for_each::{ForEach, ForEachOr, LoopRange};

verus! {

impl Clone for LoopRange {
    fn clone(&self) -> (copy: Self)
        ensures
            copy == *self,
    {
        LoopRange { item: self.item.clone(), range: self.range.clone() }
    }
}

/// Copies a list of ranges.
pub(crate) fn clone_ranges(ranges: &Vec<LoopRange>) -> (copy: Vec<LoopRange>)
    ensures
        copy@ == ranges@,
{
    let copy = ranges.clone();
    proof {
        assert(copy@ =~= ranges@);
    }
    copy
}

impl<T: Clone> Clone for ForEach<T> {
    /// The copy has the same ranges and as many body elements, each a clone
    /// of the one in its place.
    fn clone(&self) -> (copy: Self)
        ensures
            copy.ranges@ == self.ranges@,
            copy.body@.len() == self.body@.len(),
            forall|i: int| 0 <= i < self.body@.len() ==> cloned::<T>(self.body@[i], copy.body@[i]),
    {
        ForEach { ranges: clone_ranges(&self.ranges), body: self.body.clone() }
    }
}

/// Whether `copy` has the shape of `node`, loop for loop with the same
/// ranges, and at each leaf a clone of the leaf of `node`.
pub open spec fn is_clone_of<T: Clone>(node: ForEachOr<T>, copy: ForEachOr<T>) -> bool
    decreases node,
{
    match node {
        ForEachOr::Item(item) => copy is Item && cloned::<T>(item, copy->Item_0),
        ForEachOr::ForEach(foreach) => {
            &&& copy is ForEach
            &&& copy->ForEach_0.ranges@ == foreach.ranges@
            &&& are_clones_of(foreach.body@, copy->ForEach_0.body@)
        },
    }
}

/// Whether `copies` holds, place by place, a copy of each element of `body`.
pub open spec fn are_clones_of<T: Clone>(
    body: Seq<ForEachOr<T>>,
    copies: Seq<ForEachOr<T>>,
) -> bool
    decreases body,
{
    &&& copies.len() == body.len()
    &&& forall|i: int| 0 <= i < body.len() ==> is_clone_of(body[i], #[trigger] copies[i])
}

/// Copies a loop whose body may hold further loops.
fn clone_nested_loop<T: Clone>(foreach: &ForEach<ForEachOr<T>>) -> (copy: ForEach<ForEachOr<T>>)
    ensures
        copy.ranges@ == foreach.ranges@,
        are_clones_of(foreach.body@, copy.body@),
    decreases foreach,
{
    let ranges = clone_ranges(&foreach.ranges);
    let mut body: Vec<ForEachOr<T>> = Vec::new();
    let mut i: usize = 0;
    while i < foreach.body.len()
        invariant
            i <= foreach.body.len(),
            body@.len() == i,
            forall|j: int| 0 <= j < i ==> is_clone_of(foreach.body@[j], #[trigger] body@[j]),
        decreases foreach.body.len() - i,
    {
        let elem = match &foreach.body[i] {
            ForEachOr::Item(item) => ForEachOr::Item(item.clone()),
            ForEachOr::ForEach(inner) => {
                proof {
                    assert(*inner == foreach.body[i as int]->ForEach_0);
                    assert(decreases_to!(foreach.body => foreach.body[i as int]));
                }
                ForEachOr::ForEach(clone_nested_loop(inner))
            },
        };
        body.push(elem);
        i += 1;
    }
    ForEach { ranges, body }
}

impl<T: Clone> Clone for ForEachOr<T> {
    fn clone(&self) -> (copy: Self)
        ensures
            is_clone_of(*self, copy),
    {
        match self {
            ForEachOr::Item(item) => ForEachOr::Item(item.clone()),
            ForEachOr::ForEach(foreach) => ForEachOr::ForEach(clone_nested_loop(foreach)),
        }
    }
}

} // verus!
