//! What holds of the text of every loop node.

use vstd::prelude::*;
use crate::cloning::{are_clones_of, is_clone_of};
use crate::for_each::{nested_text, nested_texts, own_text, row_text, ForEach, ForEachOr};
use crate::layout::{
    body_line, body_lines, lemma_body_line_in_place, lemma_header_of_many_ranges, line_start,
    loop_text, range_list,
};
use crate::render::{joined, texts, Render};

verus! {

/// A leaf among the body elements is written as its own text.
pub proof fn lemma_item_text<T: Render>(item: T)
    ensures
        ForEachOr::Item(item).text() == item.text(),
{
}

/// A loop among the body elements is written as that loop is by itself.
pub proof fn lemma_loop_element_text<T: Render>(foreach: ForEach<ForEachOr<T>>)
    ensures
        ForEachOr::ForEach(foreach).text() == foreach.text(),
{
    assert(nested_texts(foreach.body@, own_text::<T>()) =~= texts(foreach.body@));
}

/// A loop over rows is written as the body element that holds it, with rows
/// at the leaves.
pub proof fn lemma_row_loop_text<E: Render>(foreach: ForEach<ForEachOr<Vec<E>>>)
    ensures
        foreach.vec_text() == nested_text(ForEachOr::ForEach(foreach), row_text::<E>()),
{
}

/// A loop with exactly one range shows it without parentheses.
pub proof fn lemma_one_range_stands_bare<T: Render>(foreach: ForEach<T>)
    requires
        foreach.ranges@.len() == 1,
    ensures
        foreach.text() == "FOR EACH "@ + foreach.ranges@[0].text() + "{\n"@ + body_lines(
            texts(foreach.body@),
        ) + "\n}"@,
{
}

/// A loop with two or more ranges shows them between parentheses, in their
/// order, separated by a comma and a space.
pub proof fn lemma_many_ranges_stand_in_parentheses<T: Render>(foreach: ForEach<T>)
    requires
        foreach.ranges@.len() >= 2,
    ensures
        foreach.text() == "FOR EACH ("@ + joined(texts(foreach.ranges@), ", "@) + "){\n"@
            + body_lines(texts(foreach.body@)) + "\n}"@,
{
    lemma_header_of_many_ranges(texts(foreach.ranges@));
}

/// A loop without body elements is its header, an empty line and the closing
/// brace.
pub proof fn lemma_empty_body<T: Render>(foreach: ForEach<T>)
    requires
        foreach.body@.len() == 0,
    ensures
        foreach.text() == "FOR EACH "@ + range_list(texts(foreach.ranges@)) + "{\n"@ + "\n}"@,
{
    assert(foreach.text() =~= "FOR EACH "@ + range_list(texts(foreach.ranges@)) + "{\n"@
        + "\n}"@);
}

/// Every element of a loop's body has a line of its own in the loop's text:
/// two spaces, the element's text, a comma and a line break.
pub proof fn lemma_element_line<T: Render>(foreach: ForEach<T>, i: int)
    requires
        0 <= i < foreach.body@.len(),
    ensures
        ({
            let start = line_start(texts(foreach.ranges@), texts(foreach.body@), i);
            let line = "  "@ + foreach.body@[i].text() + ",\n"@;
            &&& 0 <= start
            &&& start + line.len() <= foreach.text().len()
            &&& foreach.text().subrange(start, start + line.len()) == line
        }),
{
    lemma_body_line_in_place(texts(foreach.ranges@), texts(foreach.body@), i);
}

/// Indentation does not grow with depth. Where element `i` of a loop's body
/// is itself a loop, the line of the inner loop's element `j` stands in the
/// outer text as it stands in the inner one: behind two spaces, not four.
pub proof fn lemma_inner_line_is_flat<T>(
    outer: ForEach<ForEachOr<T>>,
    i: int,
    inner: ForEach<ForEachOr<T>>,
    j: int,
    leaf: spec_fn(T) -> Seq<char>,
)
    requires
        0 <= i < outer.body@.len(),
        outer.body@[i] == ForEachOr::ForEach(inner),
        0 <= j < inner.body@.len(),
    ensures
        ({
            let outer_elems = nested_texts(outer.body@, leaf);
            let inner_elems = nested_texts(inner.body@, leaf);
            let start = line_start(texts(outer.ranges@), outer_elems, i) + 2 + line_start(
                texts(inner.ranges@),
                inner_elems,
                j,
            );
            let line = "  "@ + nested_text(inner.body@[j], leaf) + ",\n"@;
            let whole = nested_text(ForEachOr::ForEach(outer), leaf);
            &&& 0 <= start
            &&& start + line.len() <= whole.len()
            &&& whole.subrange(start, start + line.len()) == line
        }),
{
    let outer_elems = nested_texts(outer.body@, leaf);
    let inner_elems = nested_texts(inner.body@, leaf);
    let outer_ranges = texts(outer.ranges@);
    let inner_ranges = texts(inner.ranges@);
    let whole = loop_text(outer_ranges, outer_elems);
    let inner_text = loop_text(inner_ranges, inner_elems);
    assert(outer_elems[i] == inner_text);
    lemma_body_line_in_place(outer_ranges, outer_elems, i);
    lemma_body_line_in_place(inner_ranges, inner_elems, j);
    reveal_strlit("  ");
    let outer_start = line_start(outer_ranges, outer_elems, i);
    let inner_start = line_start(inner_ranges, inner_elems, j);
    let outer_line = body_line(inner_text);
    let line = body_line(inner_elems[j]);
    assert(whole.subrange(outer_start, outer_start + outer_line.len()) == outer_line);
    assert(inner_text.subrange(inner_start, inner_start + line.len()) == line);
    assert(outer_line.subrange(2, inner_text.len() as int + 2) =~= inner_text);
    assert(whole.subrange(
        outer_start + 2 + inner_start,
        outer_start + 2 + inner_start + line.len(),
    ) =~= outer_line.subrange(2 + inner_start, 2 + inner_start + line.len()));
    assert(outer_line.subrange(2 + inner_start, 2 + inner_start + line.len())
        =~= inner_text.subrange(inner_start, inner_start + line.len()));
}

/// A copy is written as the node it was made from, wherever the clone of a
/// leaf is written as that leaf.
pub proof fn lemma_copy_has_same_text<T: Clone>(
    node: ForEachOr<T>,
    copy: ForEachOr<T>,
    leaf: spec_fn(T) -> Seq<char>,
)
    requires
        is_clone_of(node, copy),
        forall|a: T, b: T| cloned::<T>(a, b) ==> leaf(a) == leaf(b),
    ensures
        nested_text(node, leaf) == nested_text(copy, leaf),
    decreases node,
{
    match node {
        ForEachOr::Item(item) => {},
        ForEachOr::ForEach(foreach) => {
            let body = foreach.body@;
            let copies = copy->ForEach_0.body@;
            assert(are_clones_of(body, copies));
            assert forall|i: int| 0 <= i < body.len() implies nested_text(body[i], leaf)
                == nested_text(copies[i], leaf) by {
                assert(is_clone_of(body[i], copies[i]));
                lemma_copy_has_same_text(body[i], copies[i], leaf);
            }
            assert(nested_texts(body, leaf) =~= nested_texts(copies, leaf));
        },
    }
}

} // verus!
