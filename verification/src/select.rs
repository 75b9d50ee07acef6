//! A node kind that takes a loop among its variants: the item of a select
//! list.

use vstd::prelude::*;
use crate::cloning::clone_ranges;
use crate::embed::ConstructForEach;
use crate::for_each::{lemma_next_line, push_line, render_header, ForEach};
use crate::layout::{body_lines, header, loop_text};
use crate::render::{texts, Render};

verus! {

/// One item of a select list: an expression, held in its canonical text, or
/// a loop that stands for the items it is unrolled to.
#[derive(Debug, PartialEq, PartialOrd, Eq, Ord, Hash)]
pub enum SelectItem {
    Expr(String),
    ForEach(ForEach<SelectItem>),
}

/// The text of a select item: an expression is its own text, a loop is
/// written as any loop is, its body elements again by this rule.
pub open spec fn select_text(item: SelectItem) -> Seq<char>
    decreases item,
{
    match item {
        SelectItem::Expr(expr) => expr@,
        SelectItem::ForEach(foreach) => loop_text(
            texts(foreach.ranges@),
            select_texts(foreach.body@),
        ),
    }
}

/// The texts of the select items of a body, in the body's order.
pub open spec fn select_texts(body: Seq<SelectItem>) -> Seq<Seq<char>>
    decreases body,
{
    Seq::new(
        body.len(),
        |i: int|
            if 0 <= i < body.len() {
                select_text(body[i])
            } else {
                Seq::empty()
            },
    )
}

/// Builds the text of a loop over select items.
fn render_select_loop(foreach: &ForEach<SelectItem>) -> (out: String)
    ensures
        out@ == loop_text(texts(foreach.ranges@), select_texts(foreach.body@)),
    decreases foreach,
{
    let mut out = render_header(&foreach.ranges);
    let ghost elems = select_texts(foreach.body@);
    let mut i: usize = 0;
    while i < foreach.body.len()
        invariant
            i <= foreach.body.len(),
            elems == select_texts(foreach.body@),
            out@ == header(texts(foreach.ranges@)) + body_lines(elems.take(i as int)),
        decreases foreach.body.len() - i,
    {
        let elem = match &foreach.body[i] {
            SelectItem::Expr(expr) => expr.clone(),
            SelectItem::ForEach(inner) => {
                proof {
                    assert(*inner == foreach.body[i as int]->ForEach_0);
                    assert(decreases_to!(foreach.body => foreach.body[i as int]));
                }
                render_select_loop(inner)
            },
        };
        push_line(&mut out, elem.as_str());
        proof {
            lemma_next_line(elems, i as int);
        }
        i += 1;
    }
    out.append("\n}");
    proof {
        assert(elems.take(i as int) =~= elems);
    }
    out
}

impl Render for SelectItem {
    open spec fn text(&self) -> Seq<char> {
        select_text(*self)
    }

    fn render(&self) -> (out: String)
        ensures
            out@ == select_text(*self),
    {
        match self {
            SelectItem::Expr(expr) => expr.clone(),
            SelectItem::ForEach(foreach) => render_select_loop(foreach),
        }
    }
}

/// A select item holds a loop over select items in its `ForEach` variant.
impl ConstructForEach for SelectItem {
    open spec fn as_for_each(&self) -> Option<ForEach<Self>> {
        match self {
            SelectItem::ForEach(foreach) => Some(*foreach),
            SelectItem::Expr(_) => None,
        }
    }

    fn construct_for_each(foreach: ForEach<Self>) -> (node: Self)
        ensures
            node == SelectItem::ForEach(foreach),
    {
        SelectItem::ForEach(foreach)
    }
}

/// A loop among the select items is written as that loop is by itself.
pub proof fn lemma_select_loop_text(foreach: ForEach<SelectItem>)
    ensures
        SelectItem::ForEach(foreach).text() == foreach.text(),
{
    assert(select_texts(foreach.body@) =~= texts(foreach.body@));
}

/// Whether `copy` is `item` again: the same expression, or a loop with the
/// same ranges whose body holds, place by place, the elements of `item`
/// again.
pub open spec fn is_same_item(item: SelectItem, copy: SelectItem) -> bool
    decreases item,
{
    match item {
        SelectItem::Expr(expr) => copy is Expr && copy->Expr_0 == expr,
        SelectItem::ForEach(foreach) => {
            &&& copy is ForEach
            &&& copy->ForEach_0.ranges@ == foreach.ranges@
            &&& are_same_items(foreach.body@, copy->ForEach_0.body@)
        },
    }
}

/// Whether `copies` holds, place by place, each element of `body` again.
pub open spec fn are_same_items(body: Seq<SelectItem>, copies: Seq<SelectItem>) -> bool
    decreases body,
{
    &&& copies.len() == body.len()
    &&& forall|i: int| 0 <= i < body.len() ==> is_same_item(body[i], #[trigger] copies[i])
}

/// Copies a loop over select items.
fn clone_select_loop(foreach: &ForEach<SelectItem>) -> (copy: ForEach<SelectItem>)
    ensures
        copy.ranges@ == foreach.ranges@,
        are_same_items(foreach.body@, copy.body@),
    decreases foreach,
{
    let ranges = clone_ranges(&foreach.ranges);
    let mut body: Vec<SelectItem> = Vec::new();
    let mut i: usize = 0;
    while i < foreach.body.len()
        invariant
            i <= foreach.body.len(),
            body@.len() == i,
            forall|j: int| 0 <= j < i ==> is_same_item(foreach.body@[j], #[trigger] body@[j]),
        decreases foreach.body.len() - i,
    {
        let elem = match &foreach.body[i] {
            SelectItem::Expr(expr) => SelectItem::Expr(expr.clone()),
            SelectItem::ForEach(inner) => {
                proof {
                    assert(*inner == foreach.body[i as int]->ForEach_0);
                    assert(decreases_to!(foreach.body => foreach.body[i as int]));
                }
                SelectItem::ForEach(clone_select_loop(inner))
            },
        };
        body.push(elem);
        i += 1;
    }
    ForEach { ranges, body }
}

impl Clone for SelectItem {
    fn clone(&self) -> (copy: Self)
        ensures
            is_same_item(*self, copy),
    {
        match self {
            SelectItem::Expr(expr) => SelectItem::Expr(expr.clone()),
            SelectItem::ForEach(foreach) => SelectItem::ForEach(clone_select_loop(foreach)),
        }
    }
}

/// A copy of a select item is written as the item it was made from.
pub proof fn lemma_same_item_same_text(item: SelectItem, copy: SelectItem)
    requires
        is_same_item(item, copy),
    ensures
        select_text(item) == select_text(copy),
    decreases item,
{
    match item {
        SelectItem::Expr(expr) => {},
        SelectItem::ForEach(foreach) => {
            let body = foreach.body@;
            let copies = copy->ForEach_0.body@;
            assert(are_same_items(body, copies));
            assert forall|i: int| 0 <= i < body.len() implies select_text(body[i]) == select_text(
                copies[i],
            ) by {
                assert(is_same_item(body[i], copies[i]));
                lemma_same_item_same_text(body[i], copies[i]);
            }
            assert(select_texts(body) =~= select_texts(copies));
        },
    }
}

} // verus!
