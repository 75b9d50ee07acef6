//! The loop node, its ranges and its body elements, and how each is written.

use vstd::prelude::*;
use crate::layout::{body_line, body_lines, header, loop_text};
use crate::render::{display_comma_separated, joined, texts, Render};

verus! {

/// One binding of an iteration variable to the range it walks over.
///
/// Both are held in their canonical text: `item` is the variable's name and
/// `range` the range expression. Neither is examined here.
#[derive(Debug, PartialEq, PartialOrd, Eq, Ord, Hash)]
pub struct LoopRange {
    pub item: String,
    pub range: String,
}

/// A loop: its ranges, whose order is kept as given, and its body.
#[derive(Debug, PartialEq, PartialOrd, Eq, Ord, Hash)]
pub struct ForEach<T> {
    pub ranges: Vec<LoopRange>,
    pub body: Vec<T>,
}

/// A body element that is either a further loop or a leaf.
#[derive(Debug, PartialEq, PartialOrd, Eq, Ord, Hash)]
pub enum ForEachOr<T> {
    ForEach(ForEach<ForEachOr<T>>),
    Item(T),
}

impl Render for LoopRange {
    /// The variable, the word `in` between two spaces, and the range.
    open spec fn text(&self) -> Seq<char> {
        self.item@ + " in "@ + self.range@
    }

    fn render(&self) -> (out: String)
        ensures
            out@ == self.item@ + " in "@ + self.range@,
    {
        let mut out = self.item.clone();
        out.append(" in ");
        out.append(self.range.as_str());
        out
    }
}

/// Builds the header of a loop over `ranges`.
pub(crate) fn render_header(ranges: &Vec<LoopRange>) -> (out: String)
    ensures
        out@ == header(texts(ranges@)),
{
    let mut out = String::new();
    out.append("FOR EACH ");
    if ranges.len() == 1 {
        let only = ranges[0].render();
        out.append(only.as_str());
    } else {
        let list = display_comma_separated(ranges.as_slice());
        out.append("(");
        out.append(list.as_str());
        out.append(")");
    }
    out.append("{\n");
    proof {
        assert(out@ =~= header(texts(ranges@)));
    }
    out
}

/// Adds the line of one body element to a text under construction.
pub(crate) fn push_line(out: &mut String, elem: &str)
    ensures
        final(out)@ == old(out)@ + body_line(elem@),
{
    out.append("  ");
    out.append(elem);
    out.append(",\n");
    proof {
        assert(final(out)@ =~= old(out)@ + body_line(elem@));
    }
}

/// The lines of the first `done + 1` elements are those of the first `done`
/// followed by the line of the next.
pub(crate) proof fn lemma_next_line(elems: Seq<Seq<char>>, done: int)
    requires
        0 <= done < elems.len(),
    ensures
        body_lines(elems.take(done + 1)) == body_lines(elems.take(done)) + body_line(elems[done]),
{
    assert(elems.take(done + 1).drop_last() =~= elems.take(done));
}

impl<T: Render> Render for ForEach<T> {
    /// The text of a loop whose body elements are written as their own texts.
    open spec fn text(&self) -> Seq<char> {
        loop_text(texts(self.ranges@), texts(self.body@))
    }

    fn render(&self) -> (out: String)
        ensures
            out@ == loop_text(texts(self.ranges@), texts(self.body@)),
    {
        let mut out = render_header(&self.ranges);
        let ghost elems = texts(self.body@);
        let mut i: usize = 0;
        while i < self.body.len()
            invariant
                i <= self.body.len(),
                elems == texts(self.body@),
                out@ == header(texts(self.ranges@)) + body_lines(elems.take(i as int)),
            decreases self.body.len() - i,
        {
            let elem = self.body[i].render();
            push_line(&mut out, elem.as_str());
            proof {
                lemma_next_line(elems, i as int);
            }
            i += 1;
        }
        out.append("\n}");
        proof {
            assert(elems.take(i as int) =~= elems);
        }
        out
    }
}

/// The text of a body element whose leaves are written by `leaf`.
///
/// A leaf is what `leaf` makes of it. A loop is written as any loop is, each
/// element of its body again by this function: on its own line behind two
/// spaces, however deep the loop lies.
pub open spec fn nested_text<T>(node: ForEachOr<T>, leaf: spec_fn(T) -> Seq<char>) -> Seq<char>
    decreases node,
{
    match node {
        ForEachOr::Item(item) => leaf(item),
        ForEachOr::ForEach(foreach) => loop_text(
            texts(foreach.ranges@),
            nested_texts(foreach.body@, leaf),
        ),
    }
}

/// The texts of the elements of a body whose leaves are written by `leaf`, in
/// the body's order.
pub open spec fn nested_texts<T>(body: Seq<ForEachOr<T>>, leaf: spec_fn(T) -> Seq<char>) -> Seq<
    Seq<char>,
>
    decreases body,
{
    Seq::new(
        body.len(),
        |i: int|
            if 0 <= i < body.len() {
                nested_text(body[i], leaf)
            } else {
                Seq::empty()
            },
    )
}

/// The leaf writer that gives each leaf its own text.
pub open spec fn own_text<T: Render>() -> spec_fn(T) -> Seq<char> {
    |item: T| item.text()
}

/// The leaf writer for rows: the texts of the row's items on one line,
/// separated by a comma and a space.
pub open spec fn row_text<E: Render>() -> spec_fn(Vec<E>) -> Seq<char> {
    |row: Vec<E>| joined(texts(row@), ", "@)
}

/// Builds the text of a loop whose leaves have a text of their own.
fn render_nested_loop<T: Render>(foreach: &ForEach<ForEachOr<T>>) -> (out: String)
    ensures
        out@ == loop_text(texts(foreach.ranges@), nested_texts(foreach.body@, own_text::<T>())),
    decreases foreach,
{
    let mut out = render_header(&foreach.ranges);
    let ghost elems = nested_texts(foreach.body@, own_text::<T>());
    let mut i: usize = 0;
    while i < foreach.body.len()
        invariant
            i <= foreach.body.len(),
            elems == nested_texts(foreach.body@, own_text::<T>()),
            out@ == header(texts(foreach.ranges@)) + body_lines(elems.take(i as int)),
        decreases foreach.body.len() - i,
    {
        let elem = match &foreach.body[i] {
            ForEachOr::Item(item) => item.render(),
            ForEachOr::ForEach(inner) => {
                proof {
                    assert(*inner == foreach.body[i as int]->ForEach_0);
                    assert(decreases_to!(foreach.body => foreach.body[i as int]));
                }
                render_nested_loop(inner)
            },
        };
        push_line(&mut out, elem.as_str());
        proof {
            lemma_next_line(elems, i as int);
        }
        i += 1;
    }
    out.append("\n}");
    proof {
        assert(elems.take(i as int) =~= elems);
    }
    out
}

impl<T: Render> Render for ForEachOr<T> {
    /// A leaf is written as its own text, a loop as any loop is, with these
    /// same two rules for each element of its body.
    open spec fn text(&self) -> Seq<char> {
        nested_text(*self, own_text::<T>())
    }

    fn render(&self) -> (out: String)
        ensures
            out@ == nested_text(*self, own_text::<T>()),
    {
        match self {
            ForEachOr::Item(item) => item.render(),
            ForEachOr::ForEach(foreach) => render_nested_loop(foreach),
        }
    }
}

impl<E: Render> ForEach<ForEachOr<Vec<E>>> {
    /// The text of a loop over rows.
    ///
    /// A row has no text of its own, so this loop is written with `row_text`
    /// at its leaves: the same header, lines and braces as any loop, each
    /// row's items on one line, and loops in the body written by this same
    /// rule.
    pub open spec fn vec_text(&self) -> Seq<char> {
        loop_text(texts(self.ranges@), nested_texts(self.body@, row_text::<E>()))
    }

    /// Builds the text of a loop over rows.
    pub fn vec_display(&self) -> (out: String)
        ensures
            out@ == self.vec_text(),
        decreases self,
    {
        let mut out = render_header(&self.ranges);
        let ghost elems = nested_texts(self.body@, row_text::<E>());
        let mut i: usize = 0;
        while i < self.body.len()
            invariant
                i <= self.body.len(),
                elems == nested_texts(self.body@, row_text::<E>()),
                out@ == header(texts(self.ranges@)) + body_lines(elems.take(i as int)),
            decreases self.body.len() - i,
        {
            let elem = match &self.body[i] {
                ForEachOr::Item(row) => display_comma_separated(row.as_slice()),
                ForEachOr::ForEach(inner) => {
                    proof {
                        assert(*inner == self.body[i as int]->ForEach_0);
                        assert(decreases_to!(self.body => self.body[i as int]));
                    }
                    inner.vec_display()
                },
            };
            push_line(&mut out, elem.as_str());
            proof {
                lemma_next_line(elems, i as int);
            }
            i += 1;
        }
        out.append("\n}");
        proof {
            assert(elems.take(i as int) =~= elems);
        }
        out
    }
}

} // verus!
