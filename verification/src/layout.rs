//! The shape of a loop's text, over the texts of its parts.
//!
//! A loop is written as the words `FOR EACH`, its ranges, an opening brace,
//! one line for each element of its body, an empty line and a closing brace.

use vstd::prelude::*;
use crate::render::joined;

verus! {

/// The ranges as the header shows them: a single range stands bare; any other
/// number of ranges stands in parentheses, separated by a comma and a space.
pub open spec fn range_list(ranges: Seq<Seq<char>>) -> Seq<char> {
    if ranges.len() == 1 {
        ranges[0]
    } else {
        "("@ + joined(ranges, ", "@) + ")"@
    }
}

/// The header of a loop, up to and with the line break behind its opening
/// brace.
pub open spec fn header(ranges: Seq<Seq<char>>) -> Seq<char> {
    "FOR EACH "@ + range_list(ranges) + "{\n"@
}

/// The line of one body element: two spaces, the element, a comma and a line
/// break.
pub open spec fn body_line(elem: Seq<char>) -> Seq<char> {
    "  "@ + elem + ",\n"@
}

/// The lines of the body elements, in order.
pub open spec fn body_lines(elems: Seq<Seq<char>>) -> Seq<char>
    decreases elems.len(),
{
    if elems.len() == 0 {
        Seq::empty()
    } else {
        body_lines(elems.drop_last()) + body_line(elems.last())
    }
}

/// The whole text of a loop with the given ranges and body elements: header,
/// body lines, then a line break and the closing brace, with nothing behind
/// it.
pub open spec fn loop_text(ranges: Seq<Seq<char>>, elems: Seq<Seq<char>>) -> Seq<char> {
    header(ranges) + body_lines(elems) + "\n}"@
}

/// Where the line of body element `i` begins in the text of a loop: behind
/// the header and the lines of the elements before it.
pub open spec fn line_start(ranges: Seq<Seq<char>>, elems: Seq<Seq<char>>, i: int) -> int {
    (header(ranges).len() + body_lines(elems.take(i)).len()) as int
}

/// Joining keeps the order of the parts and puts the separator between
/// neighbours only: a list made of two non-empty lists is joined as the first
/// joined, one separator, and the second joined.
pub proof fn lemma_joined_concat(a: Seq<Seq<char>>, b: Seq<Seq<char>>, sep: Seq<char>)
    requires
        a.len() > 0,
        b.len() > 0,
    ensures
        joined(a + b, sep) == joined(a, sep) + sep + joined(b, sep),
    decreases b.len(),
{
    assert((a + b).drop_last() =~= a + b.drop_last());
    assert((a + b).last() == b.last());
    if b.len() == 1 {
        assert(a + b.drop_last() =~= a);
    } else {
        lemma_joined_concat(a, b.drop_last(), sep);
        assert(joined(a + b, sep) =~= joined(a, sep) + sep + joined(b, sep));
    }
}

/// A single range stands in the header without parentheses.
pub proof fn lemma_header_of_one_range(ranges: Seq<Seq<char>>)
    requires
        ranges.len() == 1,
    ensures
        header(ranges) == "FOR EACH "@ + ranges[0] + "{\n"@,
{
}

/// Two or more ranges stand in the header between parentheses, in their
/// order, separated by a comma and a space.
pub proof fn lemma_header_of_many_ranges(ranges: Seq<Seq<char>>)
    requires
        ranges.len() >= 2,
    ensures
        header(ranges) == "FOR EACH ("@ + joined(ranges, ", "@) + "){\n"@,
        joined(ranges, ", "@) == joined(ranges.drop_last(), ", "@) + ", "@ + ranges.last(),
{
    reveal_strlit("FOR EACH ");
    reveal_strlit("(");
    reveal_strlit("FOR EACH (");
    reveal_strlit(")");
    reveal_strlit("{\n");
    reveal_strlit("){\n");
    assert("FOR EACH "@ + "("@ =~= "FOR EACH ("@);
    assert(")"@ + "{\n"@ =~= "){\n"@);
    assert(header(ranges) =~= "FOR EACH ("@ + joined(ranges, ", "@) + "){\n"@);
}

/// A body line is the element between two spaces in front and a comma and a
/// line break behind, and nothing else.
pub proof fn lemma_body_line_shape(elem: Seq<char>)
    ensures
        body_line(elem).len() == elem.len() + 4,
        body_line(elem)[0] == ' ',
        body_line(elem)[1] == ' ',
        body_line(elem).subrange(2, elem.len() as int + 2) == elem,
        body_line(elem)[elem.len() as int + 2] == ',',
        body_line(elem)[elem.len() as int + 3] == '\n',
{
    reveal_strlit("  ");
    reveal_strlit(",\n");
    assert(body_line(elem).subrange(2, elem.len() as int + 2) =~= elem);
}

/// The lines of a body made of two parts are the lines of the first part
/// followed by those of the second.
pub proof fn lemma_body_lines_concat(a: Seq<Seq<char>>, b: Seq<Seq<char>>)
    ensures
        body_lines(a + b) == body_lines(a) + body_lines(b),
    decreases b.len(),
{
    if b.len() == 0 {
        assert(a + b =~= a);
        assert(body_lines(a) + body_lines(b) =~= body_lines(a));
    } else {
        assert((a + b).drop_last() =~= a + b.drop_last());
        assert((a + b).last() == b.last());
        lemma_body_lines_concat(a, b.drop_last());
        assert(body_lines(a + b) =~= body_lines(a) + body_lines(b));
    }
}

/// In the text of a loop every body element has a line of its own: at
/// `line_start` stands exactly the body line of element `i`.
pub proof fn lemma_body_line_in_place(ranges: Seq<Seq<char>>, elems: Seq<Seq<char>>, i: int)
    requires
        0 <= i < elems.len(),
    ensures
        0 <= line_start(ranges, elems, i),
        line_start(ranges, elems, i) + body_line(elems[i]).len() <= loop_text(ranges, elems).len(),
        loop_text(ranges, elems).subrange(
            line_start(ranges, elems, i),
            line_start(ranges, elems, i) + body_line(elems[i]).len(),
        ) == body_line(elems[i]),
{
    let before = elems.take(i);
    let after = elems.skip(i + 1);
    let line = body_line(elems[i]);
    assert(elems.take(i + 1).drop_last() =~= before);
    assert(body_lines(elems.take(i + 1)) == body_lines(before) + line);
    assert(elems =~= elems.take(i + 1) + after);
    lemma_body_lines_concat(elems.take(i + 1), after);
    let start = line_start(ranges, elems, i);
    let whole = loop_text(ranges, elems);
    assert(whole =~= header(ranges) + body_lines(before) + line + body_lines(after) + "\n}"@);
    assert(whole.subrange(start, start + line.len()) =~= line);
}

} // verus!
