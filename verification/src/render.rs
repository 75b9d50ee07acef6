//! The text of a value, and lists of texts joined by a separator.

use vstd::prelude::*;

verus! {

/// A value with a canonical text.
///
/// `text` is that text as a sequence of characters; `render` builds it.
pub trait Render {
    /// The canonical text of this value.
    spec fn text(&self) -> Seq<char>;

    /// Builds the canonical text.
    fn render(&self) -> (out: String)
        ensures
            out@ == self.text(),
    ;
}

/// A string is its own text.
impl Render for String {
    open spec fn text(&self) -> Seq<char> {
        self@
    }

    fn render(&self) -> (out: String) {
        self.clone()
    }
}

/// The texts of the items of a list, in the list's order.
pub open spec fn texts<T: Render>(items: Seq<T>) -> Seq<Seq<char>> {
    Seq::new(items.len(), |i: int| items[i].text())
}

/// The parts in order, with `sep` between each two neighbours: nothing before
/// the first part and nothing after the last.
pub open spec fn joined(parts: Seq<Seq<char>>, sep: Seq<char>) -> Seq<char>
    decreases parts.len(),
{
    if parts.len() == 0 {
        Seq::empty()
    } else if parts.len() == 1 {
        parts[0]
    } else {
        joined(parts.drop_last(), sep) + sep + parts.last()
    }
}

/// The texts of `items`, separated by a comma and a space.
pub fn display_comma_separated<T: Render>(items: &[T]) -> (out: String)
    ensures
        out@ == joined(texts(items@), ", "@),
{
    let mut out = String::new();
    let mut i: usize = 0;
    while i < items.len()
        invariant
            i <= items.len(),
            out@ == joined(texts(items@.take(i as int)), ", "@),
        decreases items.len() - i,
    {
        let part = items[i].render();
        if i > 0 {
            out.append(", ");
        }
        out.append(part.as_str());
        proof {
            let now = texts(items@.take(i + 1));
            assert(now.drop_last() =~= texts(items@.take(i as int)));
            assert(now.last() == items@[i as int].text());
        }
        i += 1;
    }
    proof {
        assert(items@.take(i as int) =~= items@);
    }
    out
}

} // verus!
