use foreach_ast::{ForEach, ForEachOr, LoopRange};

fn binding(item: &str, range: &str) -> LoopRange {
    LoopRange { item: item.to_string(), range: range.to_string() }
}

fn row(items: &[&str]) -> ForEachOr<Vec<String>> {
    ForEachOr::Item(items.iter().map(|s| s.to_string()).collect())
}

#[test]
fn row_items_share_one_line() {
    let node = ForEach { ranges: vec![binding("x", "1..10")], body: vec![row(&["a", "b", "c"])] };
    assert_eq!(node.vec_display(), "FOR EACH x in 1..10{\n  a, b, c,\n\n}");
}

#[test]
fn rows_under_two_ranges() {
    let node = ForEach {
        ranges: vec![binding("x", "1..10"), binding("y", "1..5")],
        body: vec![row(&["a", "b"]), row(&["c"])],
    };
    assert_eq!(node.vec_display(), "FOR EACH (x in 1..10, y in 1..5){\n  a, b,\n  c,\n\n}");
}

#[test]
fn empty_row_leaves_an_empty_line_body() {
    let node = ForEach { ranges: vec![binding("x", "1..10")], body: vec![row(&[])] };
    assert_eq!(node.vec_display(), "FOR EACH x in 1..10{\n  ,\n\n}");
}

#[test]
fn loop_over_rows_without_body() {
    let node: ForEach<ForEachOr<Vec<String>>> =
        ForEach { ranges: vec![binding("x", "1..10")], body: vec![] };
    assert_eq!(node.vec_display(), "FOR EACH x in 1..10{\n\n}");
}

#[test]
fn inner_loop_over_rows_is_written_by_the_same_rule() {
    let inner = ForEach { ranges: vec![binding("y", "1..5")], body: vec![row(&["c", "d"])] };
    let outer = ForEach {
        ranges: vec![binding("x", "1..10")],
        body: vec![row(&["a", "b"]), ForEachOr::ForEach(inner), row(&["e"])],
    };
    assert_eq!(
        outer.vec_display(),
        "FOR EACH x in 1..10{\n  a, b,\n  FOR EACH y in 1..5{\n  c, d,\n\n},\n  e,\n\n}"
    );
}

#[test]
fn rows_of_ranges_use_each_items_text() {
    let node = ForEach {
        ranges: vec![binding("x", "1..10")],
        body: vec![ForEachOr::Item(vec![binding("p", "q"), binding("r", "s")])],
    };
    assert_eq!(node.vec_display(), "FOR EACH x in 1..10{\n  p in q, r in s,\n\n}");
}
