use foreach_ast::{ForEach, ForEachOr, LoopRange, Render, SelectItem};

fn binding(item: &str, range: &str) -> LoopRange {
    LoopRange { item: item.to_string(), range: range.to_string() }
}

#[test]
fn copy_of_a_range_is_equal() {
    let range = binding("x", "1..10");
    assert_eq!(range.clone(), range);
}

#[test]
fn copy_of_a_loop_is_equal() {
    let node = ForEach {
        ranges: vec![binding("x", "1..10"), binding("y", "1..5")],
        body: vec!["A".to_string(), "B".to_string()],
    };
    let copy = node.clone();
    assert_eq!(copy, node);
    assert_eq!(copy.render(), node.render());
}

#[test]
fn copy_of_a_nested_element_is_equal() {
    let inner = ForEach {
        ranges: vec![binding("y", "1..5")],
        body: vec![ForEachOr::Item("B".to_string())],
    };
    let node = ForEachOr::ForEach(ForEach {
        ranges: vec![binding("x", "1..10")],
        body: vec![ForEachOr::Item("A".to_string()), ForEachOr::ForEach(inner)],
    });
    let copy = node.clone();
    assert_eq!(copy, node);
    assert_eq!(copy.render(), node.render());
    assert_eq!(ForEachOr::Item(4u8).clone(), ForEachOr::Item(4u8));
}

#[test]
fn copy_of_a_select_item_is_equal() {
    let node = SelectItem::ForEach(ForEach {
        ranges: vec![binding("x", "1..10")],
        body: vec![
            SelectItem::Expr("a".to_string()),
            SelectItem::ForEach(ForEach { ranges: vec![binding("y", "1..5")], body: vec![] }),
        ],
    });
    let copy = node.clone();
    assert_eq!(copy, node);
    assert_eq!(copy.render(), "FOR EACH x in 1..10{\n  a,\n  FOR EACH y in 1..5{\n\n},\n\n}");
}

#[test]
fn nodes_are_ordered_field_by_field() {
    assert!(binding("a", "9") < binding("b", "0"));
    assert!(binding("a", "1") < binding("a", "2"));
    let short: ForEachOr<u8> = ForEachOr::ForEach(ForEach { ranges: vec![], body: vec![] });
    assert!(short < ForEachOr::Item(0));
    assert_ne!(ForEachOr::Item(1u8), ForEachOr::Item(2u8));
}
