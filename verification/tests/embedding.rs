use foreach_ast::{ConstructForEach, ForEach, ForEachOr, LoopRange, Render, SelectItem, ToForEach};

fn binding(item: &str, range: &str) -> LoopRange {
    LoopRange { item: item.to_string(), range: range.to_string() }
}

#[test]
fn leaves_become_items_in_order() {
    let body = vec!["a".to_string(), "b".to_string(), "c".to_string()].for_each();
    assert_eq!(
        body,
        vec![
            ForEachOr::Item("a".to_string()),
            ForEachOr::Item("b".to_string()),
            ForEachOr::Item("c".to_string()),
        ]
    );
}

#[test]
fn no_leaves_give_no_items() {
    let body: Vec<ForEachOr<u8>> = Vec::<u8>::new().for_each();
    assert!(body.is_empty());
}

#[test]
fn lifting_keeps_length_and_repeats() {
    let body = vec![7u8, 7, 3, 7].for_each();
    assert_eq!(body.len(), 4);
    assert_eq!(
        body,
        vec![ForEachOr::Item(7), ForEachOr::Item(7), ForEachOr::Item(3), ForEachOr::Item(7)]
    );
}

#[test]
fn leaf_converts_into_item() {
    let node: ForEachOr<u8> = ForEachOr::from(5);
    assert_eq!(node, ForEachOr::Item(5));
    let other: ForEachOr<String> = "A".to_string().into();
    assert_eq!(other, ForEachOr::Item("A".to_string()));
}

#[test]
fn embedded_loop_is_recovered() {
    let foreach = ForEach {
        ranges: vec![binding("x", "1..10"), binding("y", "1..5")],
        body: vec!["A".to_string(), "B".to_string()].for_each(),
    };
    let kept = foreach.clone();
    match ForEachOr::construct_for_each(foreach) {
        ForEachOr::ForEach(inner) => assert_eq!(inner, kept),
        ForEachOr::Item(_) => panic!("a loop was embedded"),
    }
}

#[test]
fn loops_embed_into_loops() {
    let innermost: ForEach<ForEachOr<String>> = ForEach {
        ranges: vec![binding("z", "1..2")],
        body: vec!["C".to_string()].for_each(),
    };
    let middle = ForEach {
        ranges: vec![binding("y", "1..5")],
        body: vec![ForEachOr::construct_for_each(innermost)],
    };
    let outer = ForEach {
        ranges: vec![binding("x", "1..10")],
        body: vec![ForEachOr::construct_for_each(middle)],
    };
    assert_eq!(
        outer.render(),
        "FOR EACH x in 1..10{\n  FOR EACH y in 1..5{\n  FOR EACH z in 1..2{\n  C,\n\n},\n\n},\n\n}"
    );
}

fn embed<N: ConstructForEach>(ranges: Vec<LoopRange>, body: Vec<N>) -> N {
    N::construct_for_each(ForEach { ranges, body })
}

#[test]
fn one_routine_builds_every_node_kind() {
    let element: ForEachOr<String> = embed(vec![binding("x", "1..10")], vec!["A".to_string()].for_each());
    assert_eq!(element.render(), "FOR EACH x in 1..10{\n  A,\n\n}");
    let item: SelectItem = embed(vec![binding("x", "1..10")], vec![SelectItem::Expr("A".to_string())]);
    assert_eq!(item.render(), "FOR EACH x in 1..10{\n  A,\n\n}");
}

#[test]
fn select_item_embeds_a_loop() {
    let foreach = ForEach {
        ranges: vec![binding("x", "1..10")],
        body: vec![SelectItem::Expr("a + x".to_string())],
    };
    let kept = foreach.clone();
    match SelectItem::construct_for_each(foreach) {
        SelectItem::ForEach(inner) => assert_eq!(inner, kept),
        SelectItem::Expr(_) => panic!("a loop was embedded"),
    }
}

#[test]
fn select_item_text() {
    assert_eq!(SelectItem::Expr("a AS b".to_string()).render(), "a AS b");
    let inner = ForEach {
        ranges: vec![binding("y", "1..5")],
        body: vec![SelectItem::Expr("col_y".to_string())],
    };
    let outer = ForEach {
        ranges: vec![binding("x", "1..10"), binding("w", "1..3")],
        body: vec![SelectItem::Expr("col_x".to_string()), SelectItem::ForEach(inner)],
    };
    let alone = outer.render();
    assert_eq!(
        alone,
        "FOR EACH (x in 1..10, w in 1..3){\n  col_x,\n  FOR EACH y in 1..5{\n  col_y,\n\n},\n\n}"
    );
    assert_eq!(SelectItem::ForEach(outer).render(), alone);
}
