use dedoc::model::{ExactResult, VagueResult};
use dedoc::order::{list_comes_before, sort, sort_exact, sort_vague, Ranked};

fn exact(item: &str, fragment: Option<&str>) -> ExactResult {
    ExactResult { item: item.to_string(), fragment: fragment.map(|f| f.to_string()) }
}

fn vague(item: &str, contexts: &[&str]) -> VagueResult {
    VagueResult {
        item: item.to_string(),
        contexts: contexts.iter().map(|c| c.to_string()).collect(),
    }
}

#[test]
fn exact_results_sort_by_item_then_fragment() {
    let results = vec![
        exact("b", Some("a")),
        exact("a", Some("z")),
        exact("b", None),
        exact("a", Some("a")),
        exact("ab", None),
        exact("a", None),
        exact("B", None),
        exact("a", Some("")),
        exact("é", None),
    ];
    let sorted = sort_exact(results);
    assert_eq!(
        sorted,
        vec![
            exact("B", None),
            exact("a", None),
            exact("a", Some("")),
            exact("a", Some("a")),
            exact("a", Some("z")),
            exact("ab", None),
            exact("b", None),
            exact("b", Some("a")),
            exact("é", None),
        ]
    );
}

#[test]
fn sorting_agrees_with_the_order_of_strings() {
    let items = ["delta", "alpha", "", "Alpha", "alp", "zeta", "alpha", "éclair", "z", "beta"];
    let results: Vec<ExactResult> = items.iter().map(|i| exact(i, None)).collect();
    let mut expected: Vec<String> = items.iter().map(|i| i.to_string()).collect();
    expected.sort();
    let sorted: Vec<String> = sort_exact(results).into_iter().map(|r| r.item).collect();
    assert_eq!(sorted, expected);
}

#[test]
fn vague_results_sort_by_item_then_contexts() {
    let results = vec![
        vague("b", &["x"]),
        vague("a", &["y", "a"]),
        vague("a", &["y"]),
        vague("a", &[]),
        vague("a", &["x", "z"]),
    ];
    assert_eq!(
        sort_vague(results),
        vec![
            vague("a", &[]),
            vague("a", &["x", "z"]),
            vague("a", &["y"]),
            vague("a", &["y", "a"]),
            vague("b", &["x"]),
        ]
    );
}

#[test]
fn sort_keeps_every_value() {
    assert_eq!(sort(Vec::<ExactResult>::new()), Vec::<ExactResult>::new());
    assert_eq!(sort(vec![exact("a", None)]), vec![exact("a", None)]);
    let many: Vec<ExactResult> =
        (0..200).map(|i| exact(&format!("item{}", (i * 37) % 101), None)).collect();
    let sorted = sort(many);
    assert_eq!(sorted.len(), 200);
    for pair in sorted.windows(2) {
        assert!(pair[0].item <= pair[1].item);
        assert!(!pair[1].comes_before(&pair[0]));
    }
}

#[test]
fn lists_are_ordered_by_their_first_difference() {
    let list = |v: &[&str]| v.iter().map(|s| s.to_string()).collect::<Vec<String>>();
    assert!(list_comes_before(&list(&[]), &list(&["a"])));
    assert!(!list_comes_before(&list(&["a"]), &list(&[])));
    assert!(!list_comes_before(&list(&["a"]), &list(&["a"])));
    assert!(list_comes_before(&list(&["a", "b"]), &list(&["a", "c"])));
    assert!(list_comes_before(&list(&["a"]), &list(&["a", "a"])));
    assert!(!list_comes_before(&list(&["b"]), &list(&["a", "z"])));
}
