use dedoc::index::{search_docset_in_filenames, split_to_item_and_fragment};
use dedoc::model::{ExactResult, IndexEntry};

fn entry(name: &str, path: &str) -> IndexEntry {
    IndexEntry { name: name.to_string(), path: path.to_string() }
}

fn exact(item: &str, fragment: Option<&str>) -> ExactResult {
    ExactResult { item: item.to_string(), fragment: fragment.map(|f| f.to_string()) }
}

#[test]
fn split_parts_a_path_at_its_first_delimiter() {
    assert_eq!(
        split_to_item_and_fragment("std/vec/struct.Vec.html#method.new"),
        ("std/vec/struct.Vec.html".to_string(), Some("method.new".to_string()))
    );
    assert_eq!(split_to_item_and_fragment("std/vec"), ("std/vec".to_string(), None));
    assert_eq!(
        split_to_item_and_fragment("a#b#c"),
        ("a".to_string(), Some("b#c".to_string()))
    );
    assert_eq!(split_to_item_and_fragment("a#"), ("a".to_string(), Some(String::new())));
    assert_eq!(split_to_item_and_fragment("#x"), (String::new(), Some("x".to_string())));
    assert_eq!(split_to_item_and_fragment(""), (String::new(), None));
    assert_eq!(
        split_to_item_and_fragment("héllo#wörld"),
        ("héllo".to_string(), Some("wörld".to_string()))
    );
}

#[test]
fn filename_search_finds_the_vec_constructor() {
    let entries = vec![entry("Vec", "std/vec/struct.Vec.html#method.new")];
    let results = search_docset_in_filenames(&entries, "Vec", true);
    assert_eq!(results, vec![exact("std/vec/struct.Vec.html", Some("method.new"))]);
}

#[test]
fn filename_search_returns_each_matching_entry_sorted() {
    let entries = vec![
        entry("zeta", "z/page#top"),
        entry("alpha", "a/page#b"),
        entry("beta", "other"),
        entry("alpha", "a/page"),
        entry("alpha", "a/page#a"),
        entry("unrelated", "x/PAGE"),
    ];
    let results = search_docset_in_filenames(&entries, "page", false);
    assert_eq!(
        results,
        vec![
            exact("a/page", None),
            exact("a/page", Some("a")),
            exact("a/page", Some("b")),
            exact("z/page", Some("top")),
        ]
    );
    let folded = search_docset_in_filenames(&entries, "page", true);
    assert_eq!(folded.len(), 5);
    assert_eq!(folded[3], exact("x/PAGE", None));
}

#[test]
fn filename_search_matches_names_as_well_as_paths() {
    let entries = vec![entry("HashMap", "collections/map"), entry("Vec", "collections/vec")];
    assert_eq!(
        search_docset_in_filenames(&entries, "Hash", false),
        vec![exact("collections/map", None)]
    );
    assert_eq!(
        search_docset_in_filenames(&entries, "hash", false),
        Vec::<ExactResult>::new()
    );
    assert_eq!(
        search_docset_in_filenames(&entries, "hash", true),
        vec![exact("collections/map", None)]
    );
}

#[test]
fn filename_search_of_nothing_is_empty() {
    assert_eq!(search_docset_in_filenames(&Vec::new(), "x", false), Vec::<ExactResult>::new());
    let entries = vec![entry("a", "b")];
    assert_eq!(search_docset_in_filenames(&entries, "zzz", true), Vec::<ExactResult>::new());
    assert_eq!(search_docset_in_filenames(&entries, "", false), vec![exact("b", None)]);
}
