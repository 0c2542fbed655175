use dedoc::catalog::{load_index, Manifest, SearchError};
use dedoc::model::IndexEntry;

#[test]
fn an_index_gives_its_entries_in_their_order() {
    let entries = vec![
        IndexEntry { name: "b".to_string(), path: "p/b".to_string() },
        IndexEntry { name: "a".to_string(), path: "p/a#x".to_string() },
    ];
    let loaded = load_index("rust", Manifest::Entries(entries)).expect("entries");
    assert_eq!(loaded.len(), 2);
    assert_eq!(loaded[0].name, "b");
    assert_eq!(loaded[0].path, "p/b");
    assert_eq!(loaded[1].name, "a");
    assert_eq!(loaded[1].path, "p/a#x");
    assert!(load_index("rust", Manifest::Entries(Vec::new())).expect("entries").is_empty());
}

#[test]
fn a_missing_index_names_the_docset() {
    match load_index("rust~1.70", Manifest::Absent) {
        Err(error) => {
            assert_eq!(error, SearchError::Incompatible { docset: "rust~1.70".to_string() })
        },
        Ok(_) => panic!("entries of no index"),
    }
}

#[test]
fn a_malformed_index_keeps_its_path_and_reason() {
    let manifest = Manifest::Malformed { path: "x/index.json".to_string(), reason: "EOF".to_string() };
    match load_index("x", manifest) {
        Err(error) => assert_eq!(
            error,
            SearchError::Format { path: "x/index.json".to_string(), reason: "EOF".to_string() }
        ),
        Ok(_) => panic!("entries of a malformed index"),
    }
}

#[test]
fn each_error_has_its_text() {
    let text = |s: &str| s.to_string();
    assert_eq!(
        SearchError::Incompatible { docset: text("go") }.message(),
        "Index file does not exist for `go`. Docsets that were downloaded prior to version `0.2.0` are incompatible. Please redownload the docset with `download go --force`."
    );
    assert_eq!(
        SearchError::Format { path: text("a/b"), reason: text("bad") }.message(),
        "Could not deserialize `a/b`: bad"
    );
    assert_eq!(
        SearchError::Directory { path: text("a/b"), reason: text("denied") }.message(),
        "Could not read `a/b` directory: denied"
    );
    assert_eq!(
        SearchError::File { path: text("a/b.html"), reason: text("denied") }.message(),
        "Could not open `a/b.html`: denied"
    );
    assert_eq!(SearchError::Page { reason: text("no page") }.message(), "no page");
    assert_eq!(SearchError::TooManyResults.message(), "Too many results.");
}
