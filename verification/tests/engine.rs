use dedoc::catalog::{Manifest, SearchError};
use dedoc::engine::{choose_width, Action, Event, SearchRun, Stage};
use dedoc::message::Warning;
use dedoc::model::{
    ExactResult, IndexEntry, SearchCache, SearchFlags, SearchOptions, VagueResult,
};
use dedoc::present::ListingLine;
use dedoc::walk::DirEntry;

fn options(precise: bool) -> SearchOptions {
    SearchOptions {
        query: "Vec".to_string(),
        docset: "rust".to_string(),
        flags: SearchFlags { precise, ..SearchFlags::default() },
    }
}

fn found() -> SearchCache {
    SearchCache {
        exact_results: vec![
            ExactResult { item: "std/vec".to_string(), fragment: Some("new".to_string()) },
            ExactResult { item: "std/vec".to_string(), fragment: Some("push".to_string()) },
        ],
        vague_results: vec![VagueResult {
            item: "std/mem".to_string(),
            contexts: vec!["a Vec of bytes".to_string()],
        }],
    }
}

fn index() -> Manifest {
    Manifest::Entries(vec![
        IndexEntry { name: "Vec::push".to_string(), path: "std/vec#push".to_string() },
        IndexEntry { name: "HashMap".to_string(), path: "std/collections/hash_map".to_string() },
        IndexEntry { name: "Vec::new".to_string(), path: "std/vec#new".to_string() },
    ])
}

fn entry(name: &str, is_dir: bool) -> DirEntry {
    DirEntry { name: name.to_string(), is_dir }
}

fn lines(text: &[&str]) -> Event {
    Event::Lines(Ok(text.iter().map(|l| l.to_string()).collect()))
}

fn start(precise: bool, open: &str) -> SearchRun {
    let (mut run, action) = SearchRun::new(options(precise), ".html", open.to_string(), "", 80);
    if open.parse::<usize>().is_err() {
        assert!(matches!(action, Action::Announce { .. }));
        assert!(run.expects(&Event::Done));
        assert!(!run.expects(&Event::CacheOptions(None)));
        assert!(matches!(run.step(Event::Done), Action::ReadCacheOptions));
    } else {
        assert!(matches!(action, Action::ReadCacheOptions));
    }
    assert!(run.expects(&Event::CacheOptions(None)));
    run
}

fn walk_the_docset(run: &mut SearchRun) -> Action {
    match run.step(Event::CacheOptions(None)) {
        Action::ReadDir { docset, path } => {
            assert_eq!(docset, "rust");
            assert_eq!(path, "");
        },
        _ => panic!("the root is not listed"),
    }
    assert!(run.expects(&Event::Entries(Ok(Vec::new()))));
    assert!(!run.expects(&lines(&[])));
    let action = run.step(Event::Entries(Ok(vec![
        entry("std", true),
        entry("Vec.html", false),
        entry("intro.html", false),
    ])));
    match action {
        Action::ReadFile { docset, path } => {
            assert_eq!(docset, "rust");
            assert_eq!(path, "intro.html");
        },
        _ => panic!("the page is not read"),
    }
    assert!(run.expects(&lines(&[])));
    match run.step(lines(&["nothing\n"])) {
        Action::ReadDir { path, .. } => assert_eq!(path, "std"),
        _ => panic!("the directory is not listed"),
    }
    match run.step(Event::Entries(Ok(vec![entry("mem.html", false)]))) {
        Action::ReadFile { path, .. } => assert_eq!(path, "std/mem.html"),
        _ => panic!("the page is not read"),
    }
    run.step(lines(&["first line\n", "  a Vec of bytes\n"]))
}

#[test]
fn a_search_is_announced_unless_a_result_is_asked_for() {
    let (run, action) = SearchRun::new(options(false), ".html", String::new(), "", 80);
    match action {
        Action::Announce { query } => assert_eq!(query, "Vec"),
        _ => panic!("the search is not announced"),
    }
    assert!(matches!(run.stage, Stage::Announcing));
    let (_, action) = SearchRun::new(options(false), ".html", "x".to_string(), "", 80);
    assert!(matches!(action, Action::Announce { .. }));
    let (run, action) = SearchRun::new(options(false), ".html", "2".to_string(), "", 80);
    assert!(matches!(action, Action::ReadCacheOptions));
    assert!(matches!(run.stage, Stage::ReadingOptions));
}

#[test]
fn the_width_follows_the_columns_that_are_asked_for() {
    let width =
        |columns: &str| SearchRun::new(options(false), ".html", String::new(), columns, 80).0;
    assert_eq!(width("").width, 80);
    assert!(width("").warnings.is_empty());
    assert_eq!(width("0").width, 999);
    assert_eq!(width("120").width, 120);
    assert_eq!(width("11").width, 11);
    assert_eq!(width("10").width, 80);
    assert_eq!(width("1").width, 80);
    assert!(width("1").warnings.is_empty());
    assert_eq!(width("wide").width, 80);
    assert_eq!(width("wide").warnings, vec![Warning::InvalidColumns]);
}

#[test]
fn the_width_is_chosen_from_the_columns() {
    assert_eq!(choose_width(80, ""), (80, false));
    assert_eq!(choose_width(80, "0"), (999, false));
    assert_eq!(choose_width(80, "11"), (11, false));
    assert_eq!(choose_width(80, "10"), (80, false));
    assert_eq!(choose_width(80, "5"), (80, false));
    assert_eq!(choose_width(80, "200"), (200, false));
    assert_eq!(choose_width(80, "many"), (80, true));
    assert_eq!(choose_width(80, "-5"), (80, true));
}

#[test]
fn a_miss_is_walked_stored_and_listed() {
    let mut run = start(true, "");
    let action = walk_the_docset(&mut run);
    match action {
        Action::StoreCache { records } => {
            assert_eq!(records.options, Some(options(true)));
            assert_eq!(
                records.results,
                Some(SearchCache {
                    exact_results: vec![ExactResult { item: "Vec".to_string(), fragment: None }],
                    vague_results: vec![VagueResult {
                        item: "std/mem".to_string(),
                        contexts: vec!["a Vec of bytes".to_string()],
                    }],
                })
            );
        },
        _ => panic!("the results are not stored"),
    }
    let action = run.step(Event::Stored(None));
    match action {
        Action::ShowListing { docset, exact, mentions } => {
            assert_eq!(docset, "rust");
            assert_eq!(
                exact,
                vec![ListingLine::Item { number: 1, item: "Vec".to_string(), fragment: None }]
            );
            assert_eq!(
                mentions,
                Some(vec![
                    ListingLine::Mention { number: 2, item: "std/mem".to_string() },
                    ListingLine::Context { text: "a Vec of bytes".to_string() },
                ])
            );
        },
        _ => panic!("the results are not listed"),
    }
    match run.step(Event::Done) {
        Action::Finish { warnings } => assert!(warnings.is_empty()),
        _ => panic!("the search does not end"),
    }
    assert!(matches!(run.stage, Stage::Finished));
    assert!(!run.expects(&Event::Done));
}

#[test]
fn a_miss_without_precision_goes_through_the_index() {
    let mut run = start(false, "");
    match run.step(Event::CacheOptions(None)) {
        Action::LoadIndex { docset } => assert_eq!(docset, "rust"),
        _ => panic!("the index is not read"),
    }
    assert!(run.expects(&Event::Index(Manifest::Absent)));
    match run.step(Event::Index(index())) {
        Action::StoreCache { records } => {
            assert_eq!(records.options, Some(options(false)));
            let stored = records.results.expect("results are stored");
            assert_eq!(stored.exact_results, found().exact_results);
            assert!(stored.vague_results.is_empty());
        },
        _ => panic!("the results are not stored"),
    }
    match run.step(Event::Stored(None)) {
        Action::ShowListing { exact, mentions, .. } => {
            assert_eq!(
                exact,
                vec![
                    ListingLine::Item {
                        number: 1,
                        item: "std/vec".to_string(),
                        fragment: Some("new".to_string()),
                    },
                    ListingLine::Fragment { number: 2, name: "push".to_string() },
                ]
            );
            assert_eq!(mentions, None);
        },
        _ => panic!("the results are not listed"),
    }
}

#[test]
fn a_hit_is_served_without_a_search() {
    let mut run = start(true, "");
    let action = run.step(Event::CacheOptions(Some(options(true))));
    assert!(matches!(action, Action::ReadCacheResults));
    let action = run.step(Event::CacheResults(Some(found())));
    match action {
        Action::ShowListing { exact, mentions, .. } => {
            assert_eq!(exact.len(), 2);
            assert_eq!(mentions.map(|m| m.len()), Some(2));
        },
        _ => panic!("the cached results are not listed"),
    }
}

#[test]
fn a_second_search_has_what_the_first_one_stored() {
    let mut first = start(true, "");
    let (stored_options, stored_results) = match walk_the_docset(&mut first) {
        Action::StoreCache { records } => (records.options, records.results),
        _ => panic!("the results are not stored"),
    };
    let shown_first = first.step(Event::Stored(None));
    let mut second = start(true, "");
    assert!(matches!(second.step(Event::CacheOptions(stored_options)), Action::ReadCacheResults));
    let shown_second = second.step(Event::CacheResults(stored_results));
    match (shown_first, shown_second) {
        (
            Action::ShowListing { exact: e1, mentions: m1, .. },
            Action::ShowListing { exact: e2, mentions: m2, .. },
        ) => {
            assert_eq!(e1, e2);
            assert_eq!(m1, m2);
        },
        _ => panic!("the results are not listed"),
    }
}

#[test]
fn a_cache_for_other_options_is_a_miss() {
    let mut run = start(true, "");
    assert!(matches!(run.step(Event::CacheOptions(Some(options(false)))), Action::ReadDir { .. }));
    let mut run = start(false, "");
    let other = SearchOptions { query: "vec".to_string(), ..options(false) };
    assert!(matches!(run.step(Event::CacheOptions(Some(other))), Action::LoadIndex { .. }));
    for flags in [
        SearchFlags { case_insensitive: true, ..SearchFlags::default() },
        SearchFlags { precise: true, ..SearchFlags::default() },
        SearchFlags { whole: true, ..SearchFlags::default() },
        SearchFlags { ignore_fragment: true, ..SearchFlags::default() },
    ] {
        let mut run = start(false, "");
        let cached = SearchOptions { flags, ..options(false) };
        assert!(matches!(run.step(Event::CacheOptions(Some(cached))), Action::LoadIndex { .. }));
    }
}

#[test]
fn results_that_cannot_be_read_are_a_miss() {
    let mut run = start(false, "");
    assert!(matches!(run.step(Event::CacheOptions(Some(options(false)))), Action::ReadCacheResults));
    assert!(matches!(run.step(Event::CacheResults(None)), Action::LoadIndex { .. }));
}

#[test]
fn cached_vague_results_are_left_out_without_precision() {
    let mut run = start(false, "");
    run.step(Event::CacheOptions(Some(options(false))));
    match run.step(Event::CacheResults(Some(found()))) {
        Action::ShowListing { exact, mentions, .. } => {
            assert_eq!(exact.len(), 2);
            assert_eq!(mentions, None);
        },
        _ => panic!("the results are not listed"),
    }
}

#[test]
fn a_cache_that_cannot_be_written_is_warned_of() {
    let mut run = start(false, "");
    run.step(Event::CacheOptions(None));
    run.step(Event::Index(index()));
    assert!(matches!(
        run.step(Event::Stored(Some("disk full".to_string()))),
        Action::ShowListing { .. }
    ));
    match run.step(Event::Done) {
        Action::Finish { warnings } => {
            assert_eq!(warnings, vec![Warning::CacheNotWritten { reason: "disk full".to_string() }]);
            assert_eq!(warnings[0].message(), "Could not write cache: disk full.");
        },
        _ => panic!("the search does not end"),
    }
}

#[test]
fn a_docset_without_an_index_is_incompatible() {
    let mut run = start(false, "");
    run.step(Event::CacheOptions(None));
    match run.step(Event::Index(Manifest::Absent)) {
        Action::Fail { error } => {
            assert_eq!(error, SearchError::Incompatible { docset: "rust".to_string() });
            assert_eq!(
                error.message(),
                "Index file does not exist for `rust`. Docsets that were downloaded prior to version `0.2.0` are incompatible. Please redownload the docset with `download rust --force`."
            );
        },
        _ => panic!("the run does not fail"),
    }
    assert!(matches!(run.stage, Stage::Finished));
}

#[test]
fn an_index_that_cannot_be_read_is_a_format_error() {
    let mut run = start(false, "");
    run.step(Event::CacheOptions(None));
    let manifest = Manifest::Malformed {
        path: "rust/index.json".to_string(),
        reason: "expected value at line 1".to_string(),
    };
    match run.step(Event::Index(manifest)) {
        Action::Fail { error } => assert_eq!(
            error.message(),
            "Could not deserialize `rust/index.json`: expected value at line 1"
        ),
        _ => panic!("the run does not fail"),
    }
}

#[test]
fn a_directory_or_a_file_that_cannot_be_read_ends_the_search() {
    let mut run = start(true, "");
    run.step(Event::CacheOptions(None));
    match run.step(Event::Entries(Err("permission denied".to_string()))) {
        Action::Fail { error } => {
            assert_eq!(
                error,
                SearchError::Directory { path: String::new(), reason: "permission denied".to_string() }
            );
            assert_eq!(error.message(), "Could not read `` directory: permission denied");
        },
        _ => panic!("the run does not fail"),
    }
    let mut run = start(true, "");
    run.step(Event::CacheOptions(None));
    run.step(Event::Entries(Ok(vec![entry("sub", true)])));
    match run.step(Event::Entries(Err("gone".to_string()))) {
        Action::Fail { error } => {
            assert_eq!(error.message(), "Could not read `sub` directory: gone")
        },
        _ => panic!("the run does not fail"),
    }
    let mut run = start(true, "");
    run.step(Event::CacheOptions(None));
    run.step(Event::Entries(Ok(vec![entry("a.html", false)])));
    match run.step(Event::Lines(Err("stream did not contain valid UTF-8".to_string()))) {
        Action::Fail { error } => assert_eq!(
            error.message(),
            "Could not open `a.html`: stream did not contain valid UTF-8"
        ),
        _ => panic!("the run does not fail"),
    }
}

#[test]
fn a_result_is_opened_by_its_number() {
    let serve = |open: &str, precise: bool, ignore_fragment: bool| {
        let asked = SearchOptions {
            flags: SearchFlags { precise, ignore_fragment, ..SearchFlags::default() },
            ..options(precise)
        };
        let same = SearchOptions {
            flags: SearchFlags { precise, ignore_fragment, ..SearchFlags::default() },
            ..options(precise)
        };
        let (mut run, _) = SearchRun::new(asked, ".html", open.to_string(), "100", 80);
        run.step(Event::CacheOptions(Some(same)));
        let action = run.step(Event::CacheResults(Some(found())));
        (run, action)
    };
    match serve("2", true, false).1 {
        Action::OpenPage { docset, item, fragment, width } => {
            assert_eq!(docset, "rust");
            assert_eq!(item, "std/vec");
            assert_eq!(fragment, Some("push".to_string()));
            assert_eq!(width, 100);
        },
        _ => panic!("the page is not opened"),
    }
    match serve("2", true, true).1 {
        Action::OpenPage { item, fragment, .. } => {
            assert_eq!(item, "std/vec");
            assert_eq!(fragment, None);
        },
        _ => panic!("the page is not opened"),
    }
    match serve("3", true, false).1 {
        Action::OpenPage { item, fragment, .. } => {
            assert_eq!(item, "std/mem");
            assert_eq!(fragment, None);
        },
        _ => panic!("the page is not opened"),
    }
    let (mut run, action) = serve("1", true, false);
    assert!(matches!(action, Action::OpenPage { .. }));
    assert!(matches!(run.step(Event::Opened(None)), Action::Finish { .. }));
    let (mut run, _) = serve("1", true, false);
    match run.step(Event::Opened(Some("no such page".to_string()))) {
        Action::Fail { error } => assert_eq!(error.message(), "no such page"),
        _ => panic!("the run does not fail"),
    }
    let (mut run, action) = serve("3", false, false);
    assert!(matches!(action, Action::ShowListing { .. }));
    match run.step(Event::Done) {
        Action::Finish { warnings } => {
            assert_eq!(warnings, vec![Warning::OpenOutOfBounds { number: 3 }])
        },
        _ => panic!("the search does not end"),
    }
}

#[test]
fn a_request_that_is_refused_is_warned_of_and_the_listing_shown() {
    for (open, warning) in [
        ("0", Warning::OpenOutOfBounds { number: 0 }),
        ("4", Warning::OpenOutOfBounds { number: 4 }),
        ("first", Warning::OpenNotANumber),
    ] {
        let mut run = start(true, open);
        run.step(Event::CacheOptions(Some(options(true))));
        let action = run.step(Event::CacheResults(Some(found())));
        assert!(matches!(action, Action::ShowListing { .. }));
        match run.step(Event::Done) {
            Action::Finish { warnings } => assert_eq!(warnings, vec![warning]),
            _ => panic!("the search does not end"),
        }
    }
}
