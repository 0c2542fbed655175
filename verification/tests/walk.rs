use dedoc::model::{ExactResult, VagueResult};
use dedoc::walk::{join, Awaiting, DirEntry, DocsetWalk, WalkAction, WalkEvent};

fn entry(name: &str, is_dir: bool) -> DirEntry {
    DirEntry { name: name.to_string(), is_dir }
}

fn lines(text: &[&str]) -> WalkEvent {
    WalkEvent::Lines(text.iter().map(|l| l.to_string()).collect())
}

fn read_dir(path: &str) -> WalkAction {
    WalkAction::ReadDir { path: path.to_string() }
}

fn read_file(path: &str) -> WalkAction {
    WalkAction::ReadFile { path: path.to_string() }
}

#[test]
fn paths_are_joined_with_a_slash() {
    assert_eq!(join("", "a.html"), "a.html");
    assert_eq!(join("std", "vec.html"), "std/vec.html");
    assert_eq!(join("std/vec", "é.html"), "std/vec/é.html");
}

#[test]
fn a_walk_starts_at_the_root() {
    let (walk, action) = DocsetWalk::new(".html", "Foo", true);
    assert_eq!(action, read_dir(""));
    assert_eq!(walk.query, "foo");
    assert!(matches!(walk.awaiting, Awaiting::Entries(_)));
    let (walk, _) = DocsetWalk::new(".html", "Foo", false);
    assert_eq!(walk.query, "Foo");
}

#[test]
fn a_walk_of_an_empty_docset_finds_nothing() {
    let (mut walk, _) = DocsetWalk::new(".html", "foo", false);
    assert_eq!(walk.step(WalkEvent::Entries(Vec::new())), WalkAction::Done);
    let (exact, vague) = walk.finish();
    assert!(exact.is_empty());
    assert!(vague.is_empty());
}

#[test]
fn a_walk_tells_names_from_bodies() {
    let (mut walk, action) = DocsetWalk::new(".page", "foo", false);
    assert_eq!(action, read_dir(""));
    let action = walk.step(WalkEvent::Entries(vec![
        entry("foo_alpha.page", false),
        entry("beta.page", false),
    ]));
    assert_eq!(action, read_file("beta.page"));
    let action = walk.step(lines(&["nothing here\n", "there is a foo in the middle\n"]));
    assert_eq!(action, WalkAction::Done);
    let (exact, vague) = walk.finish();
    assert_eq!(exact, vec![ExactResult { item: "foo_alpha".to_string(), fragment: None }]);
    assert_eq!(
        vague,
        vec![VagueResult {
            item: "beta".to_string(),
            contexts: vec!["there is a foo in the middle".to_string()],
        }]
    );
}

#[test]
fn a_walk_goes_into_every_directory() {
    let (mut walk, _) = DocsetWalk::new(".html", "query", false);
    let action = walk.step(WalkEvent::Entries(vec![
        entry("z.html", false),
        entry("sub.html", true),
        entry("notes.txt", false),
        entry("deep", true),
        entry("query.html", false),
    ]));
    assert_eq!(action, read_file("z.html"));
    let action = walk.step(lines(&["no match\n"]));
    assert_eq!(action, read_dir("sub.html"));
    let action = walk.step(WalkEvent::Entries(vec![entry("a.html", false)]));
    assert_eq!(action, read_file("sub.html/a.html"));
    let action = walk.step(lines(&["a query\n", "another query\n"]));
    assert_eq!(action, read_dir("deep"));
    let action = walk.step(WalkEvent::Entries(vec![
        entry("deeper", true),
        entry("my_query.html", false),
    ]));
    assert_eq!(action, read_dir("deep/deeper"));
    let action = walk.step(WalkEvent::Entries(vec![entry("b.html", false)]));
    assert_eq!(action, read_file("deep/deeper/b.html"));
    let action = walk.step(lines(&["QUERY\n"]));
    assert_eq!(action, WalkAction::Done);
    assert!(matches!(walk.awaiting, Awaiting::Nothing));
    let (exact, vague) = walk.finish();
    assert_eq!(
        exact,
        vec![
            ExactResult { item: "deep/my_query".to_string(), fragment: None },
            ExactResult { item: "query".to_string(), fragment: None },
        ]
    );
    assert_eq!(
        vague,
        vec![VagueResult {
            item: "sub.html/a".to_string(),
            contexts: vec!["a query".to_string(), "another query".to_string()],
        }]
    );
}

#[test]
fn a_walk_that_ignores_case_folds_names_and_lines() {
    let (mut walk, _) = DocsetWalk::new(".html", "Query", true);
    let action = walk.step(WalkEvent::Entries(vec![
        entry("b.html", false),
        entry("MY_QUERY.html", false),
    ]));
    assert_eq!(action, read_file("b.html"));
    assert_eq!(walk.step(lines(&["A QUERY here\n"])), WalkAction::Done);
    let (exact, vague) = walk.finish();
    assert_eq!(exact, vec![ExactResult { item: "MY_QUERY".to_string(), fragment: None }]);
    assert_eq!(
        vague,
        vec![VagueResult { item: "b".to_string(), contexts: vec!["A QUERY here".to_string()] }]
    );
}
