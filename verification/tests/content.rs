use dedoc::content::{
    convert_path_to_item, get_context_around_query, has_page_extension, scan_line, scan_lines,
    search_docset_precisely, DocFile,
};
use dedoc::model::{ExactResult, VagueResult};

fn file(name: &str, path: &str, lines: &[&str]) -> DocFile {
    DocFile {
        name: name.to_string(),
        path: path.to_string(),
        lines: lines.iter().map(|l| l.to_string()).collect(),
    }
}

#[test]
fn context_of_a_long_line_is_cut_on_both_sides() {
    let line = format!("{}NEEDLE{}", "a".repeat(50), "b".repeat(50));
    let context = get_context_around_query(&line, 50, 6);
    assert_eq!(context, format!("{}NEEDLE{}", "a".repeat(33), "b".repeat(33)));
    assert!(context.contains("NEEDLE"));
    assert!(context.len() < line.len());
    assert_eq!(context.trim(), context);
}

#[test]
fn context_of_a_short_line_is_the_trimmed_line() {
    assert_eq!(get_context_around_query("  see foo here \n", 6, 3), "see foo here");
    assert_eq!(get_context_around_query("", 0, 0), "");
    assert_eq!(get_context_around_query("foo", 0, 3), "foo");
}

#[test]
fn context_loses_white_space_at_the_cut() {
    let line = format!("{} NEEDLE {}", "a".repeat(32), "b".repeat(60));
    let context = get_context_around_query(&line, 33, 6);
    assert_eq!(context, format!("{} NEEDLE {}", "a".repeat(32), "b".repeat(32)));
    let spaced = format!("{}x {}NEEDLE{} y{}", "a".repeat(10), "c".repeat(32), "d".repeat(32), "b".repeat(9));
    let context = get_context_around_query(&spaced, 44, 6);
    assert_eq!(context, format!("{}NEEDLE{}", "c".repeat(32), "d".repeat(32)));
}

#[test]
fn context_of_a_query_between_white_space_may_lose_it() {
    let line = format!("{}  {}", " ".repeat(40), " ".repeat(40));
    assert_eq!(get_context_around_query(&line, 40, 2), "");
    let kept = format!("{} x {}", "a".repeat(40), "b".repeat(40));
    let context = get_context_around_query(&kept, 40, 3);
    assert_eq!(context, format!("{} x {}", "a".repeat(33), "b".repeat(33)));
    let lost = format!("{} x{}", "a".repeat(40), " ".repeat(40));
    assert_eq!(get_context_around_query(&lost, 40, 3), format!("{} x", "a".repeat(33)));
    let cut = format!("{} x {}", " ".repeat(40), " ".repeat(40));
    assert_eq!(get_context_around_query(&cut, 40, 3), "x");
}

#[test]
fn context_of_a_line_of_wide_characters_may_be_the_whole_line() {
    let line = format!("\u{1F600}{}NEEDLE{}\u{1F600}", "a".repeat(30), "b".repeat(30));
    assert_eq!(line.len(), 74);
    assert_eq!(get_context_around_query(&line, 34, 6), line);
    let longer = format!("\u{1F600}{}NEEDLE{}\u{1F600}", "a".repeat(33), "b".repeat(33));
    let context = get_context_around_query(&longer, 37, 6);
    assert_eq!(context, format!("{}NEEDLE{}", "a".repeat(33), "b".repeat(33)));
    assert!(context.len() < longer.len());
}

#[test]
fn context_never_splits_a_character() {
    let line = format!("{}NEEDLE{}", "é".repeat(30), "ü".repeat(30));
    let context = get_context_around_query(&line, 60, 6);
    assert_eq!(context, format!("{}NEEDLE{}", "é".repeat(17), "ü".repeat(17)));
    let odd = format!("a{}NEEDLE{}", "é".repeat(30), "ü".repeat(30));
    let context = get_context_around_query(&odd, 61, 6);
    assert_eq!(context, format!("{}NEEDLE{}", "é".repeat(17), "ü".repeat(17)));
}

#[test]
fn context_of_an_offset_behind_the_line_is_its_last_character() {
    assert_eq!(get_context_around_query("abc", 100, 2), "c");
    assert_eq!(get_context_around_query("abé", 100, 2), "é");
    assert_eq!(get_context_around_query("abc", usize::MAX, usize::MAX), "c");
}

#[test]
fn scan_line_finds_the_first_occurrence() {
    assert_eq!(scan_line("a foo and a foo", "foo", false), Some("a foo and a foo".to_string()));
    assert_eq!(scan_line("a Foo", "foo", false), None);
    assert_eq!(scan_line("a Foo\n", "foo", true), Some("a Foo".to_string()));
    assert_eq!(scan_line("nothing", "foo", true), None);
}

#[test]
fn scan_lines_keeps_the_order_of_the_lines() {
    let lines: Vec<String> =
        vec!["first foo", "second", "third foo "].into_iter().map(String::from).collect();
    assert_eq!(scan_lines(&lines, "foo", false), vec!["first foo", "third foo"]);
    assert_eq!(scan_lines(&lines, "bar", false), Vec::<String>::new());
}

#[test]
fn page_extension_and_item() {
    assert!(has_page_extension("alpha.html", ".html"));
    assert!(!has_page_extension("alpha.htm", ".html"));
    assert!(!has_page_extension("html", ".html"));
    assert!(has_page_extension(".html", ".html"));
    assert_eq!(convert_path_to_item("std/vec/alpha.html", ".html"), "std/vec/alpha");
    assert_eq!(convert_path_to_item("a.b.html", ".html"), "a.b");
    assert_eq!(convert_path_to_item("plain", ".html"), "plain");
    assert_eq!(convert_path_to_item("é.page", ".page"), "é");
}

#[test]
fn content_search_tells_names_from_bodies() {
    let files = vec![
        file("beta.page", "beta.page", &["nothing here\n", "there is a foo in the middle\n"]),
        file("foo_alpha.page", "foo_alpha.page", &["foo is in the body too\n"]),
        file("gamma.txt", "gamma.txt", &["foo\n"]),
        file("delta.page", "sub/delta.page", &["no match\n"]),
    ];
    let (exact, vague) = search_docset_precisely(&files, ".page", "foo", false);
    assert_eq!(exact, vec![ExactResult { item: "foo_alpha".to_string(), fragment: None }]);
    assert_eq!(
        vague,
        vec![VagueResult {
            item: "beta".to_string(),
            contexts: vec!["there is a foo in the middle".to_string()],
        }]
    );
}

#[test]
fn content_search_sorts_its_results() {
    let files = vec![
        file("z.html", "z/z.html", &["query\n"]),
        file("query_b.html", "b/query_b.html", &[]),
        file("a.html", "a/a.html", &["x query y\n", "QUERY\n", "query again\n"]),
        file("query_a.html", "a/query_a.html", &["query\n"]),
    ];
    let (exact, vague) = search_docset_precisely(&files, ".html", "query", false);
    assert_eq!(
        exact,
        vec![
            ExactResult { item: "a/query_a".to_string(), fragment: None },
            ExactResult { item: "b/query_b".to_string(), fragment: None },
        ]
    );
    assert_eq!(
        vague,
        vec![
            VagueResult {
                item: "a/a".to_string(),
                contexts: vec!["x query y".to_string(), "query again".to_string()],
            },
            VagueResult { item: "z/z".to_string(), contexts: vec!["query".to_string()] },
        ]
    );
    let (_, folded) = search_docset_precisely(&files, ".html", "Query", true);
    assert_eq!(folded[0].contexts.len(), 3);
    assert_eq!(folded[0].contexts[1], "QUERY");
}
