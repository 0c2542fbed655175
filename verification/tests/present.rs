use dedoc::message::{number_text, Warning};
use dedoc::model::{ExactResult, VagueResult};
use dedoc::present::{
    parse_number, print_search_results, print_vague_search_results, resolve_open, ListingLine,
    OpenRequest,
};

fn exact(item: &str, fragment: Option<&str>) -> ExactResult {
    ExactResult { item: item.to_string(), fragment: fragment.map(|f| f.to_string()) }
}

fn vague(item: &str, contexts: &[&str]) -> VagueResult {
    VagueResult {
        item: item.to_string(),
        contexts: contexts.iter().map(|c| c.to_string()).collect(),
    }
}

fn page(item: &str, fragment: Option<&str>) -> OpenRequest {
    OpenRequest::Page { item: item.to_string(), fragment: fragment.map(|f| f.to_string()) }
}

#[test]
fn numbers_are_parsed_as_decimal() {
    assert_eq!(parse_number("0"), Some(0));
    assert_eq!(parse_number("42"), Some(42));
    assert_eq!(parse_number("+7"), Some(7));
    assert_eq!(parse_number("007"), Some(7));
    assert_eq!(parse_number(""), None);
    assert_eq!(parse_number("+"), None);
    assert_eq!(parse_number("-1"), None);
    assert_eq!(parse_number("++1"), None);
    assert_eq!(parse_number("1 "), None);
    assert_eq!(parse_number("1x"), None);
    assert_eq!(parse_number("x"), None);
    assert_eq!(parse_number("१"), None);
    assert_eq!(parse_number(&usize::MAX.to_string()), Some(usize::MAX));
    assert_eq!(parse_number(&format!("{}0", usize::MAX)), None);
    assert_eq!(parse_number("99999999999999999999999999999999999999999"), None);
    for text in ["0", "5", "+5", "", "abc", "12a", "18446744073709551615", "18446744073709551616"] {
        assert_eq!(parse_number(text), text.parse::<usize>().ok());
    }
}

#[test]
fn numbers_are_written_as_decimal() {
    assert_eq!(number_text(0), "0");
    assert_eq!(number_text(9), "9");
    assert_eq!(number_text(10), "10");
    assert_eq!(number_text(1234567890), "1234567890");
    assert_eq!(number_text(usize::MAX), usize::MAX.to_string());
}

#[test]
fn warnings_have_their_texts() {
    assert_eq!(Warning::InvalidColumns.message(), "Invalid number of columns.");
    assert_eq!(
        Warning::CacheNotWritten { reason: "disk full".to_string() }.message(),
        "Could not write cache: disk full."
    );
    assert_eq!(Warning::OpenOutOfBounds { number: 17 }.message(), "`--open 17` is out of bounds.");
    assert_eq!(Warning::OpenNotANumber.message(), "`--open` requires a number.");
}

#[test]
fn exact_results_are_grouped_by_item() {
    let results = vec![
        exact("a", None),
        exact("a", Some("x")),
        exact("a", Some("y")),
        exact("b", Some("x")),
        exact("b", Some("y")),
        exact("c", None),
        exact("c", None),
    ];
    let lines = print_search_results(&results, 1);
    assert_eq!(
        lines,
        vec![
            ListingLine::Item { number: 1, item: "a".to_string(), fragment: None },
            ListingLine::Fragment { number: 2, name: "x".to_string() },
            ListingLine::Fragment { number: 3, name: "y".to_string() },
            ListingLine::Item { number: 4, item: "b".to_string(), fragment: Some("x".to_string()) },
            ListingLine::Fragment { number: 5, name: "y".to_string() },
            ListingLine::Item { number: 6, item: "c".to_string(), fragment: None },
            ListingLine::Item { number: 7, item: "c".to_string(), fragment: None },
        ]
    );
    assert_eq!(print_search_results(&Vec::new(), 1), Vec::<ListingLine>::new());
}

#[test]
fn the_first_result_heads_its_group() {
    let results = vec![exact("", Some("x")), exact("", Some("y"))];
    assert_eq!(
        print_search_results(&results, 5),
        vec![
            ListingLine::Item { number: 5, item: String::new(), fragment: Some("x".to_string()) },
            ListingLine::Fragment { number: 6, name: "y".to_string() },
        ]
    );
}

#[test]
fn vague_results_are_listed_with_their_contexts() {
    let results = vec![vague("a", &["one", "two"]), vague("b", &[]), vague("c", &["three"])];
    assert_eq!(
        print_vague_search_results(&results, 4),
        vec![
            ListingLine::Mention { number: 4, item: "a".to_string() },
            ListingLine::Context { text: "one".to_string() },
            ListingLine::Context { text: "two".to_string() },
            ListingLine::Mention { number: 5, item: "b".to_string() },
            ListingLine::Mention { number: 6, item: "c".to_string() },
            ListingLine::Context { text: "three".to_string() },
        ]
    );
}

#[test]
fn selection_is_bounded_by_the_results() {
    let e = vec![exact("a", Some("x")), exact("b", None)];
    let v = vec![vague("c", &["one"]), vague("d", &["two"])];
    assert_eq!(resolve_open("", &e, &v, true, false), OpenRequest::Nothing);
    assert_eq!(resolve_open("0", &e, &v, true, false), OpenRequest::OutOfBounds { number: 0 });
    assert_eq!(resolve_open("5", &e, &v, true, false), OpenRequest::OutOfBounds { number: 5 });
    assert_eq!(resolve_open("two", &e, &v, true, false), OpenRequest::NotANumber);
    assert_eq!(resolve_open("-1", &e, &v, true, false), OpenRequest::NotANumber);
    assert_eq!(resolve_open("1", &e, &v, true, false), page("a", Some("x")));
    assert_eq!(resolve_open("2", &e, &v, true, false), page("b", None));
    assert_eq!(resolve_open("3", &e, &v, true, false), page("c", None));
    assert_eq!(resolve_open("4", &e, &v, true, false), page("d", None));
    assert_eq!(
        resolve_open(&usize::MAX.to_string(), &e, &v, true, false),
        OpenRequest::OutOfBounds { number: usize::MAX }
    );
}

#[test]
fn selection_without_precision_knows_exact_results_only() {
    let e = vec![exact("a", Some("x")), exact("b", None)];
    let v = vec![vague("c", &["one"])];
    assert_eq!(resolve_open("2", &e, &v, false, false), page("b", None));
    assert_eq!(resolve_open("3", &e, &v, false, false), OpenRequest::OutOfBounds { number: 3 });
    assert_eq!(resolve_open("1", &Vec::new(), &v, false, false), OpenRequest::OutOfBounds { number: 1 });
}

#[test]
fn selection_drops_the_fragment_where_it_is_ignored() {
    let e = vec![exact("a", Some("x"))];
    assert_eq!(resolve_open("1", &e, &Vec::new(), true, true), page("a", None));
    assert_eq!(resolve_open("1", &e, &Vec::new(), false, true), page("a", None));
    assert_eq!(resolve_open("1", &e, &Vec::new(), false, false), page("a", Some("x")));
}
