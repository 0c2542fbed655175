use dedoc::cache::{cache_search_results, is_cache_for, try_use_cache, CacheRecords};
use dedoc::model::{ExactResult, SearchCache, SearchFlags, SearchOptions, VagueResult};

fn options(query: &str, docset: &str, flags: SearchFlags) -> SearchOptions {
    SearchOptions { query: query.to_string(), docset: docset.to_string(), flags }
}

fn results() -> SearchCache {
    SearchCache {
        exact_results: vec![ExactResult {
            item: "std/vec".to_string(),
            fragment: Some("method.new".to_string()),
        }],
        vague_results: vec![VagueResult {
            item: "std/mem".to_string(),
            contexts: vec!["a Vec of bytes".to_string()],
        }],
    }
}

#[test]
fn a_second_search_is_served_from_the_cache() {
    let asked = options("Vec", "rust", SearchFlags::default());
    let records = cache_search_results(&asked, &results());
    assert_eq!(records.options, Some(options("Vec", "rust", SearchFlags::default())));
    let again = options("Vec", "rust", SearchFlags::default());
    assert_eq!(try_use_cache(&again, records), Some(results()));
}

#[test]
fn each_flag_is_part_of_the_fingerprint() {
    let asked = options("Vec", "rust", SearchFlags::default());
    let toggled = [
        SearchFlags { case_insensitive: true, ..SearchFlags::default() },
        SearchFlags { precise: true, ..SearchFlags::default() },
        SearchFlags { whole: true, ..SearchFlags::default() },
        SearchFlags { ignore_fragment: true, ..SearchFlags::default() },
    ];
    for flags in toggled {
        let probe = options("Vec", "rust", flags);
        let records = cache_search_results(&asked, &results());
        assert!(!is_cache_for(&probe, &records.options));
        assert_eq!(try_use_cache(&probe, records), None);
    }
}

#[test]
fn query_and_docset_are_part_of_the_fingerprint() {
    let asked = options("Vec", "rust", SearchFlags::default());
    let records = cache_search_results(&asked, &results());
    assert_eq!(try_use_cache(&options("vec", "rust", SearchFlags::default()), records), None);
    let records = cache_search_results(&asked, &results());
    assert_eq!(try_use_cache(&options("Vec", "go", SearchFlags::default()), records), None);
}

#[test]
fn a_cache_that_cannot_be_read_is_a_miss() {
    let asked = options("Vec", "rust", SearchFlags::default());
    assert_eq!(try_use_cache(&asked, CacheRecords { options: None, results: None }), None);
    assert_eq!(
        try_use_cache(&asked, CacheRecords { options: None, results: Some(results()) }),
        None
    );
    let same = options("Vec", "rust", SearchFlags::default());
    assert_eq!(try_use_cache(&asked, CacheRecords { options: Some(same), results: None }), None);
    assert!(!is_cache_for(&asked, &None));
}
