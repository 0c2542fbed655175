use dedoc::command::{
    build_query, download, merge_words, open, page_of, search, subcommand_of, DownloadCommand,
    OpenCommand, SearchCommand, Subcommand,
};
use dedoc::model::{SearchFlags, SearchOptions};

fn args(words: &[&str]) -> Vec<String> {
    words.iter().map(|w| w.to_string()).collect()
}

fn run(words: &[&str]) -> (SearchOptions, String, String) {
    match search(args(words)) {
        Ok(SearchCommand::Run { options, open, columns }) => (options, open, columns),
        _ => panic!("no search is asked for"),
    }
}

#[test]
fn words_are_merged_with_spaces() {
    assert_eq!(merge_words(&args(&["a", "b", "c"]), 0), "a b c");
    assert_eq!(merge_words(&args(&["a", "b", "c"]), 1), "b c");
    assert_eq!(merge_words(&args(&["a", "b", "c"]), 2), "c");
    assert_eq!(merge_words(&args(&["a", "b", "c"]), 3), "");
    assert_eq!(merge_words(&args(&[]), 0), "");
    assert_eq!(build_query(&args(&["rust", "hash", "map"]), 1, false), "hash map");
    assert_eq!(build_query(&args(&["rust", "hash", "map"]), 1, true), " hash map ");
    assert_eq!(build_query(&args(&["rust"]), 1, true), "  ");
}

#[test]
fn search_takes_the_docset_and_the_query() {
    let (options, open, columns) = run(&["rust", "hash", "map"]);
    assert_eq!(
        options,
        SearchOptions {
            query: "hash map".to_string(),
            docset: "rust".to_string(),
            flags: SearchFlags::default(),
        }
    );
    assert_eq!(open, "");
    assert_eq!(columns, "");
}

#[test]
fn search_maps_each_flag_onto_its_option() {
    let (options, open, columns) = run(&["-w", "rust", "-o", "3", "map", "--columns=120"]);
    assert_eq!(options.query, " map ");
    assert_eq!(options.flags, SearchFlags { whole: true, ..SearchFlags::default() });
    assert_eq!(open, "3");
    assert_eq!(columns, "120");
    let (options, _, _) = run(&["--precise", "rust", "map"]);
    assert_eq!(options.flags, SearchFlags { precise: true, ..SearchFlags::default() });
    let (options, _, _) = run(&["rust", "-i", "map"]);
    assert_eq!(options.flags, SearchFlags { case_insensitive: true, ..SearchFlags::default() });
    let (options, _, _) = run(&["rust", "map", "--ignore-fragment"]);
    assert_eq!(options.flags, SearchFlags { ignore_fragment: true, ..SearchFlags::default() });
    let (options, open, _) = run(&["-pif", "rust", "map", "-o", "x"]);
    assert_eq!(
        options.flags,
        SearchFlags { precise: true, case_insensitive: true, ignore_fragment: true, whole: false }
    );
    assert_eq!(open, "x");
}

#[test]
fn search_without_a_docset_or_with_help() {
    assert!(matches!(search(args(&[])), Ok(SearchCommand::NoDocset)));
    assert!(matches!(search(args(&["-p"])), Ok(SearchCommand::NoDocset)));
    assert!(matches!(search(args(&["--help"])), Ok(SearchCommand::Help)));
    assert!(matches!(search(args(&["rust", "map", "--help"])), Ok(SearchCommand::Help)));
}

#[test]
fn search_refuses_what_the_flags_refuse() {
    assert_eq!(search(args(&["rust", "--nope"])).err(), Some("Unknown flag --nope".to_string()));
    assert_eq!(search(args(&["rust", "-o"])).err(), Some("No value provided for -o".to_string()));
    assert_eq!(
        search(args(&["rust", "--help=yes"])).err(),
        Some("Flag --help does not take a value".to_string())
    );
}

#[test]
fn open_takes_a_docset_and_a_page() {
    match open(args(&["rust", "std/vec", "#method.new", "-c", "100"])) {
        Ok(OpenCommand::Page { docset, page, columns }) => {
            assert_eq!(docset, "rust");
            assert_eq!(page, "std/vec #method.new");
            assert_eq!(columns, "100");
        },
        _ => panic!("no page is asked for"),
    }
    match open(args(&["rust"])) {
        Ok(OpenCommand::Page { docset, page, .. }) => {
            assert_eq!(docset, "rust");
            assert_eq!(page, "");
        },
        _ => panic!("no page is asked for"),
    }
}

#[test]
fn open_takes_a_file_or_gives_help() {
    match open(args(&["-h", "some", "file.html"])) {
        Ok(OpenCommand::File { path, columns }) => {
            assert_eq!(path, "some file.html");
            assert_eq!(columns, "");
        },
        _ => panic!("no file is asked for"),
    }
    assert!(matches!(open(args(&[])), Ok(OpenCommand::Help)));
    assert!(matches!(
        open(args(&["rust", "--help"])),
        Ok(OpenCommand::Help)
    ));
    assert!(matches!(open(args(&["-h"])), Ok(OpenCommand::Help)));
    assert_eq!(
        open(args(&["rust", "-x"])).err(),
        Some("Unknown flag -x".to_string())
    );
}

#[test]
fn a_page_is_split_or_missing() {
    assert_eq!(
        page_of("std/vec#method.new"),
        Ok(("std/vec".to_string(), Some("method.new".to_string())))
    );
    assert_eq!(page_of("std/vec"), Ok(("std/vec".to_string(), None)));
    assert_eq!(
        page_of(""),
        Err("No page specified. Try `open --help` for more information.".to_string())
    );
}

#[test]
fn download_leaves_out_the_mark_of_a_listing() {
    match download(args(&["rust", "[downloaded]", "go", "-f", "[downloaded]"])) {
        Ok(DownloadCommand::Fetch { force, docsets }) => {
            assert!(force);
            assert_eq!(docsets, vec!["rust", "go"]);
        },
        _ => panic!("no download is asked for"),
    }
    match download(args(&["[downloaded]"])) {
        Ok(DownloadCommand::Fetch { force, docsets }) => {
            assert!(!force);
            assert!(docsets.is_empty());
        },
        _ => panic!("no download is asked for"),
    }
    assert!(matches!(
        download(args(&[])),
        Ok(DownloadCommand::Help)
    ));
    assert!(matches!(
        download(args(&["rust", "--help"])),
        Ok(DownloadCommand::Help)
    ));
    assert!(download(args(&["--columns", "3"])).is_err());
}

#[test]
fn commands_have_short_names() {
    for (word, command) in [
        ("f", Subcommand::Fetch),
        ("fetch", Subcommand::Fetch),
        ("l", Subcommand::List),
        ("ls", Subcommand::List),
        ("LIST", Subcommand::List),
        ("d", Subcommand::Download),
        ("dl", Subcommand::Download),
        ("Download", Subcommand::Download),
        ("rm", Subcommand::Remove),
        ("remove", Subcommand::Remove),
        ("s", Subcommand::Search),
        ("ss", Subcommand::Search),
        ("search", Subcommand::Search),
        ("o", Subcommand::Open),
        ("open", Subcommand::Open),
    ] {
        assert_eq!(subcommand_of(word), Some(command));
    }
    assert_eq!(subcommand_of(""), None);
    assert_eq!(subcommand_of("r"), None);
    assert_eq!(subcommand_of("searching"), None);
}
