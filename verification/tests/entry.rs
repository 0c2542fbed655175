use dedoc::command::{DownloadCommand, OpenCommand, SearchCommand, Subcommand};
use dedoc::entry::{
    command, entry, fetch, is_fetch_due, is_forbidden_name, is_listed, list, remove, Command,
    EntryError, FetchCommand, ListCommand, RemoveCommand,
};

fn args(words: &[&str]) -> Vec<String> {
    words.iter().map(|w| w.to_string()).collect()
}

fn refused(words: &[&str]) -> String {
    match entry(args(words)) {
        Err(error) => error.message(),
        Ok(_) => panic!("the arguments are accepted"),
    }
}

#[test]
fn help_and_version_go_before_anything_else() {
    assert!(matches!(entry(args(&["--help"])), Ok(Command::Help)));
    assert!(matches!(entry(args(&["--version"])), Ok(Command::Version)));
    assert!(matches!(entry(args(&["-v"])), Ok(Command::Version)));
    assert!(matches!(entry(args(&["-v", "--help"])), Ok(Command::Help)));
    assert!(matches!(entry(args(&["--help", "search", "rust"])), Ok(Command::Help)));
    assert!(matches!(entry(args(&["--help", "--no-such-flag"])), Ok(Command::Help)));
    assert!(matches!(entry(args(&["-v", "nothing"])), Ok(Command::Version)));
}

#[test]
fn flags_behind_the_command_belong_to_the_command() {
    assert!(matches!(
        entry(args(&["fetch", "--help"])),
        Ok(Command::Fetch(FetchCommand::Help))
    ));
    assert!(matches!(entry(args(&["search", "--help"])), Ok(Command::Search(SearchCommand::Help))));
    assert_eq!(refused(&["list", "-v"]), "Unknown flag -v. Try `--help` for more information");
}

#[test]
fn arguments_that_are_refused_are_an_error() {
    assert_eq!(
        entry(args(&["--no-such-flag", "search"])).err(),
        Some(EntryError::Refused { reason: "Unknown flag --no-such-flag".to_string() })
    );
    assert_eq!(
        refused(&["--no-such-flag"]),
        "Unknown flag --no-such-flag. Try `--help` for more information"
    );
    assert_eq!(
        refused(&["--help=yes"]),
        "Flag --help does not take a value. Try `--help` for more information"
    );
    assert_eq!(
        refused(&["search", "rust", "--open"]),
        "No value provided for --open. Try `--help` for more information"
    );
    assert_eq!(
        refused(&["search", "rust", "-oc", "1"]),
        "Flag -o requires a value and can't be combined. Try `--help` for more information"
    );
}

#[test]
fn a_word_that_names_no_command_is_an_error() {
    assert_eq!(
        entry(args(&["Frobnicate", "rust"])).err(),
        Some(EntryError::UnknownSubcommand { name: "frobnicate".to_string() })
    );
    assert_eq!(refused(&["Frobnicate"]), "Unknown subcommand `frobnicate`");
    assert_eq!(refused(&[]), "Unknown subcommand ``");
    assert_eq!(refused(&["--", "search"]), "Unknown subcommand `--`");
    assert_eq!(refused(&["-"]), "Unknown subcommand `-`");
}

#[test]
fn each_command_has_its_names() {
    for name in ["f", "fetch", "FETCH"] {
        assert!(matches!(
            entry(args(&[name, "-f"])),
            Ok(Command::Fetch(FetchCommand::Fetch { force: true }))
        ));
    }
    for name in ["l", "ls", "list", "List"] {
        assert!(matches!(
            entry(args(&[name])),
            Ok(Command::List(ListCommand::List { all: false, local: false }))
        ));
    }
    for name in ["d", "dl", "download"] {
        match entry(args(&[name, "rust", "--force", "go"])) {
            Ok(Command::Download(DownloadCommand::Fetch { force, docsets })) => {
                assert!(force);
                assert_eq!(docsets, ["rust", "go"]);
            },
            _ => panic!("no download is asked for"),
        }
    }
    for name in ["rm", "remove"] {
        match entry(args(&[name, "rust", "go"])) {
            Ok(Command::Remove(RemoveCommand::Remove { docsets })) => {
                assert_eq!(docsets, ["rust", "go"])
            },
            _ => panic!("no removal is asked for"),
        }
    }
    for name in ["s", "ss", "search", "SEARCH"] {
        match entry(args(&[name, "-i", "rust", "hash", "map"])) {
            Ok(Command::Search(SearchCommand::Run { options, open, columns })) => {
                assert_eq!(options.docset, "rust");
                assert_eq!(options.query, "hash map");
                assert!(options.flags.case_insensitive);
                assert!(!options.flags.precise);
                assert_eq!(open, "");
                assert_eq!(columns, "");
            },
            _ => panic!("no search is asked for"),
        }
    }
    for name in ["o", "open"] {
        match entry(args(&[name, "rust", "std/vec#new", "-c", "100"])) {
            Ok(Command::Open(OpenCommand::Page { docset, page, columns })) => {
                assert_eq!(docset, "rust");
                assert_eq!(page, "std/vec#new");
                assert_eq!(columns, "100");
            },
            _ => panic!("no page is asked for"),
        }
    }
}

#[test]
fn a_command_takes_the_arguments_behind_its_name() {
    assert!(matches!(
        command(Subcommand::List, args(&["-al"])),
        Ok(Command::List(ListCommand::List { all: true, local: true }))
    ));
    assert!(matches!(
        command(Subcommand::Fetch, args(&[])),
        Ok(Command::Fetch(FetchCommand::Fetch { force: false }))
    ));
    assert_eq!(
        command(Subcommand::Remove, args(&["-x"])).err(),
        Some(EntryError::Refused { reason: "Unknown flag -x".to_string() })
    );
    assert!(matches!(
        command(Subcommand::Search, args(&[])),
        Ok(Command::Search(SearchCommand::NoDocset))
    ));
    assert!(matches!(command(Subcommand::Open, args(&[])), Ok(Command::Open(OpenCommand::Help))));
    assert!(matches!(
        command(Subcommand::Download, args(&[])),
        Ok(Command::Download(DownloadCommand::Help))
    ));
}

#[test]
fn fetch_list_and_remove_read_their_flags() {
    assert_eq!(fetch(args(&[])), Ok(FetchCommand::Fetch { force: false }));
    assert_eq!(fetch(args(&["--force"])), Ok(FetchCommand::Fetch { force: true }));
    assert_eq!(fetch(args(&["-f", "--help"])), Ok(FetchCommand::Help));
    assert_eq!(fetch(args(&["--all"])), Err("Unknown flag --all".to_string()));
    assert_eq!(list(args(&["--all"])), Ok(ListCommand::List { all: true, local: false }));
    assert_eq!(list(args(&["-l"])), Ok(ListCommand::List { all: false, local: true }));
    assert_eq!(list(args(&["-la", "--help"])), Ok(ListCommand::Help));
    assert_eq!(list(args(&["-f"])), Err("Unknown flag -f".to_string()));
    match remove(args(&["rust", "--", "--help"])) {
        Ok(RemoveCommand::Remove { docsets }) => assert_eq!(docsets, ["rust", "--help"]),
        _ => panic!("no removal is asked for"),
    }
    assert!(matches!(remove(args(&["rust", "--help"])), Ok(RemoveCommand::Help)));
    match remove(args(&[])) {
        Ok(RemoveCommand::Remove { docsets }) => assert!(docsets.is_empty()),
        _ => panic!("no removal is asked for"),
    }
    assert_eq!(remove(args(&["-r"])).err(), Some("Unknown flag -r".to_string()));
}

#[test]
fn the_list_is_fetched_unless_it_is_recent() {
    assert!(!is_fetch_due(false, true, false));
    assert!(is_fetch_due(true, true, false));
    assert!(is_fetch_due(false, false, false));
    assert!(is_fetch_due(false, true, true));
    assert!(is_fetch_due(false, false, true));
    assert!(is_fetch_due(true, false, true));
}

#[test]
fn versions_are_listed_only_when_asked_for() {
    assert!(is_listed("rust", false, false));
    assert!(!is_listed("python~3.11", false, false));
    assert!(is_listed("python~3.11", true, false));
    assert!(is_listed("python~3.11", false, true));
    assert!(!is_listed("~", false, false));
    assert!(is_listed("", false, false));
}

#[test]
fn a_name_with_a_slash_is_no_docset_to_remove() {
    assert!(is_forbidden_name("../rust", false));
    assert!(is_forbidden_name("/", true));
    assert!(!is_forbidden_name("rust", true));
    assert!(!is_forbidden_name("a\\b", false));
    assert!(is_forbidden_name("a\\b", true));
    assert!(!is_forbidden_name("", true));
}
