//! The commands as they are given on the command line: which flags each of
//! them takes, and what its arguments ask for.

use vstd::prelude::*;
use vstd::string::StringExecFns;
use toiletcli::flags::{parse_flags, Flag, FlagError, FlagType};
use crate::index::{item_and_fragment, split_to_item_and_fragment};
use crate::model::{ExactView, OptionsView, SearchFlags, SearchOptions};
use crate::strings::{lemma_empty_bytes, lowercase, same_str};

verus! {

/// The error with which `toiletcli` refuses arguments.
#[verifier::external_type_specification]
#[verifier::external_body]
pub struct ExFlagError(toiletcli::flags::FlagError);

/// What the flags of a command were set to, and the arguments that are left.
pub struct ParsedFlags {
    /// For each switch of the command, whether it was given.
    pub switches: Vec<bool>,
    /// For each flag of the command that takes a value, the value that it was
    /// given; empty where it was not given.
    pub values: Vec<String>,
    /// The arguments that are no flags, in their order.
    pub rest: Vec<String>,
}

/// What a `ParsedFlags` holds.
pub ghost struct ParsedView {
    pub switches: Seq<bool>,
    pub values: Seq<Seq<char>>,
    pub rest: Seq<Seq<char>>,
}

/// The strings of a list, one for one.
pub open spec fn texts(v: Seq<String>) -> Seq<Seq<char>> {
    Seq::new(v.len(), |i: int| v[i]@)
}

impl View for ParsedFlags {
    type V = ParsedView;

    open spec fn view(&self) -> ParsedView {
        ParsedView {
            switches: self.switches@,
            values: texts(self.values@),
            rest: texts(self.rest@),
        }
    }
}

/// The names of flags, one list of names for each flag.
pub open spec fn names(v: Seq<Vec<&'static str>>) -> Seq<Seq<Seq<char>>> {
    Seq::new(v.len(), |i: int| Seq::new(v[i]@.len(), |j: int| v[i]@[j]@))
}

/// Whether a name can be the name of a flag: a dash and a letter, or two
/// dashes and a word of small letters and dashes.
pub open spec fn is_flag_name(name: Seq<char>) -> bool {
    &&& name.len() >= 2
    &&& name[0] == '-'
    &&& name.len() > 2 ==> name[1] == '-'
    &&& forall|i: int| 0 <= i < name.len() ==> name[i] == '-' || 'a' <= #[trigger] name[i] <= 'z'
}

/// Whether every name of every flag can be the name of a flag.
pub open spec fn are_flag_names(flags: Seq<Seq<Seq<char>>>) -> bool {
    forall|i: int, j: int|
        0 <= i < flags.len() && 0 <= j < flags[i].len() ==> is_flag_name(#[trigger] flags[i][j])
}

/// What `toiletcli::flags::parse_flags` makes of arguments, for a command
/// with the switches `switches` and the flags with a value `values`: what the
/// flags were set to and the arguments that are left, or `None` where it
/// refuses the arguments.
pub uninterp spec fn parsed_flags(
    args: Seq<Seq<char>>,
    switches: Seq<Seq<Seq<char>>>,
    values: Seq<Seq<Seq<char>>>,
) -> Option<ParsedView>;

/// `toiletcli::flags::parse_flags`, for a command whose switches and flags
/// with a value have the given names. The result is a function of the
/// arguments and the names; it has one entry for each switch and for each flag
/// with a value. The names are those that `parse_flags` accepts.
#[verifier::external_body]
pub(crate) fn parse(
    args: Vec<String>,
    switches: &Vec<Vec<&'static str>>,
    values: &Vec<Vec<&'static str>>,
) -> (r: Result<ParsedFlags, FlagError>)
    requires
        are_flag_names(names(switches@)),
        are_flag_names(names(values@)),
    ensures
        match r {
            Ok(p) => parsed_flags(texts(args@), names(switches@), names(values@)) == Some(p@)
                && p.switches@.len() == switches@.len() && p.values@.len() == values@.len(),
            Err(_) => parsed_flags(texts(args@), names(switches@), names(values@)) is None,
        },
{
    let mut on = vec![false; switches.len()];
    let mut text = vec![String::new(); values.len()];
    let mut flags: Vec<Flag> =
        on.iter_mut().zip(switches).map(|(b, n)| (FlagType::BoolFlag(b), n.clone())).collect();
    flags.extend(text.iter_mut().zip(values).map(|(s, n)| (FlagType::StringFlag(s), n.clone())));
    let rest = parse_flags(&mut args.into_iter(), &mut flags)?;
    drop(flags);
    Ok(ParsedFlags { switches: on, values: text, rest })
}

/// The text of the error with which `toiletcli` refuses arguments, as its
/// `Display` gives it.
#[verifier::external_body]
pub(crate) fn refusal(error: &FlagError) -> (r: String) {
    format!("{error}")
}

/// The words from `from` on, up to `upto`, with one space between each two.
pub open spec fn spaced(words: Seq<Seq<char>>, from: int, upto: int) -> Seq<char>
    decreases upto - from,
{
    if upto <= from {
        Seq::empty()
    } else if upto == from + 1 {
        words[from]
    } else {
        spaced(words, from, upto - 1) + " "@ + words[upto - 1]
    }
}

/// The query that words ask for: the words with one space between each two,
/// and a space on each side where the whole sentence is asked for.
pub open spec fn query_of(words: Seq<Seq<char>>, from: int, whole: bool) -> Seq<char> {
    let merged = spaced(words, from, words.len() as int);
    if whole {
        " "@ + merged + " "@
    } else {
        merged
    }
}

/// The words from `from` on, with one space between each two.
pub fn merge_words(words: &Vec<String>, from: usize) -> (r: String)
    ensures
        r@ == spaced(texts(words@), from as int, words@.len() as int),
{
    let n: usize = words.len();
    let mut merged = String::new();
    if from >= n {
        return merged;
    }
    merged.append(words[from].as_str());
    assert(merged@ =~= words@[from as int]@);
    let mut i: usize = from + 1;
    while i < n
        invariant
            n == words@.len(),
            from < i <= n,
            merged@ == spaced(texts(words@), from as int, i as int),
        decreases n - i,
    {
        merged.append(" ");
        merged.append(words[i].as_str());
        i += 1;
    }
    merged
}

/// The query that words ask for.
pub fn build_query(words: &Vec<String>, from: usize, whole: bool) -> (r: String)
    ensures
        r@ == query_of(texts(words@), from as int, whole),
{
    let merged = merge_words(words, from);
    if whole {
        let mut query = String::from_str(" ");
        query.append(merged.as_str());
        query.append(" ");
        query
    } else {
        merged
    }
}

/// What the arguments of `search` ask for.
pub enum SearchCommand {
    /// To be told how `search` is used.
    Help,
    /// Nothing that can be done: no docset is named.
    NoDocset,
    /// A search.
    Run {
        /// What is searched for, and how.
        options: SearchOptions,
        /// The result to open, as it was asked for; empty where none was.
        open: String,
        /// The width that was asked for; empty where none was.
        columns: String,
    },
}

/// What a `SearchCommand` holds.
pub ghost enum SearchCommandView {
    Help,
    NoDocset,
    Run { options: OptionsView, open: Seq<char>, columns: Seq<char> },
}

impl View for SearchCommand {
    type V = SearchCommandView;

    open spec fn view(&self) -> SearchCommandView {
        match self {
            SearchCommand::Help => SearchCommandView::Help,
            SearchCommand::NoDocset => SearchCommandView::NoDocset,
            SearchCommand::Run { options, open, columns } => SearchCommandView::Run {
                options: options@,
                open: open@,
                columns: columns@,
            },
        }
    }
}

/// What the arguments of `search` ask for, once its flags are parsed.
///
/// The switches are, in this order: whole sentence, precise, ignore case,
/// ignore fragment, help. The flags with a value are the width and the result
/// to open. The first argument is the docset; the arguments after it are the
/// query.
pub open spec fn planned_search(parsed: ParsedView) -> SearchCommandView {
    if parsed.switches[4] {
        SearchCommandView::Help
    } else if parsed.rest.len() == 0 {
        SearchCommandView::NoDocset
    } else {
        SearchCommandView::Run {
            options: OptionsView {
                query: query_of(parsed.rest, 1, parsed.switches[0]),
                docset: parsed.rest[0],
                flags: SearchFlags {
                    whole: parsed.switches[0],
                    precise: parsed.switches[1],
                    case_insensitive: parsed.switches[2],
                    ignore_fragment: parsed.switches[3],
                },
            },
            open: parsed.values[1],
            columns: parsed.values[0],
        }
    }
}

/// What the arguments of `search` ask for, once its flags are parsed.
pub fn plan_search(parsed: ParsedFlags) -> (r: SearchCommand)
    requires
        parsed.switches@.len() == 5,
        parsed.values@.len() == 2,
    ensures
        r@ == planned_search(parsed@),
{
    if parsed.switches[4] {
        return SearchCommand::Help;
    }
    if parsed.rest.len() == 0 {
        return SearchCommand::NoDocset;
    }
    let whole = parsed.switches[0];
    let options = SearchOptions {
        query: build_query(&parsed.rest, 1, whole),
        docset: parsed.rest[0].clone(),
        flags: SearchFlags {
            whole,
            precise: parsed.switches[1],
            case_insensitive: parsed.switches[2],
            ignore_fragment: parsed.switches[3],
        },
    };
    SearchCommand::Run {
        options,
        open: parsed.values[1].clone(),
        columns: parsed.values[0].clone(),
    }
}

/// The names of the switches of `search`: whole sentence, precise, ignore
/// case, ignore fragment, help.
pub open spec fn search_switch_names() -> Seq<Seq<Seq<char>>> {
    seq![
        seq!["-w"@, "--whole"@],
        seq!["-p"@, "--precise"@],
        seq!["-i"@, "--ignore-case"@],
        seq!["-f"@, "--ignore-fragment"@],
        seq!["--help"@],
    ]
}

/// The names of the flags of `search` that take a value: the width, and the
/// result to open.
pub open spec fn search_value_names() -> Seq<Seq<Seq<char>>> {
    seq![seq!["-c"@, "--columns"@], seq!["-o"@, "--open"@]]
}

/// The switches of `search`.
pub fn search_switches() -> (r: Vec<Vec<&'static str>>)
    ensures
        names(r@) == search_switch_names(),
        are_flag_names(names(r@)),
{
    proof {
        reveal_strlit("-w");
        reveal_strlit("--whole");
        reveal_strlit("-p");
        reveal_strlit("--precise");
        reveal_strlit("-i");
        reveal_strlit("--ignore-case");
        reveal_strlit("-f");
        reveal_strlit("--ignore-fragment");
        reveal_strlit("--help");
    }
    let r = vec![
        vec!["-w", "--whole"],
        vec!["-p", "--precise"],
        vec!["-i", "--ignore-case"],
        vec!["-f", "--ignore-fragment"],
        vec!["--help"],
    ];
    assert(is_flag_name("-w"@));
    assert(is_flag_name("--whole"@));
    assert(is_flag_name("-p"@));
    assert(is_flag_name("--precise"@));
    assert(is_flag_name("-i"@));
    assert(is_flag_name("--ignore-case"@));
    assert(is_flag_name("-f"@));
    assert(is_flag_name("--ignore-fragment"@));
    assert(is_flag_name("--help"@));
    assert(names(r@) =~~= search_switch_names());
    r
}

/// The flags of `search` that take a value.
pub fn search_values() -> (r: Vec<Vec<&'static str>>)
    ensures
        names(r@) == search_value_names(),
        are_flag_names(names(r@)),
{
    proof {
        reveal_strlit("-c");
        reveal_strlit("--columns");
        reveal_strlit("-o");
        reveal_strlit("--open");
    }
    let r = vec![vec!["-c", "--columns"], vec!["-o", "--open"]];
    assert(is_flag_name("-c"@));
    assert(is_flag_name("--columns"@));
    assert(is_flag_name("-o"@));
    assert(is_flag_name("--open"@));
    assert(names(r@) =~~= search_value_names());
    r
}

/// What the arguments of `search` ask for.
///
/// Arguments that `toiletcli` refuses give the text of its error.
pub fn search(args: Vec<String>) -> (r: Result<SearchCommand, String>)
    ensures
        match r {
            Ok(command) => match parsed_flags(
                texts(args@),
                search_switch_names(),
                search_value_names(),
            ) {
                Some(parsed) => command@ == planned_search(parsed),
                None => false,
            },
            Err(_) => parsed_flags(
                texts(args@),
                search_switch_names(),
                search_value_names(),
            ) is None,
        },
{
    let switches = search_switches();
    let values = search_values();
    assert(names(switches@).len() == 5 && names(values@).len() == 2);
    match parse(args, &switches, &values) {
        Ok(parsed) => Ok(plan_search(parsed)),
        Err(error) => Err(refusal(&error)),
    }
}

/// What the arguments of `open` ask for.
pub enum OpenCommand {
    /// To be told how `open` is used.
    Help,
    /// To show the file at `path`.
    File { path: String, columns: String },
    /// To show the page `page` of the docset `docset`.
    Page { docset: String, page: String, columns: String },
}

/// What an `OpenCommand` holds.
pub ghost enum OpenCommandView {
    Help,
    File { path: Seq<char>, columns: Seq<char> },
    Page { docset: Seq<char>, page: Seq<char>, columns: Seq<char> },
}

impl View for OpenCommand {
    type V = OpenCommandView;

    open spec fn view(&self) -> OpenCommandView {
        match self {
            OpenCommand::Help => OpenCommandView::Help,
            OpenCommand::File { path, columns } => OpenCommandView::File {
                path: path@,
                columns: columns@,
            },
            OpenCommand::Page { docset, page, columns } => OpenCommandView::Page {
                docset: docset@,
                page: page@,
                columns: columns@,
            },
        }
    }
}

/// The names of the switches of `open`: a file instead of a page, and help.
pub open spec fn open_switch_names() -> Seq<Seq<Seq<char>>> {
    seq![seq!["-h"@, "--html"@], seq!["--help"@]]
}

/// The names of the flags of `open` that take a value: the width.
pub open spec fn open_value_names() -> Seq<Seq<Seq<char>>> {
    seq![seq!["-c"@, "--columns"@]]
}

/// What the arguments of `open` ask for, once its flags are parsed.
///
/// Without arguments there is nothing to open. With the switch for a file the
/// arguments are the file's path; else the first argument is the docset and
/// the arguments after it are the page.
pub open spec fn planned_open(parsed: ParsedView) -> OpenCommandView {
    if parsed.switches[1] || parsed.rest.len() == 0 {
        OpenCommandView::Help
    } else if parsed.switches[0] {
        OpenCommandView::File {
            path: spaced(parsed.rest, 0, parsed.rest.len() as int),
            columns: parsed.values[0],
        }
    } else {
        OpenCommandView::Page {
            docset: parsed.rest[0],
            page: spaced(parsed.rest, 1, parsed.rest.len() as int),
            columns: parsed.values[0],
        }
    }
}

/// What the arguments of `open` ask for, once its flags are parsed.
pub fn plan_open(parsed: ParsedFlags) -> (r: OpenCommand)
    requires
        parsed.switches@.len() == 2,
        parsed.values@.len() == 1,
    ensures
        r@ == planned_open(parsed@),
{
    if parsed.switches[1] || parsed.rest.len() == 0 {
        return OpenCommand::Help;
    }
    let columns = parsed.values[0].clone();
    if parsed.switches[0] {
        OpenCommand::File { path: merge_words(&parsed.rest, 0), columns }
    } else {
        OpenCommand::Page {
            docset: parsed.rest[0].clone(),
            page: merge_words(&parsed.rest, 1),
            columns,
        }
    }
}

/// What the arguments of `open` ask for.
///
/// Arguments that `toiletcli` refuses give the text of its error.
pub fn open(args: Vec<String>) -> (r: Result<OpenCommand, String>)
    ensures
        match r {
            Ok(command) => match parsed_flags(
                texts(args@),
                open_switch_names(),
                open_value_names(),
            ) {
                Some(parsed) => command@ == planned_open(parsed),
                None => false,
            },
            Err(_) => parsed_flags(texts(args@), open_switch_names(), open_value_names()) is None,
        },
{
    proof {
        reveal_strlit("-h");
        reveal_strlit("--html");
        reveal_strlit("--help");
        reveal_strlit("-c");
        reveal_strlit("--columns");
    }
    let switches = vec![vec!["-h", "--html"], vec!["--help"]];
    let values = vec![vec!["-c", "--columns"]];
    assert(is_flag_name("-h"@));
    assert(is_flag_name("--html"@));
    assert(is_flag_name("--help"@));
    assert(is_flag_name("-c"@));
    assert(is_flag_name("--columns"@));
    assert(names(switches@) =~~= open_switch_names());
    assert(names(values@) =~~= open_value_names());
    match parse(args, &switches, &values) {
        Ok(parsed) => Ok(plan_open(parsed)),
        Err(error) => Err(refusal(&error)),
    }
}

/// The page and the anchor that `open` was asked for, or the error that no
/// page was named.
pub fn page_of(page: &str) -> (r: Result<(String, Option<String>), String>)
    ensures
        match r {
            Ok(found) => page@.len() > 0 && (ExactView {
                item: found.0@,
                fragment: match found.1 {
                    Some(f) => Some(f@),
                    None => None,
                },
            }) == item_and_fragment(page@),
            Err(message) => page@.len() == 0 && message@
                == "No page specified. Try `open --help` for more information."@,
        },
{
    proof {
        lemma_empty_bytes(page@);
    }
    if page.as_bytes().len() == 0 {
        Err(String::from_str("No page specified. Try `open --help` for more information."))
    } else {
        Ok(split_to_item_and_fragment(page))
    }
}

/// What the arguments of `download` ask for.
pub enum DownloadCommand {
    /// To be told how `download` is used.
    Help,
    /// To download the docsets, and to replace those that are there where
    /// `force` is set.
    Fetch { force: bool, docsets: Vec<String> },
}

/// What a `DownloadCommand` holds.
pub ghost enum DownloadCommandView {
    Help,
    Fetch { force: bool, docsets: Seq<Seq<char>> },
}

impl View for DownloadCommand {
    type V = DownloadCommandView;

    open spec fn view(&self) -> DownloadCommandView {
        match self {
            DownloadCommand::Help => DownloadCommandView::Help,
            DownloadCommand::Fetch { force, docsets } => DownloadCommandView::Fetch {
                force: *force,
                docsets: texts(docsets@),
            },
        }
    }
}

/// The names of the switches of `download`: force, and help.
pub open spec fn download_switch_names() -> Seq<Seq<Seq<char>>> {
    seq![seq!["-f"@, "--force"@], seq!["--help"@]]
}

/// The first `upto` words without the mark that a listing puts behind a
/// docset that is downloaded already.
pub open spec fn unmarked(words: Seq<Seq<char>>, upto: int) -> Seq<Seq<char>>
    decreases upto,
{
    if upto <= 0 {
        Seq::empty()
    } else if words[upto - 1] == "[downloaded]"@ {
        unmarked(words, upto - 1)
    } else {
        unmarked(words, upto - 1).push(words[upto - 1])
    }
}

/// What the arguments of `download` ask for, once its flags are parsed.
pub open spec fn planned_download(parsed: ParsedView) -> DownloadCommandView {
    if parsed.switches[1] || parsed.rest.len() == 0 {
        DownloadCommandView::Help
    } else {
        DownloadCommandView::Fetch {
            force: parsed.switches[0],
            docsets: unmarked(parsed.rest, parsed.rest.len() as int),
        }
    }
}

/// What the arguments of `download` ask for, once its flags are parsed.
pub fn plan_download(parsed: ParsedFlags) -> (r: DownloadCommand)
    requires
        parsed.switches@.len() == 2,
    ensures
        r@ == planned_download(parsed@),
{
    if parsed.switches[1] || parsed.rest.len() == 0 {
        return DownloadCommand::Help;
    }
    let mut docsets: Vec<String> = Vec::new();
    let n: usize = parsed.rest.len();
    let mut i: usize = 0;
    assert(texts(docsets@) =~= Seq::<Seq<char>>::empty());
    while i < n
        invariant
            n == parsed.rest@.len(),
            i <= n,
            texts(docsets@) == unmarked(texts(parsed.rest@), i as int),
        decreases n - i,
    {
        if !same_str(parsed.rest[i].as_str(), "[downloaded]") {
            let ghost before = docsets@;
            docsets.push(parsed.rest[i].clone());
            assert(texts(docsets@) =~= texts(before).push(parsed.rest@[i as int]@));
        }
        i += 1;
    }
    DownloadCommand::Fetch { force: parsed.switches[0], docsets }
}

/// What the arguments of `download` ask for.
///
/// Arguments that `toiletcli` refuses give the text of its error.
pub fn download(args: Vec<String>) -> (r: Result<DownloadCommand, String>)
    ensures
        match r {
            Ok(command) => match parsed_flags(
                texts(args@),
                download_switch_names(),
                Seq::empty(),
            ) {
                Some(parsed) => command@ == planned_download(parsed),
                None => false,
            },
            Err(_) => parsed_flags(texts(args@), download_switch_names(), Seq::empty()) is None,
        },
{
    proof {
        reveal_strlit("-f");
        reveal_strlit("--force");
        reveal_strlit("--help");
    }
    let switches = vec![vec!["-f", "--force"], vec!["--help"]];
    let values: Vec<Vec<&'static str>> = Vec::new();
    assert(is_flag_name("-f"@));
    assert(is_flag_name("--force"@));
    assert(is_flag_name("--help"@));
    assert(names(switches@) =~~= download_switch_names());
    assert(names(values@) =~~= Seq::<Seq<Seq<char>>>::empty());
    match parse(args, &switches, &values) {
        Ok(parsed) => Ok(plan_download(parsed)),
        Err(error) => Err(refusal(&error)),
    }
}

/// The commands of the program.
#[derive(Clone, Copy, Debug, PartialEq, Eq, Structural)]
pub enum Subcommand {
    /// Fetches the list of the docsets that can be had.
    Fetch,
    /// Lists docsets.
    List,
    /// Downloads docsets.
    Download,
    /// Removes docsets.
    Remove,
    /// Searches a docset.
    Search,
    /// Shows a page of a docset.
    Open,
}

/// The command that a word in small letters names.
pub open spec fn named(word: Seq<char>) -> Option<Subcommand> {
    if word == "f"@ || word == "fetch"@ {
        Some(Subcommand::Fetch)
    } else if word == "l"@ || word == "ls"@ || word == "list"@ {
        Some(Subcommand::List)
    } else if word == "d"@ || word == "dl"@ || word == "download"@ {
        Some(Subcommand::Download)
    } else if word == "rm"@ || word == "remove"@ {
        Some(Subcommand::Remove)
    } else if word == "s"@ || word == "ss"@ || word == "search"@ {
        Some(Subcommand::Search)
    } else if word == "o"@ || word == "open"@ {
        Some(Subcommand::Open)
    } else {
        None
    }
}

/// The command that a word names, whatever the case of its letters.
pub fn subcommand_of(word: &str) -> (r: Option<Subcommand>)
    ensures
        r == named(lowercase(word@)),
{
    let folded = word.to_lowercase();
    let w = folded.as_str();
    if same_str(w, "f") || same_str(w, "fetch") {
        Some(Subcommand::Fetch)
    } else if same_str(w, "l") || same_str(w, "ls") || same_str(w, "list") {
        Some(Subcommand::List)
    } else if same_str(w, "d") || same_str(w, "dl") || same_str(w, "download") {
        Some(Subcommand::Download)
    } else if same_str(w, "rm") || same_str(w, "remove") {
        Some(Subcommand::Remove)
    } else if same_str(w, "s") || same_str(w, "ss") || same_str(w, "search") {
        Some(Subcommand::Search)
    } else if same_str(w, "o") || same_str(w, "open") {
        Some(Subcommand::Open)
    } else {
        None
    }
}

} // verus!
