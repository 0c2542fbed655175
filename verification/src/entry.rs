//! The command line of the program: its own flags, the command that it
//! names, and what that command is asked for.

use vstd::prelude::*;
use vstd::string::StringExecFns;
use toiletcli::flags::{parse_flags_until_subcommand, Flag, FlagError, FlagType};
use crate::command::{
    are_flag_names, download, download_switch_names, is_flag_name, named, names, open,
    open_switch_names, open_value_names, parse, parsed_flags, planned_download, planned_open,
    planned_search, refusal, search, search_switch_names, search_value_names, subcommand_of, texts,
    DownloadCommand, DownloadCommandView, OpenCommand, OpenCommandView, ParsedFlags, ParsedView,
    SearchCommand, SearchCommandView, Subcommand,
};
use crate::strings::{is_substring, lowercase, str_occurs};

verus! {

/// What the flags that stand before the command were set to, and what follows
/// them: the word that names the command and the arguments after it, or
/// nothing where the flags are refused.
pub ghost struct LeadingView {
    pub switches: Seq<bool>,
    pub found: Option<(Seq<char>, Seq<Seq<char>>)>,
}

/// What `toiletcli::flags::parse_flags_until_subcommand` makes of arguments,
/// for a program with the switches `switches`: what the switches were set to
/// before it stopped, the first argument that is no flag, and the arguments
/// that it left unread.
pub uninterp spec fn leading_flags(
    args: Seq<Seq<char>>,
    switches: Seq<Seq<Seq<char>>>,
) -> LeadingView;

/// `toiletcli::flags::parse_flags_until_subcommand`, for a program whose
/// switches have the given names. The result is a function of the arguments and
/// the names: the switches as they were set when the parser stopped, one for
/// each name, and either the word at which it stopped with the arguments behind
/// it, or its error. The names are those that the parser accepts.
#[verifier::external_body]
fn parse_until_subcommand(args: Vec<String>, switches: &Vec<Vec<&'static str>>) -> (r: (
    Vec<bool>,
    Result<(String, Vec<String>), FlagError>,
))
    requires
        are_flag_names(names(switches@)),
    ensures
        r.0@.len() == switches@.len(),
        leading_flags(texts(args@), names(switches@)) == (LeadingView {
            switches: r.0@,
            found: match r.1 {
                Ok(found) => Some((found.0@, texts(found.1@))),
                Err(_) => None,
            },
        }),
{
    let mut on = vec![false; switches.len()];
    let mut flags: Vec<Flag> =
        on.iter_mut().zip(switches).map(|(b, n)| (FlagType::BoolFlag(b), n.clone())).collect();
    let mut args = args.into_iter();
    let outcome = parse_flags_until_subcommand(&mut args, &mut flags);
    drop(flags);
    (on, outcome.map(|word| (word, args.collect())))
}

/// What the arguments of `fetch` ask for.
#[derive(Clone, Copy, Debug, PartialEq, Eq, Structural)]
pub enum FetchCommand {
    /// To be told how `fetch` is used.
    Help,
    /// To fetch the list of the docsets that can be had, and to replace a
    /// recent list where `force` is set.
    Fetch { force: bool },
}

/// What the arguments of `list` ask for.
#[derive(Clone, Copy, Debug, PartialEq, Eq, Structural)]
pub enum ListCommand {
    /// To be told how `list` is used.
    Help,
    /// To list the docsets: those that are downloaded where `local` is set,
    /// else those that can be had, with their versions where `all` is set.
    List { all: bool, local: bool },
}

/// What the arguments of `remove` ask for.
pub enum RemoveCommand {
    /// To be told how `remove` is used.
    Help,
    /// To remove the docsets.
    Remove { docsets: Vec<String> },
}

/// What a `RemoveCommand` holds.
pub ghost enum RemoveCommandView {
    Help,
    Remove { docsets: Seq<Seq<char>> },
}

impl View for RemoveCommand {
    type V = RemoveCommandView;

    open spec fn view(&self) -> RemoveCommandView {
        match self {
            RemoveCommand::Help => RemoveCommandView::Help,
            RemoveCommand::Remove { docsets } => RemoveCommandView::Remove {
                docsets: texts(docsets@),
            },
        }
    }
}

/// The names of the switches of `fetch`: help, and force.
pub open spec fn fetch_switch_names() -> Seq<Seq<Seq<char>>> {
    seq![seq!["--help"@], seq!["--force"@, "-f"@]]
}

/// The names of the switches of `list`: help, all versions, and local.
pub open spec fn list_switch_names() -> Seq<Seq<Seq<char>>> {
    seq![seq!["--help"@], seq!["--all"@, "-a"@], seq!["--local"@, "-l"@]]
}

/// The names of the switches of `remove`: help.
pub open spec fn remove_switch_names() -> Seq<Seq<Seq<char>>> {
    seq![seq!["--help"@]]
}

/// What the arguments of `fetch` ask for, once its flags are parsed.
pub open spec fn planned_fetch(parsed: ParsedView) -> FetchCommand {
    if parsed.switches[0] {
        FetchCommand::Help
    } else {
        FetchCommand::Fetch { force: parsed.switches[1] }
    }
}

/// What the arguments of `list` ask for, once its flags are parsed.
pub open spec fn planned_list(parsed: ParsedView) -> ListCommand {
    if parsed.switches[0] {
        ListCommand::Help
    } else {
        ListCommand::List { all: parsed.switches[1], local: parsed.switches[2] }
    }
}

/// What the arguments of `remove` ask for, once its flags are parsed: to
/// remove each docset that is named.
pub open spec fn planned_remove(parsed: ParsedView) -> RemoveCommandView {
    if parsed.switches[0] {
        RemoveCommandView::Help
    } else {
        RemoveCommandView::Remove { docsets: parsed.rest }
    }
}

/// What the arguments of `fetch` ask for, once its flags are parsed.
pub fn plan_fetch(parsed: ParsedFlags) -> (r: FetchCommand)
    requires
        parsed.switches@.len() == 2,
    ensures
        r == planned_fetch(parsed@),
{
    if parsed.switches[0] {
        FetchCommand::Help
    } else {
        FetchCommand::Fetch { force: parsed.switches[1] }
    }
}

/// What the arguments of `list` ask for, once its flags are parsed.
pub fn plan_list(parsed: ParsedFlags) -> (r: ListCommand)
    requires
        parsed.switches@.len() == 3,
    ensures
        r == planned_list(parsed@),
{
    if parsed.switches[0] {
        ListCommand::Help
    } else {
        ListCommand::List { all: parsed.switches[1], local: parsed.switches[2] }
    }
}

/// What the arguments of `remove` ask for, once its flags are parsed.
pub fn plan_remove(parsed: ParsedFlags) -> (r: RemoveCommand)
    requires
        parsed.switches@.len() == 1,
    ensures
        r@ == planned_remove(parsed@),
{
    if parsed.switches[0] {
        RemoveCommand::Help
    } else {
        RemoveCommand::Remove { docsets: parsed.rest }
    }
}

/// What the arguments of `fetch` ask for.
///
/// Arguments that `toiletcli` refuses give the text of its error.
pub fn fetch(args: Vec<String>) -> (r: Result<FetchCommand, String>)
    ensures
        match r {
            Ok(command) => match parsed_flags(texts(args@), fetch_switch_names(), Seq::empty()) {
                Some(parsed) => command == planned_fetch(parsed),
                None => false,
            },
            Err(_) => parsed_flags(texts(args@), fetch_switch_names(), Seq::empty()) is None,
        },
{
    proof {
        reveal_strlit("--help");
        reveal_strlit("--force");
        reveal_strlit("-f");
    }
    let switches = vec![vec!["--help"], vec!["--force", "-f"]];
    let values: Vec<Vec<&'static str>> = Vec::new();
    assert(is_flag_name("--help"@));
    assert(is_flag_name("--force"@));
    assert(is_flag_name("-f"@));
    assert(names(switches@) =~~= fetch_switch_names());
    assert(names(values@) =~~= Seq::<Seq<Seq<char>>>::empty());
    match parse(args, &switches, &values) {
        Ok(parsed) => Ok(plan_fetch(parsed)),
        Err(error) => Err(refusal(&error)),
    }
}

/// What the arguments of `list` ask for.
///
/// Arguments that `toiletcli` refuses give the text of its error.
pub fn list(args: Vec<String>) -> (r: Result<ListCommand, String>)
    ensures
        match r {
            Ok(command) => match parsed_flags(texts(args@), list_switch_names(), Seq::empty()) {
                Some(parsed) => command == planned_list(parsed),
                None => false,
            },
            Err(_) => parsed_flags(texts(args@), list_switch_names(), Seq::empty()) is None,
        },
{
    proof {
        reveal_strlit("--help");
        reveal_strlit("--all");
        reveal_strlit("-a");
        reveal_strlit("--local");
        reveal_strlit("-l");
    }
    let switches = vec![vec!["--help"], vec!["--all", "-a"], vec!["--local", "-l"]];
    let values: Vec<Vec<&'static str>> = Vec::new();
    assert(is_flag_name("--help"@));
    assert(is_flag_name("--all"@));
    assert(is_flag_name("-a"@));
    assert(is_flag_name("--local"@));
    assert(is_flag_name("-l"@));
    assert(names(switches@) =~~= list_switch_names());
    assert(names(values@) =~~= Seq::<Seq<Seq<char>>>::empty());
    match parse(args, &switches, &values) {
        Ok(parsed) => Ok(plan_list(parsed)),
        Err(error) => Err(refusal(&error)),
    }
}

/// What the arguments of `remove` ask for.
///
/// Arguments that `toiletcli` refuses give the text of its error.
pub fn remove(args: Vec<String>) -> (r: Result<RemoveCommand, String>)
    ensures
        match r {
            Ok(command) => match parsed_flags(texts(args@), remove_switch_names(), Seq::empty()) {
                Some(parsed) => command@ == planned_remove(parsed),
                None => false,
            },
            Err(_) => parsed_flags(texts(args@), remove_switch_names(), Seq::empty()) is None,
        },
{
    proof {
        reveal_strlit("--help");
    }
    let switches = vec![vec!["--help"]];
    let values: Vec<Vec<&'static str>> = Vec::new();
    assert(is_flag_name("--help"@));
    assert(names(switches@) =~~= remove_switch_names());
    assert(names(values@) =~~= Seq::<Seq<Seq<char>>>::empty());
    match parse(args, &switches, &values) {
        Ok(parsed) => Ok(plan_remove(parsed)),
        Err(error) => Err(refusal(&error)),
    }
}

/// Whether the list of docsets is fetched: it is, unless a list is there, is
/// recent, and no fetch by force is asked for.
pub fn is_fetch_due(force: bool, list_exists: bool, list_is_old: bool) -> (r: bool)
    ensures
        r == (force || !list_exists || list_is_old),
{
    force || !list_exists || list_is_old
}

/// Whether a listing shows a docset: one that names a version, with `~` in its
/// name, is shown only among the local docsets or where all are asked for.
pub open spec fn listed(name: Seq<char>, all: bool, local: bool) -> bool {
    local || all || !str_occurs(name, "~"@)
}

/// Whether a listing shows a docset.
pub fn is_listed(name: &str, all: bool, local: bool) -> (r: bool)
    ensures
        r == listed(name@, all, local),
{
    local || all || !is_substring(name, "~")
}

/// Whether a name cannot be that of a docset to remove: it holds a slash, or,
/// where backslashes part the names of a path, a backslash.
pub open spec fn forbidden(name: Seq<char>, backslashes: bool) -> bool {
    str_occurs(name, "/"@) || (backslashes && str_occurs(name, "\\"@))
}

/// Whether a name cannot be that of a docset to remove.
pub fn is_forbidden_name(name: &str, backslashes: bool) -> (r: bool)
    ensures
        r == forbidden(name@, backslashes),
{
    is_substring(name, "/") || (backslashes && is_substring(name, "\\"))
}

/// What the command line asks for.
pub enum Command {
    /// To be told how the program is used.
    Help,
    /// To be told the version of the program.
    Version,
    /// What `fetch` is asked for.
    Fetch(FetchCommand),
    /// What `list` is asked for.
    List(ListCommand),
    /// What `download` is asked for.
    Download(DownloadCommand),
    /// What `remove` is asked for.
    Remove(RemoveCommand),
    /// What `search` is asked for.
    Search(SearchCommand),
    /// What `open` is asked for.
    Open(OpenCommand),
}

/// What a `Command` holds.
pub ghost enum CommandView {
    Help,
    Version,
    Fetch(FetchCommand),
    List(ListCommand),
    Download(DownloadCommandView),
    Remove(RemoveCommandView),
    Search(SearchCommandView),
    Open(OpenCommandView),
}

impl View for Command {
    type V = CommandView;

    open spec fn view(&self) -> CommandView {
        match self {
            Command::Help => CommandView::Help,
            Command::Version => CommandView::Version,
            Command::Fetch(c) => CommandView::Fetch(*c),
            Command::List(c) => CommandView::List(*c),
            Command::Download(c) => CommandView::Download(c@),
            Command::Remove(c) => CommandView::Remove(c@),
            Command::Search(c) => CommandView::Search(c@),
            Command::Open(c) => CommandView::Open(c@),
        }
    }
}

/// Why a command line asks for nothing that can be done.
#[derive(Clone, Debug, PartialEq, Eq)]
pub enum EntryError {
    /// `toiletcli` refuses the arguments, for the reason that it gives.
    Refused { reason: String },
    /// No command has this name.
    UnknownSubcommand { name: String },
}

/// The text of an error of the command line, for the reason that `toiletcli`
/// gave or the name that no command has.
pub open spec fn entry_error_text(refused: bool, text: Seq<char>) -> Seq<char> {
    if refused {
        text + ". Try `--help` for more information"@
    } else {
        "Unknown subcommand `"@ + text + "`"@
    }
}

impl EntryError {
    /// The text that the error is shown as.
    pub fn message(&self) -> (r: String)
        ensures
            r@ == match self {
                EntryError::Refused { reason } => entry_error_text(true, reason@),
                EntryError::UnknownSubcommand { name } => entry_error_text(false, name@),
            },
    {
        match self {
            EntryError::Refused { reason } => {
                let mut r = reason.clone();
                r.append(". Try `--help` for more information");
                r
            },
            EntryError::UnknownSubcommand { name } => {
                let mut r = String::from_str("Unknown subcommand `");
                r.append(name.as_str());
                r.append("`");
                r
            },
        }
    }
}

/// What a command line comes to.
pub ghost enum Entered {
    /// It asks for this.
    Command(CommandView),
    /// `toiletcli` refuses its arguments.
    Refused,
    /// It names no command: this is the word, in small letters, that stands
    /// where the name of a command should stand.
    UnknownSubcommand { name: Seq<char> },
}

/// The names of the switches of the program: help, and version.
pub open spec fn program_switch_names() -> Seq<Seq<Seq<char>>> {
    seq![seq!["--help"@], seq!["--version"@, "-v"@]]
}

/// What the arguments behind the name of a command come to.
pub open spec fn commanded(command: Subcommand, args: Seq<Seq<char>>) -> Entered {
    let none = Seq::<Seq<Seq<char>>>::empty();
    match command {
        Subcommand::Fetch => match parsed_flags(args, fetch_switch_names(), none) {
            Some(p) => Entered::Command(CommandView::Fetch(planned_fetch(p))),
            None => Entered::Refused,
        },
        Subcommand::List => match parsed_flags(args, list_switch_names(), none) {
            Some(p) => Entered::Command(CommandView::List(planned_list(p))),
            None => Entered::Refused,
        },
        Subcommand::Download => match parsed_flags(args, download_switch_names(), none) {
            Some(p) => Entered::Command(CommandView::Download(planned_download(p))),
            None => Entered::Refused,
        },
        Subcommand::Remove => match parsed_flags(args, remove_switch_names(), none) {
            Some(p) => Entered::Command(CommandView::Remove(planned_remove(p))),
            None => Entered::Refused,
        },
        Subcommand::Search => match parsed_flags(
            args,
            search_switch_names(),
            search_value_names(),
        ) {
            Some(p) => Entered::Command(CommandView::Search(planned_search(p))),
            None => Entered::Refused,
        },
        Subcommand::Open => match parsed_flags(args, open_switch_names(), open_value_names()) {
            Some(p) => Entered::Command(CommandView::Open(planned_open(p))),
            None => Entered::Refused,
        },
    }
}

/// What a command line comes to.
///
/// A call for help goes before a call for the version, and both go before
/// anything else, also before arguments that are refused. Else the first
/// argument that is no flag names the command, whatever the case of its
/// letters, and the arguments behind it are those of the command.
pub open spec fn entered(args: Seq<Seq<char>>) -> Entered {
    let leading = leading_flags(args, program_switch_names());
    if leading.switches[0] {
        Entered::Command(CommandView::Help)
    } else if leading.switches[1] {
        Entered::Command(CommandView::Version)
    } else {
        match leading.found {
            None => Entered::Refused,
            Some((word, rest)) => match named(lowercase(word)) {
                Some(command) => commanded(command, rest),
                None => Entered::UnknownSubcommand { name: lowercase(word) },
            },
        }
    }
}

/// What the arguments behind the name of a command ask for.
pub fn command(subcommand: Subcommand, args: Vec<String>) -> (r: Result<Command, EntryError>)
    ensures
        match r {
            Ok(c) => commanded(subcommand, texts(args@)) == Entered::Command(c@),
            Err(e) => e is Refused && commanded(subcommand, texts(args@)) is Refused,
        },
{
    let asked = match subcommand {
        Subcommand::Fetch => match fetch(args) {
            Ok(c) => Ok(Command::Fetch(c)),
            Err(reason) => Err(reason),
        },
        Subcommand::List => match list(args) {
            Ok(c) => Ok(Command::List(c)),
            Err(reason) => Err(reason),
        },
        Subcommand::Download => match download(args) {
            Ok(c) => Ok(Command::Download(c)),
            Err(reason) => Err(reason),
        },
        Subcommand::Remove => match remove(args) {
            Ok(c) => Ok(Command::Remove(c)),
            Err(reason) => Err(reason),
        },
        Subcommand::Search => match search(args) {
            Ok(c) => Ok(Command::Search(c)),
            Err(reason) => Err(reason),
        },
        Subcommand::Open => match open(args) {
            Ok(c) => Ok(Command::Open(c)),
            Err(reason) => Err(reason),
        },
    };
    match asked {
        Ok(c) => Ok(c),
        Err(reason) => Err(EntryError::Refused { reason }),
    }
}

/// What the command line asks for.
///
/// `args` holds the arguments of the program, without the program's own name.
pub fn entry(args: Vec<String>) -> (r: Result<Command, EntryError>)
    ensures
        match r {
            Ok(c) => entered(texts(args@)) == Entered::Command(c@),
            Err(EntryError::Refused { .. }) => entered(texts(args@)) is Refused,
            Err(EntryError::UnknownSubcommand { name }) => {
                entered(texts(args@)) == (Entered::UnknownSubcommand { name: name@ })
            },
        },
{
    proof {
        reveal_strlit("--help");
        reveal_strlit("--version");
        reveal_strlit("-v");
    }
    let switches = vec![vec!["--help"], vec!["--version", "-v"]];
    assert(is_flag_name("--help"@));
    assert(is_flag_name("--version"@));
    assert(is_flag_name("-v"@));
    assert(names(switches@) =~~= program_switch_names());
    let (on, found) = parse_until_subcommand(args, &switches);
    if on[0] {
        return Ok(Command::Help);
    }
    if on[1] {
        return Ok(Command::Version);
    }
    match found {
        Err(error) => Err(EntryError::Refused { reason: refusal(&error) }),
        Ok((word, rest)) => match subcommand_of(word.as_str()) {
            Some(subcommand) => command(subcommand, rest),
            None => Err(EntryError::UnknownSubcommand { name: word.as_str().to_lowercase() }),
        },
    }
}

} // verus!
