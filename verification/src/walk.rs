//! The walk through the directories of a docset.
//!
//! The walk goes through the docset depth first, with a stack of the
//! directories that are yet to be listed. It names one thing at a time for the
//! caller to do: to list a directory, or to read a file. Every directory is
//! gone into. A file is read only if it is a page whose name does not match
//! the query: a page whose name matches is an exact result as it is.

use vstd::prelude::*;
use vstd::string::StringExecFns;
use crate::content::{
    convert_path_to_item, has_page_extension, is_page, name_is_match, name_matches,
    page_contexts, page_item, scan_lines,
};
use crate::model::{
    exact_views, string_views, vague_views, ExactResult, ExactView, VagueResult, VagueView,
};
use crate::order::{
    exact_in_order, exact_sorted, items_ascend, sort_exact, sort_vague, vague_in_order,
    vague_sorted,
};
use crate::strings::{fold, fold_case, lemma_empty_bytes};

verus! {

/// One entry of a directory.
#[derive(Clone, Debug, PartialEq, Eq)]
pub struct DirEntry {
    /// The entry's name.
    pub name: String,
    /// Whether the entry is a directory.
    pub is_dir: bool,
}

/// What a `DirEntry` holds.
pub ghost struct EntryView {
    pub name: Seq<char>,
    pub is_dir: bool,
}

impl View for DirEntry {
    type V = EntryView;

    open spec fn view(&self) -> EntryView {
        EntryView { name: self.name@, is_dir: self.is_dir }
    }
}

/// What a list of entries holds, one for one.
pub open spec fn entry_views(v: Seq<DirEntry>) -> Seq<EntryView> {
    v.map_values(|e: DirEntry| e@)
}

/// What the caller of a walk is to do next.
#[derive(Clone, Debug, PartialEq, Eq)]
pub enum WalkAction {
    /// List the directory at `path` below the docset's root, and report its
    /// entries. The root itself has the empty path.
    ReadDir { path: String },
    /// Read the file at `path` below the docset's root, and report its lines.
    ReadFile { path: String },
    /// The walk is over.
    Done,
}

/// What the caller reports of the action that it was given.
pub enum WalkEvent {
    /// The entries of the directory, in any order.
    Entries(Vec<DirEntry>),
    /// The lines of the file, from top to bottom.
    Lines(Vec<String>),
}

/// What a walk waits for.
pub enum Awaiting {
    /// The entries of the directory at this path.
    Entries(String),
    /// The lines of the file at this path.
    Lines(String),
    /// Nothing: the walk is over.
    Nothing,
}

/// A walk through a docset, in search of a query.
pub struct DocsetWalk {
    /// What the name of a page ends with.
    pub extension: String,
    /// The query, folded.
    pub query: String,
    /// Whether the search ignores case.
    pub case_insensitive: bool,
    /// The directories that are yet to be listed. The last is listed next.
    pub pending: Vec<String>,
    /// The directory that the walk is in.
    pub directory: String,
    /// The entries of that directory that are yet to be visited. The last is
    /// visited next.
    pub entries: Vec<DirEntry>,
    /// What the walk waits for.
    pub awaiting: Awaiting,
    /// The exact results so far.
    pub exact: Vec<ExactResult>,
    /// The vague results so far.
    pub vague: Vec<VagueResult>,
}

/// What a `WalkAction` holds.
pub ghost enum WalkActionView {
    ReadDir { path: Seq<char> },
    ReadFile { path: Seq<char> },
    Done,
}

/// What a `WalkEvent` holds.
pub ghost enum WalkEventView {
    Entries(Seq<EntryView>),
    Lines(Seq<Seq<char>>),
}

/// What an `Awaiting` holds.
pub ghost enum AwaitingView {
    Entries(Seq<char>),
    Lines(Seq<char>),
    Nothing,
}

/// What a `DocsetWalk` holds.
pub ghost struct WalkView {
    pub extension: Seq<char>,
    pub query: Seq<char>,
    pub case_insensitive: bool,
    pub pending: Seq<Seq<char>>,
    pub directory: Seq<char>,
    pub entries: Seq<EntryView>,
    pub awaiting: AwaitingView,
    pub exact: Seq<ExactView>,
    pub vague: Seq<VagueView>,
}

impl View for WalkAction {
    type V = WalkActionView;

    open spec fn view(&self) -> WalkActionView {
        match self {
            WalkAction::ReadDir { path } => WalkActionView::ReadDir { path: path@ },
            WalkAction::ReadFile { path } => WalkActionView::ReadFile { path: path@ },
            WalkAction::Done => WalkActionView::Done,
        }
    }
}

impl View for WalkEvent {
    type V = WalkEventView;

    open spec fn view(&self) -> WalkEventView {
        match self {
            WalkEvent::Entries(e) => WalkEventView::Entries(entry_views(e@)),
            WalkEvent::Lines(l) => WalkEventView::Lines(string_views(l@)),
        }
    }
}

impl View for Awaiting {
    type V = AwaitingView;

    open spec fn view(&self) -> AwaitingView {
        match self {
            Awaiting::Entries(p) => AwaitingView::Entries(p@),
            Awaiting::Lines(p) => AwaitingView::Lines(p@),
            Awaiting::Nothing => AwaitingView::Nothing,
        }
    }
}

impl View for DocsetWalk {
    type V = WalkView;

    open spec fn view(&self) -> WalkView {
        WalkView {
            extension: self.extension@,
            query: self.query@,
            case_insensitive: self.case_insensitive,
            pending: string_views(self.pending@),
            directory: self.directory@,
            entries: entry_views(self.entries@),
            awaiting: self.awaiting@,
            exact: exact_views(self.exact@),
            vague: vague_views(self.vague@),
        }
    }
}

/// The path of what a walk waits for; empty where it waits for nothing.
pub open spec fn awaited_path(awaiting: AwaitingView) -> Seq<char> {
    match awaiting {
        AwaitingView::Entries(path) => path,
        AwaitingView::Lines(path) => path,
        AwaitingView::Nothing => Seq::empty(),
    }
}

impl Awaiting {
    /// The path of what is waited for; empty where nothing is.
    pub fn path(self) -> (r: String)
        ensures
            r@ == awaited_path(self@),
    {
        match self {
            Awaiting::Entries(path) => path,
            Awaiting::Lines(path) => path,
            Awaiting::Nothing => String::new(),
        }
    }
}

/// The path of an entry `name` of the directory at `directory`.
pub open spec fn joined(directory: Seq<char>, name: Seq<char>) -> Seq<char> {
    if directory.len() == 0 {
        name
    } else {
        directory + "/"@ + name
    }
}

/// How a walk starts: nothing is found yet, and the root is to be listed.
pub open spec fn walk_started(
    extension: Seq<char>,
    query: Seq<char>,
    case_insensitive: bool,
) -> (WalkView, WalkActionView) {
    (
        WalkView {
            extension,
            query: fold_case(query, case_insensitive),
            case_insensitive,
            pending: Seq::empty(),
            directory: Seq::empty(),
            entries: Seq::empty(),
            awaiting: AwaitingView::Entries(Seq::empty()),
            exact: Seq::empty(),
            vague: Seq::empty(),
        },
        WalkActionView::ReadDir { path: Seq::empty() },
    )
}

/// What a walk does until it has something to ask for.
///
/// It visits the entries of its directory, the last first. A directory is put
/// on the stack. A file that is no page is passed over. A page whose name
/// matches the query is an exact result. Any other page is to be read. Once
/// the entries are used up, the directory on top of the stack is to be listed;
/// with an empty stack the walk is over.
pub open spec fn advanced(walk: WalkView) -> (WalkView, WalkActionView)
    decreases walk.entries.len(),
{
    if walk.entries.len() == 0 {
        if walk.pending.len() == 0 {
            (WalkView { awaiting: AwaitingView::Nothing, ..walk }, WalkActionView::Done)
        } else {
            let path = walk.pending.last();
            (
                WalkView {
                    pending: walk.pending.drop_last(),
                    awaiting: AwaitingView::Entries(path),
                    ..walk
                },
                WalkActionView::ReadDir { path },
            )
        }
    } else {
        let entry = walk.entries.last();
        let rest = WalkView { entries: walk.entries.drop_last(), ..walk };
        let path = joined(walk.directory, entry.name);
        if entry.is_dir {
            advanced(WalkView { pending: rest.pending.push(path), ..rest })
        } else if !is_page(entry.name, walk.extension) {
            advanced(rest)
        } else if name_matches(entry.name, walk.query, walk.case_insensitive) {
            advanced(
                WalkView {
                    exact: rest.exact.push(
                        ExactView { item: page_item(path, walk.extension), fragment: None },
                    ),
                    ..rest
                },
            )
        } else {
            (
                WalkView { awaiting: AwaitingView::Lines(path), ..rest },
                WalkActionView::ReadFile { path },
            )
        }
    }
}

/// Whether a report is one that the walk waits for.
pub open spec fn walk_fits(awaiting: AwaitingView, event: WalkEventView) -> bool {
    match awaiting {
        AwaitingView::Entries(_) => event is Entries,
        AwaitingView::Lines(_) => event is Lines,
        AwaitingView::Nothing => false,
    }
}

/// What a walk comes to, and what it asks for, when the caller reports
/// `event`.
///
/// The entries of a directory are visited at once. The lines of a page give a
/// vague result if one of them contains the query; then the walk goes on with
/// the entries that are left.
pub open spec fn walk_next(walk: WalkView, event: WalkEventView) -> (WalkView, WalkActionView) {
    match (walk.awaiting, event) {
        (AwaitingView::Entries(path), WalkEventView::Entries(entries)) => advanced(
            WalkView { directory: path, entries, ..walk },
        ),
        (AwaitingView::Lines(path), WalkEventView::Lines(lines)) => {
            let contexts = page_contexts(lines, walk.query, walk.case_insensitive);
            if contexts.len() > 0 {
                advanced(
                    WalkView {
                        vague: walk.vague.push(
                            VagueView { item: page_item(path, walk.extension), contexts },
                        ),
                        ..walk
                    },
                )
            } else {
                advanced(walk)
            }
        },
        _ => (walk, WalkActionView::Done),
    }
}

/// The path of an entry `name` of the directory at `directory`.
pub fn join(directory: &str, name: &str) -> (r: String)
    ensures
        r@ == joined(directory@, name@),
{
    proof {
        lemma_empty_bytes(directory@);
    }
    if directory.as_bytes().len() == 0 {
        name.to_owned()
    } else {
        let mut r = directory.to_owned();
        r.append("/");
        r.append(name);
        r
    }
}

impl DocsetWalk {
    /// Starts a walk in search of `query`, through a docset whose pages have
    /// names that end with `extension`.
    pub fn new(extension: &str, query: &str, case_insensitive: bool) -> (r: (
        DocsetWalk,
        WalkAction,
    ))
        ensures
            (r.0@, r.1@) == walk_started(extension@, query@, case_insensitive),
    {
        let walk = DocsetWalk {
            extension: extension.to_owned(),
            query: fold(query, case_insensitive),
            case_insensitive,
            pending: Vec::new(),
            directory: String::new(),
            entries: Vec::new(),
            awaiting: Awaiting::Entries(String::new()),
            exact: Vec::new(),
            vague: Vec::new(),
        };
        proof {
            assert(walk@.pending =~= Seq::<Seq<char>>::empty());
            assert(walk@.entries =~= Seq::<EntryView>::empty());
            assert(walk@.exact =~= Seq::<ExactView>::empty());
            assert(walk@.vague =~= Seq::<VagueView>::empty());
        }
        (walk, WalkAction::ReadDir { path: String::new() })
    }

    /// Goes on until there is something to ask for.
    fn advance(&mut self) -> (action: WalkAction)
        ensures
            (final(self)@, action@) == advanced(old(self)@),
    {
        loop
            invariant
                advanced(self@) == advanced(old(self)@),
            decreases self.entries@.len(),
        {
            let ghost before = self@;
            match self.entries.pop() {
                None => {
                    assert(before.entries.len() == 0);
                    match self.pending.pop() {
                        None => {
                            assert(before.pending.len() == 0);
                            self.awaiting = Awaiting::Nothing;
                            return WalkAction::Done;
                        },
                        Some(path) => {
                            assert(string_views(self.pending@) =~= before.pending.drop_last());
                            self.awaiting = Awaiting::Entries(path.clone());
                            return WalkAction::ReadDir { path };
                        },
                    }
                },
                Some(entry) => {
                    assert(entry_views(self.entries@) =~= before.entries.drop_last());
                    assert(entry@ == before.entries.last());
                    let path = join(self.directory.as_str(), entry.name.as_str());
                    if entry.is_dir {
                        let ghost stack = self.pending@;
                        self.pending.push(path);
                        assert(string_views(self.pending@) =~= string_views(stack).push(path@));
                    } else if !has_page_extension(entry.name.as_str(), self.extension.as_str()) {
                    } else if name_is_match(
                        entry.name.as_str(),
                        self.query.as_str(),
                        self.case_insensitive,
                    ) {
                        let item = convert_path_to_item(path.as_str(), self.extension.as_str());
                        let ghost found = self.exact@;
                        let result = ExactResult { item, fragment: None };
                        self.exact.push(result);
                        assert(exact_views(self.exact@) =~= exact_views(found).push(result@));
                    } else {
                        self.awaiting = Awaiting::Lines(path.clone());
                        return WalkAction::ReadFile { path };
                    }
                },
            }
        }
    }

    /// Whether a report is one that the walk waits for.
    pub fn expects(&self, event: &WalkEvent) -> (r: bool)
        ensures
            r == walk_fits(self.awaiting@, event@),
    {
        match (&self.awaiting, event) {
            (Awaiting::Entries(_), WalkEvent::Entries(_)) => true,
            (Awaiting::Lines(_), WalkEvent::Lines(_)) => true,
            _ => false,
        }
    }

    /// Takes the caller's report of the last action, and decides on the next.
    pub fn step(&mut self, event: WalkEvent) -> (action: WalkAction)
        requires
            walk_fits(old(self).awaiting@, event@),
        ensures
            (final(self)@, action@) == walk_next(old(self)@, event@),
    {
        let mut awaiting = Awaiting::Nothing;
        core::mem::swap(&mut self.awaiting, &mut awaiting);
        match (awaiting, event) {
            (Awaiting::Entries(path), WalkEvent::Entries(entries)) => {
                self.directory = path;
                self.entries = entries;
                let ghost here = self@;
                let action = self.advance();
                proof {
                    lemma_advanced_whatever_awaited(
                        here,
                        WalkView { directory: path@, entries: entry_views(entries@), ..old(self)@ },
                    );
                }
                action
            },
            (Awaiting::Lines(path), WalkEvent::Lines(lines)) => {
                let contexts = scan_lines(&lines, self.query.as_str(), self.case_insensitive);
                if contexts.len() > 0 {
                    let item = convert_path_to_item(path.as_str(), self.extension.as_str());
                    let ghost found = self.vague@;
                    let result = VagueResult { item, contexts };
                    self.vague.push(result);
                    assert(vague_views(self.vague@) =~= vague_views(found).push(result@));
                }
                let ghost here = self@;
                let action = self.advance();
                proof {
                    lemma_advanced_whatever_awaited(
                        here,
                        WalkView { awaiting: old(self)@.awaiting, ..here },
                    );
                }
                action
            },
            _ => WalkAction::Done,
        }
    }

    /// The results of the walk: the exact results, sorted by item, and the vague
    /// results, sorted by item.
    pub fn finish(self) -> (r: (Vec<ExactResult>, Vec<VagueResult>))
        ensures
            exact_views(r.0@) == exact_in_order(self@.exact),
            vague_views(r.1@) == vague_in_order(self@.vague),
            exact_sorted(exact_views(r.0@)),
            exact_views(r.0@).to_multiset() == self@.exact.to_multiset(),
            vague_sorted(vague_views(r.1@)),
            items_ascend(vague_views(r.1@)),
            vague_views(r.1@).to_multiset() == self@.vague.to_multiset(),
    {
        (sort_exact(self.exact), sort_vague(self.vague))
    }
}

/// What a walk does next does not depend on what it waited for before.
pub proof fn lemma_advanced_whatever_awaited(a: WalkView, b: WalkView)
    requires
        a == (WalkView { awaiting: a.awaiting, ..b }),
    ensures
        advanced(a) == advanced(b),
    decreases a.entries.len(),
{
    if a.entries.len() > 0 {
        let entry = a.entries.last();
        let rest_a = WalkView { entries: a.entries.drop_last(), ..a };
        let rest_b = WalkView { entries: b.entries.drop_last(), ..b };
        let path = joined(a.directory, entry.name);
        if entry.is_dir {
            lemma_advanced_whatever_awaited(
                WalkView { pending: rest_a.pending.push(path), ..rest_a },
                WalkView { pending: rest_b.pending.push(path), ..rest_b },
            );
        } else if !is_page(entry.name, a.extension) {
            lemma_advanced_whatever_awaited(rest_a, rest_b);
        } else if name_matches(entry.name, a.query, a.case_insensitive) {
            let found = ExactView { item: page_item(path, a.extension), fragment: None };
            lemma_advanced_whatever_awaited(
                WalkView { exact: rest_a.exact.push(found), ..rest_a },
                WalkView { exact: rest_b.exact.push(found), ..rest_b },
            );
        }
    }
}

} // verus!
