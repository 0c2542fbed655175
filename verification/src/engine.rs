//! The course of one search.
//!
//! A search is a run of steps. Each step names one thing for the caller to do:
//! to read a record of the cache, to look through the docset, to store results,
//! to open a page, to show a listing. The caller does it and reports what came
//! of it, and the run decides on the next step. Results that the cache holds for
//! the same options are taken from it, and the docset is not looked through;
//! fresh results are stored before they are shown.

use vstd::prelude::*;
use crate::cache::{
    cache_search_results, is_cache_for, lookup, made_for, stored, CacheRecords, RecordsView,
};
use crate::catalog::{load_index, loaded, ErrorView, Manifest, ManifestView, SearchError};
use crate::index::{index_matches, search_docset_in_filenames};
use crate::message::{warning_views, Warning, WarningView};
use crate::model::{string_views, CacheView, OptionsView, SearchCache, SearchOptions, VagueView};
use crate::order::{
    exact_in_order, exact_sorted, lemma_exact_in_order, lemma_vague_in_order, vague_in_order,
    vague_sorted,
};
use crate::present::{
    exact_listing, lemma_written_number_is_natural, line_views, parse_number,
    print_search_results, print_vague_search_results, resolve_open, resolved, vague_listing,
    written_number, LineView, ListingLine, OpenRequest, OpenView,
};
use crate::strings::lemma_empty_bytes;
use crate::walk::{
    awaited_path, entry_views, walk_next, walk_started, Awaiting, AwaitingView, DirEntry,
    DocsetWalk, EntryView, WalkAction, WalkActionView, WalkEvent, WalkEventView, WalkView,
};

verus! {

/// The width of a page where all of it is to be shown on one line.
pub const UNBOUNDED_WIDTH: usize = 999;

/// The least width that can be asked for.
pub const LEAST_WIDTH: usize = 10;

/// What the caller of a run is to do next.
pub enum Action {
    /// Tell the user what is searched for.
    Announce { query: String },
    /// Read the options that the cache was made for, and report them.
    ReadCacheOptions,
    /// Read the results that the cache holds, and report them.
    ReadCacheResults,
    /// Read the index of names of the docset, and report it.
    LoadIndex { docset: String },
    /// List the directory at `path` below the root of the docset, and report
    /// its entries. The root itself has the empty path.
    ReadDir { docset: String, path: String },
    /// Read the file at `path` below the root of the docset, and report its
    /// lines.
    ReadFile { docset: String, path: String },
    /// Write the records to the cache, the options first, and report how that
    /// went.
    StoreCache { records: CacheRecords },
    /// Show a page, and report how that went.
    OpenPage { docset: String, item: String, fragment: Option<String>, width: usize },
    /// Show the listing of the results: the exact ones, and in a precise search
    /// the vague ones.
    ShowListing { docset: String, exact: Vec<ListingLine>, mentions: Option<Vec<ListingLine>> },
    /// The search is over. Show the warnings.
    Finish { warnings: Vec<Warning> },
    /// The search has failed.
    Fail { error: SearchError },
}

/// What the caller reports of the action that it was given.
pub enum Event {
    /// The action is done and there is nothing to report.
    Done,
    /// The options that the cache was made for; `None` where they are absent
    /// or cannot be read.
    CacheOptions(Option<SearchOptions>),
    /// The results that the cache holds; `None` where they are absent or cannot
    /// be read.
    CacheResults(Option<SearchCache>),
    /// What was found where the docset keeps its index of names.
    Index(Manifest),
    /// The entries of the directory, in any order, or why it could not be read.
    Entries(Result<Vec<DirEntry>, String>),
    /// The lines of the file, from top to bottom, or why it could not be read.
    Lines(Result<Vec<String>, String>),
    /// Why the cache could not be written, or `None` where it was written.
    Stored(Option<String>),
    /// Why the page could not be shown, or `None` where it was shown.
    Opened(Option<String>),
}

/// How far a run has come: what it waits for.
pub enum Stage {
    /// For the user to be told what is searched for.
    Announcing,
    /// For the options of the cache.
    ReadingOptions,
    /// For the results of the cache.
    ReadingResults,
    /// For the index of names of the docset.
    LoadingIndex,
    /// For a directory or a file of the docset. The run holds the walk.
    Walking(DocsetWalk),
    /// For the cache to be written. The run holds the fresh results.
    Storing(SearchCache),
    /// For the page to be shown.
    Opening,
    /// For the listing to be shown.
    Listing,
    /// For nothing: the run is over.
    Finished,
}

/// One search, from its options to its end.
pub struct SearchRun {
    /// What is searched for, and how.
    pub options: SearchOptions,
    /// What the name of a page of the docset ends with.
    pub extension: String,
    /// The result to open, as it was asked for; empty where none was.
    pub request: String,
    /// The width at which a page is shown.
    pub width: usize,
    /// The warnings so far.
    pub warnings: Vec<Warning>,
    /// What the run waits for.
    pub stage: Stage,
}

/// What an `Action` holds.
pub ghost enum ActionView {
    Announce { query: Seq<char> },
    ReadCacheOptions,
    ReadCacheResults,
    LoadIndex { docset: Seq<char> },
    ReadDir { docset: Seq<char>, path: Seq<char> },
    ReadFile { docset: Seq<char>, path: Seq<char> },
    StoreCache { records: RecordsView },
    OpenPage { docset: Seq<char>, item: Seq<char>, fragment: Option<Seq<char>>, width: int },
    ShowListing { docset: Seq<char>, exact: Seq<LineView>, mentions: Option<Seq<LineView>> },
    Finish { warnings: Seq<WarningView> },
    Fail { error: ErrorView },
}

/// What an `Event` holds.
pub ghost enum EventView {
    Done,
    CacheOptions(Option<OptionsView>),
    CacheResults(Option<CacheView>),
    Index(ManifestView),
    Entries(Result<Seq<EntryView>, Seq<char>>),
    Lines(Result<Seq<Seq<char>>, Seq<char>>),
    Stored(Option<Seq<char>>),
    Opened(Option<Seq<char>>),
}

/// What a `Stage` holds.
pub ghost enum StageView {
    Announcing,
    ReadingOptions,
    ReadingResults,
    LoadingIndex,
    Walking(WalkView),
    Storing(CacheView),
    Opening,
    Listing,
    Finished,
}

/// What a `SearchRun` holds.
pub ghost struct RunView {
    pub options: OptionsView,
    pub extension: Seq<char>,
    pub request: Seq<char>,
    pub width: int,
    pub warnings: Seq<WarningView>,
    pub stage: StageView,
}

impl View for Action {
    type V = ActionView;

    open spec fn view(&self) -> ActionView {
        match self {
            Action::Announce { query } => ActionView::Announce { query: query@ },
            Action::ReadCacheOptions => ActionView::ReadCacheOptions,
            Action::ReadCacheResults => ActionView::ReadCacheResults,
            Action::LoadIndex { docset } => ActionView::LoadIndex { docset: docset@ },
            Action::ReadDir { docset, path } => ActionView::ReadDir {
                docset: docset@,
                path: path@,
            },
            Action::ReadFile { docset, path } => ActionView::ReadFile {
                docset: docset@,
                path: path@,
            },
            Action::StoreCache { records } => ActionView::StoreCache { records: records@ },
            Action::OpenPage { docset, item, fragment, width } => ActionView::OpenPage {
                docset: docset@,
                item: item@,
                fragment: match fragment {
                    Some(f) => Some(f@),
                    None => None,
                },
                width: *width as int,
            },
            Action::ShowListing { docset, exact, mentions } => ActionView::ShowListing {
                docset: docset@,
                exact: line_views(exact@),
                mentions: match mentions {
                    Some(m) => Some(line_views(m@)),
                    None => None,
                },
            },
            Action::Finish { warnings } => ActionView::Finish {
                warnings: warning_views(warnings@),
            },
            Action::Fail { error } => ActionView::Fail { error: error@ },
        }
    }
}

impl View for Event {
    type V = EventView;

    open spec fn view(&self) -> EventView {
        match self {
            Event::Done => EventView::Done,
            Event::CacheOptions(o) => EventView::CacheOptions(
                match o {
                    Some(o) => Some(o@),
                    None => None,
                },
            ),
            Event::CacheResults(c) => EventView::CacheResults(
                match c {
                    Some(c) => Some(c@),
                    None => None,
                },
            ),
            Event::Index(m) => EventView::Index(m@),
            Event::Entries(e) => EventView::Entries(
                match e {
                    Ok(list) => Ok(entry_views(list@)),
                    Err(m) => Err(m@),
                },
            ),
            Event::Lines(l) => EventView::Lines(
                match l {
                    Ok(lines) => Ok(string_views(lines@)),
                    Err(m) => Err(m@),
                },
            ),
            Event::Stored(e) => EventView::Stored(
                match e {
                    Some(m) => Some(m@),
                    None => None,
                },
            ),
            Event::Opened(e) => EventView::Opened(
                match e {
                    Some(m) => Some(m@),
                    None => None,
                },
            ),
        }
    }
}

impl View for Stage {
    type V = StageView;

    open spec fn view(&self) -> StageView {
        match self {
            Stage::Announcing => StageView::Announcing,
            Stage::ReadingOptions => StageView::ReadingOptions,
            Stage::ReadingResults => StageView::ReadingResults,
            Stage::LoadingIndex => StageView::LoadingIndex,
            Stage::Walking(w) => StageView::Walking(w@),
            Stage::Storing(c) => StageView::Storing(c@),
            Stage::Opening => StageView::Opening,
            Stage::Listing => StageView::Listing,
            Stage::Finished => StageView::Finished,
        }
    }
}

impl View for SearchRun {
    type V = RunView;

    open spec fn view(&self) -> RunView {
        RunView {
            options: self.options@,
            extension: self.extension@,
            request: self.request@,
            width: self.width as int,
            warnings: warning_views(self.warnings@),
            stage: self.stage@,
        }
    }
}

/// The width at which a page is shown: 0 asks for a page on one line, a
/// number above `LEAST_WIDTH` for that width; anything else leaves the width of
/// the terminal.
pub open spec fn chosen_width(terminal_width: int, columns: Seq<char>) -> int {
    match written_number(columns) {
        Some(n) => if n == 0 {
            UNBOUNDED_WIDTH as int
        } else if n > LEAST_WIDTH {
            n
        } else {
            terminal_width
        },
        None => terminal_width,
    }
}

/// Whether a width was asked for that is no number.
pub open spec fn columns_refused(columns: Seq<char>) -> bool {
    written_number(columns) is None && columns.len() > 0
}

/// The results as a search with these options has them: a search that is not
/// precise has no vague results.
pub open spec fn kept(options: OptionsView, results: CacheView) -> CacheView {
    if options.flags.precise {
        results
    } else {
        CacheView { vague_results: Seq::empty(), ..results }
    }
}

/// What a run does with its results: it opens the result that was asked for,
/// or, where none was asked for or the request is refused, shows the listing.
/// A refused request is warned of.
pub open spec fn shown(run: RunView, results: CacheView) -> (RunView, ActionView) {
    let exact = results.exact_results;
    let vague = results.vague_results;
    let precise = run.options.flags.precise;
    if exact.len() + vague.len() >= usize::MAX {
        (
            RunView { stage: StageView::Finished, ..run },
            ActionView::Fail { error: ErrorView::TooManyResults },
        )
    } else {
        let listing = ActionView::ShowListing {
            docset: run.options.docset,
            exact: exact_listing(exact, 1),
            mentions: if precise {
                Some(vague_listing(vague, exact.len() as int + 1, vague.len() as int))
            } else {
                None
            },
        };
        match resolved(run.request, exact, vague, precise, run.options.flags.ignore_fragment) {
            OpenView::Nothing => (RunView { stage: StageView::Listing, ..run }, listing),
            OpenView::NotANumber => (
                RunView {
                    stage: StageView::Listing,
                    warnings: run.warnings.push(WarningView::OpenNotANumber),
                    ..run
                },
                listing,
            ),
            OpenView::OutOfBounds { number } => (
                RunView {
                    stage: StageView::Listing,
                    warnings: run.warnings.push(WarningView::OpenOutOfBounds { number }),
                    ..run
                },
                listing,
            ),
            OpenView::Page { item, fragment } => (
                RunView { stage: StageView::Opening, ..run },
                ActionView::OpenPage {
                    docset: run.options.docset,
                    item,
                    fragment,
                    width: run.width,
                },
            ),
        }
    }
}

/// What a run does with fresh results: it has them stored under its options.
pub open spec fn fresh(run: RunView, results: CacheView) -> (RunView, ActionView) {
    (
        RunView { stage: StageView::Storing(results), ..run },
        ActionView::StoreCache { records: stored(run.options, results) },
    )
}

/// What a run does when the cache does not serve it: it looks through the
/// docset, through its pages where the search is precise, else through its
/// index of names.
pub open spec fn sought(run: RunView) -> (RunView, ActionView) {
    if run.options.flags.precise {
        let (walk, _) = walk_started(
            run.extension,
            run.options.query,
            run.options.flags.case_insensitive,
        );
        (
            RunView { stage: StageView::Walking(walk), ..run },
            ActionView::ReadDir { docset: run.options.docset, path: Seq::empty() },
        )
    } else {
        (
            RunView { stage: StageView::LoadingIndex, ..run },
            ActionView::LoadIndex { docset: run.options.docset },
        )
    }
}

/// What a run does once its walk through the docset has taken a step: it asks
/// for what the walk asks for, and at the end of the walk it has the results
/// of the walk, in their order.
pub open spec fn walked(run: RunView, walk: WalkView, asked: WalkActionView) -> (
    RunView,
    ActionView,
) {
    match asked {
        WalkActionView::ReadDir { path } => (
            RunView { stage: StageView::Walking(walk), ..run },
            ActionView::ReadDir { docset: run.options.docset, path },
        ),
        WalkActionView::ReadFile { path } => (
            RunView { stage: StageView::Walking(walk), ..run },
            ActionView::ReadFile { docset: run.options.docset, path },
        ),
        WalkActionView::Done => fresh(
            run,
            CacheView {
                exact_results: exact_in_order(walk.exact),
                vague_results: vague_in_order(walk.vague),
            },
        ),
    }
}

/// Whether a report is one that the run waits for.
pub open spec fn fits(stage: StageView, event: EventView) -> bool {
    match stage {
        StageView::Announcing => event is Done,
        StageView::ReadingOptions => event is CacheOptions,
        StageView::ReadingResults => event is CacheResults,
        StageView::LoadingIndex => event is Index,
        StageView::Walking(walk) => match walk.awaiting {
            AwaitingView::Entries(_) => event is Entries,
            AwaitingView::Lines(_) => event is Lines,
            AwaitingView::Nothing => false,
        },
        StageView::Storing(_) => event is Stored,
        StageView::Opening => event is Opened,
        StageView::Listing => event is Done,
        StageView::Finished => false,
    }
}

/// How a run starts.
///
/// The user is told what is searched for, unless a result is asked for by
/// number; then the cache is asked.
pub open spec fn started(
    options: OptionsView,
    extension: Seq<char>,
    request: Seq<char>,
    columns: Seq<char>,
    terminal_width: int,
) -> (RunView, ActionView) {
    let run = RunView {
        options,
        extension,
        request,
        width: chosen_width(terminal_width, columns),
        warnings: if columns_refused(columns) {
            seq![WarningView::InvalidColumns]
        } else {
            Seq::empty()
        },
        stage: StageView::ReadingOptions,
    };
    if written_number(request) is None {
        (
            RunView { stage: StageView::Announcing, ..run },
            ActionView::Announce { query: options.query },
        )
    } else {
        (run, ActionView::ReadCacheOptions)
    }
}

/// What a run comes to, and what it asks for, when the caller reports `event`.
///
/// A cache that was made for the options of the run serves the run; any other
/// cache, and one that cannot be read, does not, and the docset is looked
/// through. What is found there is put in order and stored before it is
/// shown. A directory or a file that cannot be read ends the search, and so
/// does a docset without an index; a cache that cannot be written is warned
/// of.
pub open spec fn next(run: RunView, event: EventView) -> (RunView, ActionView) {
    match (run.stage, event) {
        (StageView::Announcing, _) => (
            RunView { stage: StageView::ReadingOptions, ..run },
            ActionView::ReadCacheOptions,
        ),
        (StageView::ReadingOptions, EventView::CacheOptions(o)) => if made_for(run.options, o) {
            (RunView { stage: StageView::ReadingResults, ..run }, ActionView::ReadCacheResults)
        } else {
            sought(run)
        },
        (StageView::ReadingResults, EventView::CacheResults(Some(c))) => shown(
            run,
            kept(run.options, c),
        ),
        (StageView::ReadingResults, _) => sought(run),
        (StageView::LoadingIndex, EventView::Index(manifest)) => match loaded(
            run.options.docset,
            manifest,
        ) {
            Ok(entries) => fresh(
                run,
                CacheView {
                    exact_results: exact_in_order(
                        index_matches(
                            entries,
                            run.options.query,
                            run.options.flags.case_insensitive,
                        ),
                    ),
                    vague_results: Seq::empty(),
                },
            ),
            Err(error) => (
                RunView { stage: StageView::Finished, ..run },
                ActionView::Fail { error },
            ),
        },
        (StageView::Walking(walk), EventView::Entries(Ok(entries))) => {
            let (after, asked) = walk_next(walk, WalkEventView::Entries(entries));
            walked(run, after, asked)
        },
        (StageView::Walking(walk), EventView::Lines(Ok(lines))) => {
            let (after, asked) = walk_next(walk, WalkEventView::Lines(lines));
            walked(run, after, asked)
        },
        (StageView::Walking(walk), EventView::Entries(Err(reason))) => (
            RunView { stage: StageView::Finished, ..run },
            ActionView::Fail {
                error: ErrorView::Directory { path: awaited_path(walk.awaiting), reason },
            },
        ),
        (StageView::Walking(walk), EventView::Lines(Err(reason))) => (
            RunView { stage: StageView::Finished, ..run },
            ActionView::Fail {
                error: ErrorView::File { path: awaited_path(walk.awaiting), reason },
            },
        ),
        (StageView::Storing(c), EventView::Stored(Some(reason))) => shown(
            RunView {
                warnings: run.warnings.push(WarningView::CacheNotWritten { reason }),
                ..run
            },
            c,
        ),
        (StageView::Storing(c), _) => shown(run, c),
        (StageView::Opening, EventView::Opened(Some(reason))) => (
            RunView { stage: StageView::Finished, ..run },
            ActionView::Fail { error: ErrorView::Page { reason } },
        ),
        (_, _) => (
            RunView { stage: StageView::Finished, ..run },
            ActionView::Finish { warnings: run.warnings },
        ),
    }
}

/// The width at which a page is shown, and whether the width that was asked
/// for is refused.
pub fn choose_width(terminal_width: usize, flag_columns: &str) -> (r: (usize, bool))
    ensures
        r.0 == chosen_width(terminal_width as int, flag_columns@),
        r.1 == columns_refused(flag_columns@),
{
    match parse_number(flag_columns) {
        Some(n) => {
            if n == 0 {
                (UNBOUNDED_WIDTH, false)
            } else if n > LEAST_WIDTH {
                (n, false)
            } else {
                (terminal_width, false)
            }
        },
        None => {
            proof {
                lemma_empty_bytes(flag_columns@);
            }
            (terminal_width, flag_columns.as_bytes().len() > 0)
        },
    }
}

/// A copy of a list of warnings.
fn copy_warnings(v: &Vec<Warning>) -> (r: Vec<Warning>)
    ensures
        warning_views(r@) == warning_views(v@),
{
    let mut r: Vec<Warning> = Vec::new();
    let n: usize = v.len();
    let mut i: usize = 0;
    while i < n
        invariant
            n == v@.len(),
            i <= n,
            r@.len() == i,
            forall|k: int| 0 <= k < i ==> r@[k]@ == v@[k]@,
        decreases n - i,
    {
        let w = match &v[i] {
            Warning::InvalidColumns => Warning::InvalidColumns,
            Warning::CacheNotWritten { reason } => Warning::CacheNotWritten {
                reason: reason.clone(),
            },
            Warning::OpenOutOfBounds { number } => Warning::OpenOutOfBounds { number: *number },
            Warning::OpenNotANumber => Warning::OpenNotANumber,
        };
        r.push(w);
        i += 1;
    }
    assert(warning_views(r@) =~= warning_views(v@));
    r
}

impl SearchRun {
    /// Starts a search in a docset whose pages have names that end with
    /// `extension`.
    ///
    /// `flag_open` is the result to open as it was asked for, empty where none
    /// was; `flag_columns` the width that was asked for, empty where none was.
    pub fn new(
        options: SearchOptions,
        extension: &str,
        flag_open: String,
        flag_columns: &str,
        terminal_width: usize,
    ) -> (r: (SearchRun, Action))
        ensures
            (r.0@, r.1@) == started(
                options@,
                extension@,
                flag_open@,
                flag_columns@,
                terminal_width as int,
            ),
    {
        let mut warnings: Vec<Warning> = Vec::new();
        assert(warning_views(warnings@) =~= Seq::<WarningView>::empty());
        let (width, refused) = choose_width(terminal_width, flag_columns);
        if refused {
            warnings.push(Warning::InvalidColumns);
            assert(warning_views(warnings@) =~= seq![WarningView::InvalidColumns]);
        }
        let asked: bool = parse_number(flag_open.as_str()).is_some();
        let extension = extension.to_owned();
        if asked {
            (
                SearchRun {
                    options,
                    extension,
                    request: flag_open,
                    width,
                    warnings,
                    stage: Stage::ReadingOptions,
                },
                Action::ReadCacheOptions,
            )
        } else {
            let query = options.query.clone();
            (
                SearchRun {
                    options,
                    extension,
                    request: flag_open,
                    width,
                    warnings,
                    stage: Stage::Announcing,
                },
                Action::Announce { query },
            )
        }
    }

    /// Sets out to look through the docset.
    fn seek(&mut self) -> (action: Action)
        ensures
            (final(self)@, action@) == sought(old(self)@),
    {
        if self.options.flags.precise {
            let (walk, _) = DocsetWalk::new(
                self.extension.as_str(),
                self.options.query.as_str(),
                self.options.flags.case_insensitive,
            );
            self.stage = Stage::Walking(walk);
            Action::ReadDir { docset: self.options.docset.clone(), path: String::new() }
        } else {
            self.stage = Stage::LoadingIndex;
            Action::LoadIndex { docset: self.options.docset.clone() }
        }
    }

    /// Has fresh results stored.
    fn store(&mut self, results: SearchCache) -> (action: Action)
        ensures
            (final(self)@, action@) == fresh(old(self)@, results@),
    {
        let records = cache_search_results(&self.options, &results);
        self.stage = Stage::Storing(results);
        Action::StoreCache { records }
    }

    /// Goes on after a step of the walk.
    fn walk_on(&mut self, walk: DocsetWalk, asked: WalkAction) -> (action: Action)
        ensures
            (final(self)@, action@) == walked(old(self)@, walk@, asked@),
    {
        match asked {
            WalkAction::ReadDir { path } => {
                self.stage = Stage::Walking(walk);
                Action::ReadDir { docset: self.options.docset.clone(), path }
            },
            WalkAction::ReadFile { path } => {
                self.stage = Stage::Walking(walk);
                Action::ReadFile { docset: self.options.docset.clone(), path }
            },
            WalkAction::Done => {
                let (exact_results, vague_results) = walk.finish();
                self.store(SearchCache { exact_results, vague_results })
            },
        }
    }

    /// The results as this search has them.
    fn keep(&self, results: SearchCache) -> (r: SearchCache)
        ensures
            r@ == kept(self.options@, results@),
    {
        if self.options.flags.precise {
            results
        } else {
            let r = SearchCache { exact_results: results.exact_results, vague_results: Vec::new() };
            assert(r@.vague_results =~= Seq::<VagueView>::empty());
            r
        }
    }

    /// Opens the result that was asked for, or shows the listing.
    fn show(&mut self, results: &SearchCache) -> (action: Action)
        ensures
            (final(self)@, action@) == shown(old(self)@, results@),
    {
        let exact = &results.exact_results;
        let vague = &results.vague_results;
        let precise = self.options.flags.precise;
        let fits: bool = match exact.len().checked_add(vague.len()) {
            Some(total) => total < usize::MAX,
            None => false,
        };
        if !fits {
            self.stage = Stage::Finished;
            return Action::Fail { error: SearchError::TooManyResults };
        }
        let open = resolve_open(
            self.request.as_str(),
            exact,
            vague,
            precise,
            self.options.flags.ignore_fragment,
        );
        match open {
            OpenRequest::Page { item, fragment } => {
                self.stage = Stage::Opening;
                Action::OpenPage {
                    docset: self.options.docset.clone(),
                    item,
                    fragment,
                    width: self.width,
                }
            },
            other => {
                let ghost before = self.warnings@;
                match other {
                    OpenRequest::NotANumber => {
                        self.warnings.push(Warning::OpenNotANumber);
                        assert(warning_views(self.warnings@) =~= warning_views(before).push(
                            WarningView::OpenNotANumber,
                        ));
                    },
                    OpenRequest::OutOfBounds { number } => {
                        self.warnings.push(Warning::OpenOutOfBounds { number });
                        assert(warning_views(self.warnings@) =~= warning_views(before).push(
                            WarningView::OpenOutOfBounds { number: number as int },
                        ));
                    },
                    _ => {},
                }
                self.stage = Stage::Listing;
                Action::ShowListing {
                    docset: self.options.docset.clone(),
                    exact: print_search_results(exact, 1),
                    mentions: if precise {
                        Some(print_vague_search_results(vague, exact.len() + 1))
                    } else {
                        None
                    },
                }
            },
        }
    }

    /// Whether a report is one that the run waits for.
    pub fn expects(&self, event: &Event) -> (r: bool)
        ensures
            r == fits(self.stage@, event@),
    {
        match (&self.stage, event) {
            (Stage::Announcing, Event::Done) => true,
            (Stage::ReadingOptions, Event::CacheOptions(_)) => true,
            (Stage::ReadingResults, Event::CacheResults(_)) => true,
            (Stage::LoadingIndex, Event::Index(_)) => true,
            (Stage::Walking(walk), Event::Entries(_)) => match &walk.awaiting {
                Awaiting::Entries(_) => true,
                _ => false,
            },
            (Stage::Walking(walk), Event::Lines(_)) => match &walk.awaiting {
                Awaiting::Lines(_) => true,
                _ => false,
            },
            (Stage::Storing(_), Event::Stored(_)) => true,
            (Stage::Opening, Event::Opened(_)) => true,
            (Stage::Listing, Event::Done) => true,
            _ => false,
        }
    }

    /// Takes the caller's report of the last action, and decides on the next.
    pub fn step(&mut self, event: Event) -> (action: Action)
        requires
            fits(old(self).stage@, event@),
        ensures
            (final(self)@, action@) == next(old(self)@, event@),
    {
        let mut stage = Stage::Finished;
        core::mem::swap(&mut self.stage, &mut stage);
        match (stage, event) {
            (Stage::Announcing, _) => {
                self.stage = Stage::ReadingOptions;
                Action::ReadCacheOptions
            },
            (Stage::ReadingOptions, Event::CacheOptions(o)) => {
                if is_cache_for(&self.options, &o) {
                    self.stage = Stage::ReadingResults;
                    Action::ReadCacheResults
                } else {
                    self.seek()
                }
            },
            (Stage::ReadingResults, Event::CacheResults(Some(c))) => {
                let results = self.keep(c);
                self.show(&results)
            },
            (Stage::ReadingResults, _) => self.seek(),
            (Stage::LoadingIndex, Event::Index(manifest)) => {
                match load_index(self.options.docset.as_str(), manifest) {
                    Ok(entries) => {
                        let exact_results = search_docset_in_filenames(
                            &entries,
                            self.options.query.as_str(),
                            self.options.flags.case_insensitive,
                        );
                        let results = SearchCache { exact_results, vague_results: Vec::new() };
                        assert(results@.vague_results =~= Seq::<VagueView>::empty());
                        self.store(results)
                    },
                    Err(error) => Action::Fail { error },
                }
            },
            (Stage::Walking(walk), Event::Entries(Ok(entries))) => {
                let mut walk = walk;
                let asked = walk.step(WalkEvent::Entries(entries));
                self.walk_on(walk, asked)
            },
            (Stage::Walking(walk), Event::Lines(Ok(lines))) => {
                let mut walk = walk;
                let asked = walk.step(WalkEvent::Lines(lines));
                self.walk_on(walk, asked)
            },
            (Stage::Walking(walk), Event::Entries(Err(reason))) => Action::Fail {
                error: SearchError::Directory { path: walk.awaiting.path(), reason },
            },
            (Stage::Walking(walk), Event::Lines(Err(reason))) => Action::Fail {
                error: SearchError::File { path: walk.awaiting.path(), reason },
            },
            (Stage::Storing(c), Event::Stored(Some(reason))) => {
                let ghost before = self.warnings@;
                self.warnings.push(Warning::CacheNotWritten { reason });
                assert(warning_views(self.warnings@) =~= warning_views(before).push(
                    WarningView::CacheNotWritten { reason: reason@ },
                ));
                self.show(&c)
            },
            (Stage::Storing(c), _) => self.show(&c),
            (Stage::Opening, Event::Opened(Some(reason))) => Action::Fail {
                error: SearchError::Page { reason },
            },
            (_, _) => Action::Finish { warnings: copy_warnings(&self.warnings) },
        }
    }
}

/// A run that finds the cache made for its options, and finds results in it,
/// does not look through the docset: it goes on with the results of the cache.
pub proof fn lemma_hit_is_served(run: RunView, results: CacheView)
    requires
        run.stage is ReadingOptions,
    ensures
        ({
            let (waiting, first) = next(run, EventView::CacheOptions(Some(run.options)));
            let (after, second) = next(waiting, EventView::CacheResults(Some(results)));
            &&& first is ReadCacheResults
            &&& (after, second) == shown(
                RunView { stage: StageView::ReadingResults, ..run },
                kept(run.options, results),
            )
            &&& !(second is LoadIndex) && !(second is ReadDir) && !(second is ReadFile)
        }),
{
}

/// A run that finds the cache made for other options, or finds no cache, looks
/// through the docset.
pub proof fn lemma_miss_is_computed(run: RunView, cached: Option<OptionsView>)
    requires
        run.stage is ReadingOptions,
        cached != Some(run.options),
    ensures
        ({
            let (_, first) = next(run, EventView::CacheOptions(cached));
            if run.options.flags.precise {
                first == (ActionView::ReadDir { docset: run.options.docset, path: Seq::empty() })
            } else {
                first == (ActionView::LoadIndex { docset: run.options.docset })
            }
        }),
{
}

/// What a run has stored is in order, and a second run with the same options
/// is served with it from the cache.
pub proof fn lemma_stored_results_are_sorted(run: RunView, event: EventView)
    requires
        fits(run.stage, event),
        next(run, event).1 is StoreCache,
    ensures
        ({
            let records = next(run, event).1->records;
            &&& records.options == Some(run.options)
            &&& records.results is Some
            &&& exact_sorted(records.results->0.exact_results)
            &&& vague_sorted(records.results->0.vague_results)
            &&& lookup(run.options, records) == records.results
            &&& next(run, event).0.stage == StageView::Storing(records.results->0)
        }),
{
    match (run.stage, event) {
        (StageView::LoadingIndex, EventView::Index(manifest)) => {
            let entries = loaded(run.options.docset, manifest)->Ok_0;
            lemma_exact_in_order(
                index_matches(entries, run.options.query, run.options.flags.case_insensitive),
            );
        },
        (StageView::Walking(walk), EventView::Entries(Ok(entries))) => {
            let (after, _) = walk_next(walk, WalkEventView::Entries(entries));
            lemma_exact_in_order(after.exact);
            lemma_vague_in_order(after.vague);
        },
        (StageView::Walking(walk), EventView::Lines(Ok(lines))) => {
            let (after, _) = walk_next(walk, WalkEventView::Lines(lines));
            lemma_exact_in_order(after.exact);
            lemma_vague_in_order(after.vague);
        },
        _ => {},
    }
}

/// Whether the stage of a run goes with its options: only a precise search
/// walks through the docset and has vague results, and only a search that is
/// not precise reads the index of names.
pub open spec fn coherent(run: RunView) -> bool {
    match run.stage {
        StageView::LoadingIndex => !run.options.flags.precise,
        StageView::Walking(_) => run.options.flags.precise,
        StageView::Storing(results) => run.options.flags.precise || results.vague_results
            == Seq::<VagueView>::empty(),
        _ => true,
    }
}

/// A run starts in a stage that goes with its options.
pub proof fn lemma_run_starts_coherent(
    options: OptionsView,
    extension: Seq<char>,
    request: Seq<char>,
    columns: Seq<char>,
    terminal_width: int,
)
    ensures
        coherent(started(options, extension, request, columns, terminal_width).0),
{
}

/// A run keeps to stages that go with its options, and keeps its options, the
/// result that it was asked to open and its width.
pub proof fn lemma_run_stays_coherent(run: RunView, event: EventView)
    requires
        coherent(run),
        fits(run.stage, event),
    ensures
        coherent(next(run, event).0),
        next(run, event).0.options == run.options,
        next(run, event).0.request == run.request,
        next(run, event).0.width == run.width,
{
    match (run.stage, event) {
        (StageView::Walking(walk), EventView::Entries(Ok(entries))) => {
            let (after, asked) = walk_next(walk, WalkEventView::Entries(entries));
            assert(next(run, event) == walked(run, after, asked));
        },
        (StageView::Walking(walk), EventView::Lines(Ok(lines))) => {
            let (after, asked) = walk_next(walk, WalkEventView::Lines(lines));
            assert(next(run, event) == walked(run, after, asked));
        },
        _ => {},
    }
}

/// What a run shows of its results depends on its options, on the result that
/// it was asked to open and on its width alone.
pub proof fn lemma_shown_by_options(a: RunView, b: RunView, results: CacheView)
    requires
        a.options == b.options,
        a.request == b.request,
        a.width == b.width,
    ensures
        shown(a, results).1 == shown(b, results).1,
{
}

/// A second run with the same options, asked for the same, shows what the
/// first run showed: the first run has its fresh results stored, and the second
/// is served with them from the cache, without looking through the docset.
pub proof fn lemma_second_run_shows_the_same(first: RunView, event: EventView, second: RunView)
    requires
        coherent(first),
        fits(first.stage, event),
        next(first, event).1 is StoreCache,
        second.stage is ReadingOptions,
        second.options == first.options,
        second.request == first.request,
        second.width == first.width,
    ensures
        ({
            let (storing, store) = next(first, event);
            let records = store->records;
            let (_, shown_first) = next(storing, EventView::Stored(None));
            let (reading, asked) = next(second, EventView::CacheOptions(records.options));
            let (_, shown_second) = next(reading, EventView::CacheResults(records.results));
            &&& asked is ReadCacheResults
            &&& shown_second == shown_first
        }),
{
    lemma_stored_results_are_sorted(first, event);
    lemma_run_stays_coherent(first, event);
    let (storing, store) = next(first, event);
    let results = store->records.results->0;
    let reading = RunView { stage: StageView::ReadingResults, ..second };
    assert(kept(first.options, results) == results);
    assert(next(storing, EventView::Stored(None)) == shown(storing, results));
    assert(next(second, EventView::CacheOptions(store->records.options)).0 == reading);
    assert(next(reading, EventView::CacheResults(store->records.results)) == shown(
        reading,
        results,
    ));
    lemma_shown_by_options(storing, reading, results);
}

/// A run whose request to open a result is refused, because it names no
/// number or a number that no result has, warns of that and shows the listing;
/// a request for a number that a result has opens that result, and shows no
/// listing.
pub proof fn lemma_refused_request_is_listed(run: RunView, results: CacheView)
    requires
        run.request.len() > 0,
        run.options.flags.precise,
        results.exact_results.len() + results.vague_results.len() < usize::MAX,
    ensures
        ({
            let (after, action) = shown(run, results);
            let exact = results.exact_results;
            let vague = results.vague_results;
            match written_number(run.request) {
                None => action is ShowListing && after.warnings == run.warnings.push(
                    WarningView::OpenNotANumber,
                ),
                Some(n) => if n == 0 || n > exact.len() + vague.len() {
                    action is ShowListing && after.warnings == run.warnings.push(
                        WarningView::OpenOutOfBounds { number: n },
                    )
                } else if n <= exact.len() {
                    action is OpenPage && action->item == exact[n - 1].item && after.warnings
                        == run.warnings
                } else {
                    action is OpenPage && action->item == vague[n - exact.len() - 1].item
                        && action->OpenPage_fragment is None && after.warnings == run.warnings
                },
            }
        }),
{
    lemma_written_number_is_natural(run.request);
}

} // verus!
