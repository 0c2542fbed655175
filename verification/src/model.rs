//! The values that a search produces and that the cache keeps.

use vstd::prelude::*;

verus! {

/// A page found by its name or path.
#[derive(Clone, Debug, PartialEq, Eq)]
pub struct ExactResult {
    /// The page's path below the docset's root, without its file extension.
    pub item: String,
    /// The anchor inside the page, where the path named one.
    pub fragment: Option<String>,
}

/// What an `ExactResult` holds.
pub ghost struct ExactView {
    pub item: Seq<char>,
    pub fragment: Option<Seq<char>>,
}

impl View for ExactResult {
    type V = ExactView;

    open spec fn view(&self) -> ExactView {
        ExactView {
            item: self.item@,
            fragment: match self.fragment {
                Some(f) => Some(f@),
                None => None,
            },
        }
    }
}

/// A page found by what its body says.
#[derive(Clone, Debug, PartialEq, Eq)]
pub struct VagueResult {
    /// The page's path below the docset's root, without its file extension.
    pub item: String,
    /// One excerpt for each line of the page that matched, from top to bottom.
    pub contexts: Vec<String>,
}

/// What a `VagueResult` holds.
pub ghost struct VagueView {
    pub item: Seq<char>,
    pub contexts: Seq<Seq<char>>,
}

/// The strings of a list, one for one.
pub open spec fn string_views(v: Seq<String>) -> Seq<Seq<char>> {
    Seq::new(v.len(), |i: int| v[i]@)
}

impl View for VagueResult {
    type V = VagueView;

    open spec fn view(&self) -> VagueView {
        VagueView { item: self.item@, contexts: string_views(self.contexts@) }
    }
}

/// The options of a search that change which results it has or how they are
/// addressed.
#[derive(Clone, Copy, Debug, PartialEq, Eq, Structural)]
pub struct SearchFlags {
    /// Whether the search ignores case.
    pub case_insensitive: bool,
    /// Whether the search looks through the pages, and not only through the
    /// index of names.
    pub precise: bool,
    /// Whether the query is searched for as a word of its own.
    pub whole: bool,
    /// Whether a result is opened at the top of its page.
    pub ignore_fragment: bool,
}

impl Default for SearchFlags {
    /// The flags of a search for which nothing was asked: none is set.
    fn default() -> (r: SearchFlags)
        ensures
            r == (SearchFlags {
                case_insensitive: false,
                precise: false,
                whole: false,
                ignore_fragment: false,
            }),
    {
        SearchFlags {
            case_insensitive: false,
            precise: false,
            whole: false,
            ignore_fragment: false,
        }
    }
}

/// What a search was asked for: the fingerprint under which its results are
/// kept. Two fingerprints are equal when query, docset and flags are.
#[derive(Clone, Debug)]
pub struct SearchOptions {
    pub query: String,
    pub docset: String,
    pub flags: SearchFlags,
}

/// What a `SearchOptions` holds.
pub ghost struct OptionsView {
    pub query: Seq<char>,
    pub docset: Seq<char>,
    pub flags: SearchFlags,
}

impl View for SearchOptions {
    type V = OptionsView;

    open spec fn view(&self) -> OptionsView {
        OptionsView { query: self.query@, docset: self.docset@, flags: self.flags }
    }
}

impl PartialEq for SearchOptions {
    fn eq(&self, other: &SearchOptions) -> (r: bool) {
        self.query == other.query && self.docset == other.docset && self.flags == other.flags
    }
}

impl Eq for SearchOptions {

}

impl vstd::std_specs::cmp::PartialEqSpecImpl for SearchOptions {
    open spec fn obeys_eq_spec() -> bool {
        true
    }

    open spec fn eq_spec(&self, other: &SearchOptions) -> bool {
        self@ == other@
    }
}

/// The results of one search, as the cache keeps them.
#[derive(Clone, Debug, PartialEq, Eq)]
pub struct SearchCache {
    pub exact_results: Vec<ExactResult>,
    pub vague_results: Vec<VagueResult>,
}

/// What a list of exact results holds, one for one.
pub open spec fn exact_views(v: Seq<ExactResult>) -> Seq<ExactView> {
    v.map_values(|e: ExactResult| e@)
}

/// What a list of vague results holds, one for one.
pub open spec fn vague_views(v: Seq<VagueResult>) -> Seq<VagueView> {
    v.map_values(|e: VagueResult| e@)
}

/// What a `SearchCache` holds.
pub ghost struct CacheView {
    pub exact_results: Seq<ExactView>,
    pub vague_results: Seq<VagueView>,
}

impl View for SearchCache {
    type V = CacheView;

    open spec fn view(&self) -> CacheView {
        CacheView {
            exact_results: exact_views(self.exact_results@),
            vague_results: vague_views(self.vague_results@),
        }
    }
}

/// A copy of a list of strings.
pub fn copy_strings(v: &Vec<String>) -> (r: Vec<String>)
    ensures
        string_views(r@) == string_views(v@),
{
    let mut r: Vec<String> = Vec::new();
    let n: usize = v.len();
    let mut i: usize = 0;
    while i < n
        invariant
            n == v@.len(),
            i <= n,
            r@.len() == i,
            forall|k: int| 0 <= k < i ==> r@[k]@ == v@[k]@,
        decreases n - i,
    {
        r.push(v[i].clone());
        i += 1;
    }
    assert(string_views(r@) =~= string_views(v@));
    r
}

impl ExactResult {
    /// A copy of the result.
    pub fn duplicate(&self) -> (r: ExactResult)
        ensures
            r@ == self@,
    {
        ExactResult {
            item: self.item.clone(),
            fragment: match &self.fragment {
                Some(f) => Some(f.clone()),
                None => None,
            },
        }
    }
}

impl VagueResult {
    /// A copy of the result.
    pub fn duplicate(&self) -> (r: VagueResult)
        ensures
            r@ == self@,
    {
        VagueResult { item: self.item.clone(), contexts: copy_strings(&self.contexts) }
    }
}

impl SearchOptions {
    /// A copy of the options.
    pub fn duplicate(&self) -> (r: SearchOptions)
        ensures
            r@ == self@,
    {
        SearchOptions { query: self.query.clone(), docset: self.docset.clone(), flags: self.flags }
    }
}

impl SearchCache {
    /// A copy of the results.
    pub fn duplicate(&self) -> (r: SearchCache)
        ensures
            r@ == self@,
    {
        let mut exact: Vec<ExactResult> = Vec::new();
        let n: usize = self.exact_results.len();
        let mut i: usize = 0;
        while i < n
            invariant
                n == self.exact_results@.len(),
                i <= n,
                exact@.len() == i,
                forall|k: int| 0 <= k < i ==> exact@[k]@ == self.exact_results@[k]@,
            decreases n - i,
        {
            exact.push(self.exact_results[i].duplicate());
            i += 1;
        }
        let mut vague: Vec<VagueResult> = Vec::new();
        let m: usize = self.vague_results.len();
        let mut j: usize = 0;
        while j < m
            invariant
                m == self.vague_results@.len(),
                j <= m,
                vague@.len() == j,
                forall|k: int| 0 <= k < j ==> vague@[k]@ == self.vague_results@[k]@,
            decreases m - j,
        {
            vague.push(self.vague_results[j].duplicate());
            j += 1;
        }
        let r = SearchCache { exact_results: exact, vague_results: vague };
        assert(r@.exact_results =~= self@.exact_results);
        assert(r@.vague_results =~= self@.vague_results);
        r
    }
}

/// One entry of a docset's index of names.
#[derive(Clone, Debug, PartialEq, Eq)]
pub struct IndexEntry {
    /// The name under which the entry is shown.
    pub name: String,
    /// The path of the page, with its anchor where it has one.
    pub path: String,
}

/// What an `IndexEntry` holds.
pub ghost struct IndexEntryView {
    pub name: Seq<char>,
    pub path: Seq<char>,
}

impl View for IndexEntry {
    type V = IndexEntryView;

    open spec fn view(&self) -> IndexEntryView {
        IndexEntryView { name: self.name@, path: self.path@ }
    }
}

/// What a list of entries holds, one for one.
pub open spec fn index_views(v: Seq<IndexEntry>) -> Seq<IndexEntryView> {
    v.map_values(|e: IndexEntry| e@)
}

} // verus!
