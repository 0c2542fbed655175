//! The cache of the last search.
//!
//! The cache holds two records: the options of the search whose results it
//! keeps, and those results. The results are valid only for options equal to
//! the stored ones; whatever is absent, unreadable or made for other options is
//! a miss, never an error.

use vstd::prelude::*;
use crate::model::{CacheView, OptionsView, SearchCache, SearchFlags, SearchOptions};

verus! {

/// The two records of the cache as they were read. A record that is absent or
/// that could not be read is `None`.
pub struct CacheRecords {
    /// The options of the search that the cache was made for.
    pub options: Option<SearchOptions>,
    /// The results of that search.
    pub results: Option<SearchCache>,
}

/// What a `CacheRecords` holds.
pub ghost struct RecordsView {
    pub options: Option<OptionsView>,
    pub results: Option<CacheView>,
}

impl View for CacheRecords {
    type V = RecordsView;

    open spec fn view(&self) -> RecordsView {
        RecordsView {
            options: match self.options {
                Some(o) => Some(o@),
                None => None,
            },
            results: match self.results {
                Some(c) => Some(c@),
                None => None,
            },
        }
    }
}

/// Whether the cache was made for the options `probe`.
pub open spec fn made_for(probe: OptionsView, stored: Option<OptionsView>) -> bool {
    stored == Some(probe)
}

/// What a search with the options `probe` has from the cache: the stored
/// results where the cache was made for these options, else nothing.
pub open spec fn lookup(probe: OptionsView, records: RecordsView) -> Option<CacheView> {
    if made_for(probe, records.options) {
        records.results
    } else {
        None
    }
}

/// What the cache holds once the results of a search are stored.
pub open spec fn stored(options: OptionsView, results: CacheView) -> RecordsView {
    RecordsView { options: Some(options), results: Some(results) }
}

/// Whether the cache was made for the options `probe`. Only then are its
/// results worth reading.
pub fn is_cache_for(probe: &SearchOptions, stored: &Option<SearchOptions>) -> (r: bool)
    ensures
        r == made_for(
            probe@,
            match stored {
                Some(o) => Some(o@),
                None => None,
            },
        ),
{
    match stored {
        Some(o) => *o == *probe,
        None => false,
    }
}

/// The results that a search with the options `probe` takes from the cache.
pub fn try_use_cache(probe: &SearchOptions, records: CacheRecords) -> (r: Option<SearchCache>)
    ensures
        match r {
            Some(c) => lookup(probe@, records@) == Some(c@),
            None => lookup(probe@, records@) is None,
        },
{
    if is_cache_for(probe, &records.options) {
        records.results
    } else {
        None
    }
}

/// The records to write for the results of a search: first the options, then
/// the results. They replace whatever the cache held.
pub fn cache_search_results(options: &SearchOptions, results: &SearchCache) -> (r: CacheRecords)
    ensures
        r@ == stored(options@, results@),
{
    CacheRecords { options: Some(options.duplicate()), results: Some(results.duplicate()) }
}

/// A second search with the same options has from the cache what the first
/// search stored there.
pub proof fn lemma_second_search_is_served(options: OptionsView, results: CacheView)
    ensures
        lookup(options, stored(options, results)) == Some(results),
{
}

/// The four sets of flags that differ from `flags` in one flag.
pub open spec fn toggled(flags: SearchFlags, which: int) -> SearchFlags {
    if which == 0 {
        SearchFlags { case_insensitive: !flags.case_insensitive, ..flags }
    } else if which == 1 {
        SearchFlags { precise: !flags.precise, ..flags }
    } else if which == 2 {
        SearchFlags { whole: !flags.whole, ..flags }
    } else {
        SearchFlags { ignore_fragment: !flags.ignore_fragment, ..flags }
    }
}

/// A search that differs from the cached one in a single flag, with the same
/// query and docset, has nothing from the cache.
pub proof fn lemma_toggled_flag_misses(options: OptionsView, results: CacheView, which: int)
    ensures
        lookup(
            OptionsView { flags: toggled(options.flags, which), ..options },
            stored(options, results),
        ) is None,
{
}

/// A search has something from the cache only if the cache was made for
/// options equal to its own in query, docset and every flag.
pub proof fn lemma_hit_means_equal_options(probe: OptionsView, records: RecordsView)
    requires
        lookup(probe, records) is Some,
    ensures
        records.options == Some(probe),
{
}

} // verus!
