//! The index of names of a docset, and the errors that end a search.

use vstd::prelude::*;
use vstd::string::StringExecFns;
use crate::model::{index_views, IndexEntry, IndexEntryView};

verus! {

/// What was found where a docset keeps its index of names.
pub enum Manifest {
    /// There is no index.
    Absent,
    /// There is an index that cannot be read as one.
    Malformed { path: String, reason: String },
    /// The entries of the index, in their order.
    Entries(Vec<IndexEntry>),
}

/// What ends a search.
#[derive(Clone, Debug, PartialEq, Eq)]
pub enum SearchError {
    /// The docset has no index of names: it was made by an older version of the
    /// program, and has to be downloaded again.
    Incompatible { docset: String },
    /// A file does not hold what it should hold.
    Format { path: String, reason: String },
    /// A directory could not be read.
    Directory { path: String, reason: String },
    /// A file could not be read.
    File { path: String, reason: String },
    /// A page could not be shown.
    Page { reason: String },
    /// There are more results than can be numbered.
    TooManyResults,
}

/// What a `Manifest` holds.
pub ghost enum ManifestView {
    Absent,
    Malformed { path: Seq<char>, reason: Seq<char> },
    Entries(Seq<IndexEntryView>),
}

/// What a `SearchError` holds.
pub ghost enum ErrorView {
    Incompatible { docset: Seq<char> },
    Format { path: Seq<char>, reason: Seq<char> },
    Directory { path: Seq<char>, reason: Seq<char> },
    File { path: Seq<char>, reason: Seq<char> },
    Page { reason: Seq<char> },
    TooManyResults,
}

impl View for Manifest {
    type V = ManifestView;

    open spec fn view(&self) -> ManifestView {
        match self {
            Manifest::Absent => ManifestView::Absent,
            Manifest::Malformed { path, reason } => ManifestView::Malformed {
                path: path@,
                reason: reason@,
            },
            Manifest::Entries(entries) => ManifestView::Entries(index_views(entries@)),
        }
    }
}

impl View for SearchError {
    type V = ErrorView;

    open spec fn view(&self) -> ErrorView {
        match self {
            SearchError::Incompatible { docset } => ErrorView::Incompatible { docset: docset@ },
            SearchError::Format { path, reason } => ErrorView::Format {
                path: path@,
                reason: reason@,
            },
            SearchError::Directory { path, reason } => ErrorView::Directory {
                path: path@,
                reason: reason@,
            },
            SearchError::File { path, reason } => ErrorView::File { path: path@, reason: reason@ },
            SearchError::Page { reason } => ErrorView::Page { reason: reason@ },
            SearchError::TooManyResults => ErrorView::TooManyResults,
        }
    }
}

/// The text of an error. It names the docset or the path that the error is
/// about.
pub open spec fn error_text(e: ErrorView) -> Seq<char> {
    match e {
        ErrorView::Incompatible { docset } => "Index file does not exist for `"@ + docset
            + "`. Docsets that were downloaded prior to version `0.2.0` are incompatible. Please redownload the docset with `download "@
            + docset + " --force`."@,
        ErrorView::Format { path, reason } => "Could not deserialize `"@ + path + "`: "@ + reason,
        ErrorView::Directory { path, reason } => "Could not read `"@ + path + "` directory: "@
            + reason,
        ErrorView::File { path, reason } => "Could not open `"@ + path + "`: "@ + reason,
        ErrorView::Page { reason } => reason,
        ErrorView::TooManyResults => "Too many results."@,
    }
}

impl SearchError {
    /// The text that the error is shown as.
    pub fn message(&self) -> (r: String)
        ensures
            r@ == error_text(self@),
    {
        match self {
            SearchError::Incompatible { docset } => {
                let mut r = String::from_str("Index file does not exist for `");
                r.append(docset.as_str());
                r.append(
                    "`. Docsets that were downloaded prior to version `0.2.0` are incompatible. Please redownload the docset with `download ",
                );
                r.append(docset.as_str());
                r.append(" --force`.");
                r
            },
            SearchError::Format { path, reason } => {
                let mut r = String::from_str("Could not deserialize `");
                r.append(path.as_str());
                r.append("`: ");
                r.append(reason.as_str());
                r
            },
            SearchError::Directory { path, reason } => {
                let mut r = String::from_str("Could not read `");
                r.append(path.as_str());
                r.append("` directory: ");
                r.append(reason.as_str());
                r
            },
            SearchError::File { path, reason } => {
                let mut r = String::from_str("Could not open `");
                r.append(path.as_str());
                r.append("`: ");
                r.append(reason.as_str());
                r
            },
            SearchError::Page { reason } => reason.clone(),
            SearchError::TooManyResults => String::from_str("Too many results."),
        }
    }
}

/// The entries of a docset's index, or the error that there are none to be
/// had: a docset without an index is incompatible, an index that cannot be read
/// is malformed.
pub open spec fn loaded(docset: Seq<char>, manifest: ManifestView) -> Result<
    Seq<IndexEntryView>,
    ErrorView,
> {
    match manifest {
        ManifestView::Absent => Err(ErrorView::Incompatible { docset }),
        ManifestView::Malformed { path, reason } => Err(ErrorView::Format { path, reason }),
        ManifestView::Entries(entries) => Ok(entries),
    }
}

/// The entries of the index of the docset `docset`.
pub fn load_index(docset: &str, manifest: Manifest) -> (r: Result<Vec<IndexEntry>, SearchError>)
    ensures
        match r {
            Ok(entries) => loaded(docset@, manifest@) == Ok::<Seq<IndexEntryView>, ErrorView>(
                index_views(entries@),
            ),
            Err(e) => loaded(docset@, manifest@) == Err::<Seq<IndexEntryView>, ErrorView>(e@),
        },
{
    match manifest {
        Manifest::Absent => Err(SearchError::Incompatible { docset: docset.to_owned() }),
        Manifest::Malformed { path, reason } => Err(SearchError::Format { path, reason }),
        Manifest::Entries(entries) => Ok(entries),
    }
}

} // verus!
