//! A docset as a tree of files and directories, and the walk through it.
//!
//! A walk asks for one directory or one file at a time, and goes by what it is
//! told. Here it is told what a tree holds: the entries of each directory that
//! it asks for, and the lines of each file. Such a walk ends, and it ends with
//! the results that a search finds in the files of the tree: it passes over no
//! page, and finds none twice.

use vstd::prelude::*;
use vstd::seq_lib::*;
use vstd::multiset::Multiset;
use crate::content::{
    exact_found, file_outcome, is_page, name_matches, outcome_at, page_contexts, page_item,
    vague_found, FileView, FoundView,
};
use crate::model::{ExactView, VagueView};
use crate::order::{
    exact_in_order, lemma_empty_to_multiset, lemma_exact_in_order, lemma_sorted_exact_is_unique,
    lemma_sorted_vague_is_unique, lemma_vague_in_order, vague_in_order,
};
use crate::strings::fold_case;
use crate::walk::{
    advanced, joined, walk_fits, walk_next, walk_started, AwaitingView, EntryView,
    WalkActionView, WalkEventView, WalkView,
};

verus! {

/// A file or a directory of a docset.
pub ghost enum Node {
    /// A file, with its name and its lines.
    File { name: Seq<char>, lines: Seq<Seq<char>> },
    /// A directory, with its name and what it holds.
    Directory { name: Seq<char>, entries: Seq<Node> },
}

/// The entry by which a directory lists a node.
pub open spec fn entry_of(node: Node) -> EntryView {
    match node {
        Node::File { name, .. } => EntryView { name, is_dir: false },
        Node::Directory { name, .. } => EntryView { name, is_dir: true },
    }
}

/// The entries by which a directory lists the nodes that it holds.
pub open spec fn listing(nodes: Seq<Node>) -> Seq<EntryView> {
    Seq::new(nodes.len(), |i: int| entry_of(nodes[i]))
}

/// The files at and below a node that stands in the directory at `directory`,
/// each with its path below the root.
pub open spec fn files_of(node: Node, directory: Seq<char>) -> Seq<FileView>
    decreases node,
{
    match node {
        Node::File { name, lines } => seq![
            FileView { name, path: joined(directory, name), lines },
        ],
        Node::Directory { name, entries } => files_in(entries, joined(directory, name)),
    }
}

/// The files at and below the nodes that stand in the directory at
/// `directory`.
pub open spec fn files_in(nodes: Seq<Node>, directory: Seq<char>) -> Seq<FileView>
    decreases nodes,
{
    if nodes.len() == 0 {
        Seq::empty()
    } else {
        files_in(nodes.drop_last(), directory) + files_of(nodes.last(), directory)
    }
}

/// How much of a walk a node accounts for: one step for a file, two steps for
/// a directory and the steps for what it holds.
pub open spec fn size(node: Node) -> nat
    decreases node,
{
    match node {
        Node::File { .. } => 1,
        Node::Directory { entries, .. } => 2 + sizes(entries),
    }
}

/// How much of a walk the nodes account for.
pub open spec fn sizes(nodes: Seq<Node>) -> nat
    decreases nodes,
{
    if nodes.len() == 0 {
        0
    } else {
        sizes(nodes.drop_last()) + size(nodes.last())
    }
}

/// A directory that a walk is yet to list: its path below the root, and what
/// it holds.
pub ghost struct Shelf {
    pub path: Seq<char>,
    pub nodes: Seq<Node>,
}

/// What a walk through a tree has asked for.
pub ghost enum Asked {
    /// The entries of the directory that the walk is in.
    Entries,
    /// The lines of the file `name` at `path`.
    Lines { name: Seq<char>, path: Seq<char>, lines: Seq<Seq<char>> },
    /// Nothing: the walk is over.
    Nothing,
}

/// How far a walk through a tree has come.
pub ghost struct Tour {
    /// What the walk has asked for.
    pub asked: Asked,
    /// The path of the directory that the walk is in.
    pub directory: Seq<char>,
    /// The nodes of that directory that the walk is yet to visit; the last is
    /// visited next.
    pub here: Seq<Node>,
    /// The directories that the walk is yet to list; the last is listed next.
    pub stack: Seq<Shelf>,
}

/// How a walk through a tree starts: in the root, whose entries it asks for.
pub open spec fn tour_started(root: Seq<Node>) -> Tour {
    Tour { asked: Asked::Entries, directory: Seq::empty(), here: root, stack: Seq::empty() }
}

/// What the tree answers to what the walk has asked for.
pub open spec fn answer(tour: Tour) -> WalkEventView {
    match tour.asked {
        Asked::Lines { lines, .. } => WalkEventView::Lines(lines),
        _ => WalkEventView::Entries(listing(tour.here)),
    }
}

/// What the walk asks for, as the tour has it.
pub open spec fn asked_for(tour: Tour) -> WalkActionView {
    match tour.asked {
        Asked::Entries => WalkActionView::ReadDir { path: tour.directory },
        Asked::Lines { path, .. } => WalkActionView::ReadFile { path },
        Asked::Nothing => WalkActionView::Done,
    }
}

/// How far the walk has come when it next asks for something.
///
/// It visits the nodes of its directory, the last first: a directory is
/// shelved, a file that is no page or whose name matches the query is done
/// with, and the lines of any other page are asked for. Once the nodes are
/// used up, the entries of the directory that was shelved last are asked for;
/// where none is shelved, the walk is over.
pub open spec fn settled(
    tour: Tour,
    extension: Seq<char>,
    folded_query: Seq<char>,
    case_insensitive: bool,
) -> Tour
    decreases tour.here.len(),
{
    if tour.here.len() == 0 {
        if tour.stack.len() == 0 {
            Tour { asked: Asked::Nothing, ..tour }
        } else {
            Tour {
                asked: Asked::Entries,
                directory: tour.stack.last().path,
                here: tour.stack.last().nodes,
                stack: tour.stack.drop_last(),
            }
        }
    } else {
        let rest = Tour { here: tour.here.drop_last(), ..tour };
        match tour.here.last() {
            Node::Directory { name, entries } => settled(
                Tour {
                    stack: tour.stack.push(
                        Shelf { path: joined(tour.directory, name), nodes: entries },
                    ),
                    ..rest
                },
                extension,
                folded_query,
                case_insensitive,
            ),
            Node::File { name, lines } => if is_page(name, extension) && !name_matches(
                name,
                folded_query,
                case_insensitive,
            ) {
                Tour {
                    asked: Asked::Lines { name, path: joined(tour.directory, name), lines },
                    ..rest
                }
            } else {
                settled(rest, extension, folded_query, case_insensitive)
            },
        }
    }
}

/// How much of a walk the shelved directories account for.
pub open spec fn shelved(stack: Seq<Shelf>) -> nat
    decreases stack.len(),
{
    if stack.len() == 0 {
        0
    } else {
        shelved(stack.drop_last()) + 1 + sizes(stack.last().nodes)
    }
}

/// How many steps a walk has before it, at most.
pub open spec fn steps_left(tour: Tour) -> nat {
    sizes(tour.here) + shelved(tour.stack) + if tour.asked is Nothing {
        0nat
    } else {
        1nat
    }
}

/// With each answer, a walk has fewer steps before it.
pub proof fn lemma_settled_is_closer(
    tour: Tour,
    extension: Seq<char>,
    folded_query: Seq<char>,
    case_insensitive: bool,
)
    ensures
        steps_left(settled(tour, extension, folded_query, case_insensitive)) <= sizes(tour.here)
            + shelved(tour.stack),
    decreases tour.here.len(),
{
    if tour.here.len() > 0 {
        let rest = Tour { here: tour.here.drop_last(), ..tour };
        assert(sizes(tour.here) == sizes(tour.here.drop_last()) + size(tour.here.last()));
        match tour.here.last() {
            Node::Directory { name, entries } => {
                let shelf = Shelf { path: joined(tour.directory, name), nodes: entries };
                assert(tour.stack.push(shelf).drop_last() =~= tour.stack);
                assert(shelved(tour.stack.push(shelf)) == shelved(tour.stack) + 1 + sizes(entries));
                lemma_settled_is_closer(
                    Tour { stack: tour.stack.push(shelf), ..rest },
                    extension,
                    folded_query,
                    case_insensitive,
                );
            },
            Node::File { name, lines } => {
                if !(is_page(name, extension) && !name_matches(
                    name,
                    folded_query,
                    case_insensitive,
                )) {
                    lemma_settled_is_closer(rest, extension, folded_query, case_insensitive);
                }
            },
        }
    } else if tour.stack.len() > 0 {
        assert(sizes(tour.here) == 0);
        assert(shelved(tour.stack) == shelved(tour.stack.drop_last()) + 1 + sizes(
            tour.stack.last().nodes,
        ));
    } else {
        assert(sizes(tour.here) == 0);
    }
}

/// The walk at its end, when it is told what the tree holds.
pub open spec fn toured(walk: WalkView, tour: Tour) -> WalkView
    decreases steps_left(tour),
{
    if tour.asked is Nothing {
        walk
    } else {
        proof {
            lemma_settled_is_closer(tour, walk.extension, walk.query, walk.case_insensitive);
        }
        toured(
            walk_next(walk, answer(tour)).0,
            settled(tour, walk.extension, walk.query, walk.case_insensitive),
        )
    }
}

/// The exact results that a search finds in `files`, each as often as it is
/// found.
pub open spec fn exact_among(
    files: Seq<FileView>,
    extension: Seq<char>,
    query: Seq<char>,
    case_insensitive: bool,
) -> Multiset<ExactView> {
    exact_found(files, extension, query, case_insensitive, files.len() as int).to_multiset()
}

/// The vague results that a search finds in `files`, each as often as it is
/// found.
pub open spec fn vague_among(
    files: Seq<FileView>,
    extension: Seq<char>,
    query: Seq<char>,
    case_insensitive: bool,
) -> Multiset<VagueView> {
    vague_found(files, extension, query, case_insensitive, files.len() as int).to_multiset()
}

/// What is found in the first files of a list does not depend on the files
/// that follow.
proof fn lemma_found_in_head(
    a: Seq<FileView>,
    b: Seq<FileView>,
    extension: Seq<char>,
    query: Seq<char>,
    case_insensitive: bool,
    upto: int,
)
    requires
        0 <= upto <= a.len(),
    ensures
        exact_found(a + b, extension, query, case_insensitive, upto) == exact_found(
            a,
            extension,
            query,
            case_insensitive,
            upto,
        ),
        vague_found(a + b, extension, query, case_insensitive, upto) == vague_found(
            a,
            extension,
            query,
            case_insensitive,
            upto,
        ),
    decreases upto,
{
    if upto > 0 {
        lemma_found_in_head(a, b, extension, query, case_insensitive, upto - 1);
        assert((a + b)[upto - 1] == a[upto - 1]);
    }
}

/// What is found in two lists of files put together is what is found in the
/// one and then what is found in the other.
proof fn lemma_found_in_two(
    a: Seq<FileView>,
    b: Seq<FileView>,
    extension: Seq<char>,
    query: Seq<char>,
    case_insensitive: bool,
    upto: int,
)
    requires
        0 <= upto <= b.len(),
    ensures
        exact_found(a + b, extension, query, case_insensitive, a.len() + upto) == exact_found(
            a,
            extension,
            query,
            case_insensitive,
            a.len() as int,
        ) + exact_found(b, extension, query, case_insensitive, upto),
        vague_found(a + b, extension, query, case_insensitive, a.len() + upto) == vague_found(
            a,
            extension,
            query,
            case_insensitive,
            a.len() as int,
        ) + vague_found(b, extension, query, case_insensitive, upto),
    decreases upto,
{
    let exact = exact_found(a, extension, query, case_insensitive, a.len() as int);
    let vague = vague_found(a, extension, query, case_insensitive, a.len() as int);
    if upto == 0 {
        lemma_found_in_head(a, b, extension, query, case_insensitive, a.len() as int);
        assert(exact + Seq::<ExactView>::empty() =~= exact);
        assert(vague + Seq::<VagueView>::empty() =~= vague);
    } else {
        lemma_found_in_two(a, b, extension, query, case_insensitive, upto - 1);
        assert((a + b)[a.len() + upto - 1] == b[upto - 1]);
        let exact_before = exact_found(b, extension, query, case_insensitive, upto - 1);
        let vague_before = vague_found(b, extension, query, case_insensitive, upto - 1);
        match outcome_at(b, extension, query, case_insensitive, upto - 1) {
            FoundView::Exact(e) => {
                assert((exact + exact_before).push(e) =~= exact + exact_before.push(e));
            },
            FoundView::Vague(v) => {
                assert((vague + vague_before).push(v) =~= vague + vague_before.push(v));
            },
            FoundView::Nothing => {},
        }
    }
}

/// What is found among two lists of files put together is what is found among
/// the one and among the other.
pub proof fn lemma_among_two(
    a: Seq<FileView>,
    b: Seq<FileView>,
    extension: Seq<char>,
    query: Seq<char>,
    case_insensitive: bool,
)
    ensures
        exact_among(a + b, extension, query, case_insensitive) == exact_among(
            a,
            extension,
            query,
            case_insensitive,
        ).add(exact_among(b, extension, query, case_insensitive)),
        vague_among(a + b, extension, query, case_insensitive) == vague_among(
            a,
            extension,
            query,
            case_insensitive,
        ).add(vague_among(b, extension, query, case_insensitive)),
{
    lemma_found_in_two(a, b, extension, query, case_insensitive, b.len() as int);
    lemma_multiset_commutative(
        exact_found(a, extension, query, case_insensitive, a.len() as int),
        exact_found(b, extension, query, case_insensitive, b.len() as int),
    );
    lemma_multiset_commutative(
        vague_found(a, extension, query, case_insensitive, a.len() as int),
        vague_found(b, extension, query, case_insensitive, b.len() as int),
    );
}

/// What is found in one file is found among the list that holds this file
/// alone.
pub proof fn lemma_among_one(
    file: FileView,
    extension: Seq<char>,
    query: Seq<char>,
    case_insensitive: bool,
)
    ensures
        exact_among(seq![file], extension, query, case_insensitive) == match file_outcome(
            file.name,
            file.path,
            file.lines,
            extension,
            fold_case(query, case_insensitive),
            case_insensitive,
        ) {
            FoundView::Exact(e) => Multiset::empty().insert(e),
            _ => Multiset::empty(),
        },
        vague_among(seq![file], extension, query, case_insensitive) == match file_outcome(
            file.name,
            file.path,
            file.lines,
            extension,
            fold_case(query, case_insensitive),
            case_insensitive,
        ) {
            FoundView::Vague(v) => Multiset::empty().insert(v),
            _ => Multiset::empty(),
        },
{
    let files = seq![file];
    let none = Seq::<ExactView>::empty();
    let nothing = Seq::<VagueView>::empty();
    assert(exact_found(files, extension, query, case_insensitive, 0) == none);
    assert(vague_found(files, extension, query, case_insensitive, 0) == nothing);
    lemma_empty_to_multiset(none);
    lemma_empty_to_multiset(nothing);
    assert(outcome_at(files, extension, query, case_insensitive, 0) == file_outcome(
        file.name,
        file.path,
        file.lines,
        extension,
        fold_case(query, case_insensitive),
        case_insensitive,
    ));
    match outcome_at(files, extension, query, case_insensitive, 0) {
        FoundView::Exact(e) => {
            to_multiset_build(none, e);
        },
        FoundView::Vague(v) => {
            to_multiset_build(nothing, v);
        },
        FoundView::Nothing => {},
    }
}

/// The paths of the shelved directories.
pub open spec fn shelf_paths(stack: Seq<Shelf>) -> Seq<Seq<char>> {
    Seq::new(stack.len(), |i: int| stack[i].path)
}

/// The files at and below the shelved directories.
pub open spec fn shelf_files(stack: Seq<Shelf>) -> Seq<FileView>
    decreases stack.len(),
{
    if stack.len() == 0 {
        Seq::empty()
    } else {
        shelf_files(stack.drop_last()) + files_in(stack.last().nodes, stack.last().path)
    }
}

/// The files that a walk has before it: the file that it has asked for, the
/// files at and below the nodes that it is yet to visit, and those of the
/// shelved directories.
pub open spec fn files_left(tour: Tour) -> Seq<FileView> {
    (match tour.asked {
        Asked::Lines { name, path, lines } => seq![FileView { name, path, lines }],
        _ => Seq::empty(),
    }) + files_in(tour.here, tour.directory) + shelf_files(tour.stack)
}

/// Whether a walk is where the tour has it: it waits for what the tour says
/// that it has asked for, and has the same directories before it.
pub open spec fn on_course(walk: WalkView, tour: Tour) -> bool {
    &&& walk.pending == shelf_paths(tour.stack)
    &&& match tour.asked {
        Asked::Entries => walk.awaiting == AwaitingView::Entries(tour.directory),
        Asked::Lines { name, path, .. } => {
            &&& walk.awaiting == AwaitingView::Lines(path)
            &&& walk.directory == tour.directory
            &&& walk.entries == listing(tour.here)
            &&& is_page(name, walk.extension)
            &&& !name_matches(name, walk.query, walk.case_insensitive)
        },
        Asked::Nothing => {
            &&& walk.awaiting is Nothing
            &&& tour.here.len() == 0
            &&& tour.stack.len() == 0
        },
    }
}

/// Whether two walks search for the same.
pub open spec fn same_search(a: WalkView, b: WalkView) -> bool {
    &&& a.extension == b.extension
    &&& a.query == b.query
    &&& a.case_insensitive == b.case_insensitive
}

/// What a walk has found and has before it: the exact results that it has,
/// and those that a search finds among `files`.
pub open spec fn exact_account(
    walk: WalkView,
    files: Seq<FileView>,
    query: Seq<char>,
) -> Multiset<ExactView> {
    walk.exact.to_multiset().add(
        exact_among(files, walk.extension, query, walk.case_insensitive),
    )
}

/// What a walk has found and has before it: the vague results that it has,
/// and those that a search finds among `files`.
pub open spec fn vague_account(
    walk: WalkView,
    files: Seq<FileView>,
    query: Seq<char>,
) -> Multiset<VagueView> {
    walk.vague.to_multiset().add(
        vague_among(files, walk.extension, query, walk.case_insensitive),
    )
}

/// What is found among three lists of files put together does not depend on
/// the order in which they are put together.
proof fn lemma_among_three(
    a: Seq<FileView>,
    b: Seq<FileView>,
    c: Seq<FileView>,
    extension: Seq<char>,
    query: Seq<char>,
    case_insensitive: bool,
)
    ensures
        exact_among(a + b + c, extension, query, case_insensitive) == exact_among(
            b + a + c,
            extension,
            query,
            case_insensitive,
        ),
        exact_among(a + b + c, extension, query, case_insensitive) == exact_among(
            a + (c + b),
            extension,
            query,
            case_insensitive,
        ),
        exact_among(a + b + c, extension, query, case_insensitive) == exact_among(
            b,
            extension,
            query,
            case_insensitive,
        ).add(exact_among(a + c, extension, query, case_insensitive)),
        vague_among(a + b + c, extension, query, case_insensitive) == vague_among(
            b + a + c,
            extension,
            query,
            case_insensitive,
        ),
        vague_among(a + b + c, extension, query, case_insensitive) == vague_among(
            a + (c + b),
            extension,
            query,
            case_insensitive,
        ),
        vague_among(a + b + c, extension, query, case_insensitive) == vague_among(
            b,
            extension,
            query,
            case_insensitive,
        ).add(vague_among(a + c, extension, query, case_insensitive)),
{
    lemma_among_two(a + b, c, extension, query, case_insensitive);
    lemma_among_two(a, b, extension, query, case_insensitive);
    lemma_among_two(b + a, c, extension, query, case_insensitive);
    lemma_among_two(b, a, extension, query, case_insensitive);
    lemma_among_two(a, c + b, extension, query, case_insensitive);
    lemma_among_two(c, b, extension, query, case_insensitive);
    lemma_among_two(a, c, extension, query, case_insensitive);
    let ea = exact_among(a, extension, query, case_insensitive);
    let eb = exact_among(b, extension, query, case_insensitive);
    let ec = exact_among(c, extension, query, case_insensitive);
    assert(ea.add(eb).add(ec) =~= eb.add(ea).add(ec));
    assert(ea.add(eb).add(ec) =~= ea.add(ec.add(eb)));
    assert(ea.add(eb).add(ec) =~= eb.add(ea.add(ec)));
    let va = vague_among(a, extension, query, case_insensitive);
    let vb = vague_among(b, extension, query, case_insensitive);
    let vc = vague_among(c, extension, query, case_insensitive);
    assert(va.add(vb).add(vc) =~= vb.add(va).add(vc));
    assert(va.add(vb).add(vc) =~= va.add(vc.add(vb)));
    assert(va.add(vb).add(vc) =~= vb.add(va.add(vc)));
}

/// A walk that lists the directory that was shelved last has the same files
/// before it as it had.
proof fn lemma_listing_keeps_account(walk: WalkView, tour: Tour, query: Seq<char>)
    requires
        tour.here.len() == 0,
        tour.stack.len() > 0,
    ensures
        ({
            let then = settled(tour, walk.extension, walk.query, walk.case_insensitive);
            let before = files_in(tour.here, tour.directory) + shelf_files(tour.stack);
            &&& exact_among(files_left(then), walk.extension, query, walk.case_insensitive)
                == exact_among(before, walk.extension, query, walk.case_insensitive)
            &&& vague_among(files_left(then), walk.extension, query, walk.case_insensitive)
                == vague_among(before, walk.extension, query, walk.case_insensitive)
        }),
{
    let then = settled(tour, walk.extension, walk.query, walk.case_insensitive);
    let none = Seq::<FileView>::empty();
    let top = tour.stack.last();
    let below = shelf_files(tour.stack.drop_last());
    let held = files_in(top.nodes, top.path);
    assert(files_in(tour.here, tour.directory) == none);
    assert(files_left(then) =~= none + held + below);
    assert(none + shelf_files(tour.stack) =~= none + (below + held));
    lemma_among_three(none, held, below, walk.extension, query, walk.case_insensitive);
}

/// A walk that shelves a directory has the same files before it as it had.
proof fn lemma_shelving_keeps_account(
    here: Seq<Node>,
    directory: Seq<char>,
    stack: Seq<Shelf>,
    extension: Seq<char>,
    query: Seq<char>,
    case_insensitive: bool,
)
    requires
        here.len() > 0,
        here.last() is Directory,
    ensures
        ({
            let shelf = Shelf {
                path: joined(directory, here.last()->Directory_name),
                nodes: here.last()->entries,
            };
            let before = files_in(here, directory) + shelf_files(stack);
            let after = files_in(here.drop_last(), directory) + shelf_files(stack.push(shelf));
            &&& exact_among(after, extension, query, case_insensitive) == exact_among(
                before,
                extension,
                query,
                case_insensitive,
            )
            &&& vague_among(after, extension, query, case_insensitive) == vague_among(
                before,
                extension,
                query,
                case_insensitive,
            )
        }),
{
    let path = joined(directory, here.last()->Directory_name);
    let shelf = Shelf { path, nodes: here.last()->entries };
    let earlier = files_in(here.drop_last(), directory);
    let held = files_in(shelf.nodes, path);
    let shelves = shelf_files(stack);
    assert(stack.push(shelf).drop_last() =~= stack);
    assert(shelf_files(stack.push(shelf)) == shelves + held);
    assert(files_of(here.last(), directory) == held);
    assert(files_in(here, directory) == earlier + held);
    lemma_among_three(earlier, held, shelves, extension, query, case_insensitive);
}

/// What a walk has before it in the last file of its directory is what a
/// search finds in that file.
proof fn lemma_file_is_accounted(
    here: Seq<Node>,
    directory: Seq<char>,
    stack: Seq<Shelf>,
    extension: Seq<char>,
    query: Seq<char>,
    case_insensitive: bool,
)
    requires
        here.len() > 0,
        here.last() is File,
    ensures
        ({
            let file = FileView {
                name: here.last()->File_name,
                path: joined(directory, here.last()->File_name),
                lines: here.last()->lines,
            };
            let before = files_in(here, directory) + shelf_files(stack);
            let after = files_in(here.drop_last(), directory) + shelf_files(stack);
            &&& exact_among(before, extension, query, case_insensitive) == exact_among(
                seq![file],
                extension,
                query,
                case_insensitive,
            ).add(exact_among(after, extension, query, case_insensitive))
            &&& vague_among(before, extension, query, case_insensitive) == vague_among(
                seq![file],
                extension,
                query,
                case_insensitive,
            ).add(vague_among(after, extension, query, case_insensitive))
            &&& exact_among(seq![file] + after, extension, query, case_insensitive) == exact_among(
                before,
                extension,
                query,
                case_insensitive,
            )
            &&& vague_among(seq![file] + after, extension, query, case_insensitive) == vague_among(
                before,
                extension,
                query,
                case_insensitive,
            )
        }),
{
    let file = FileView {
        name: here.last()->File_name,
        path: joined(directory, here.last()->File_name),
        lines: here.last()->lines,
    };
    let one = seq![file];
    let earlier = files_in(here.drop_last(), directory);
    let shelves = shelf_files(stack);
    assert(files_of(here.last(), directory) == one);
    assert(files_in(here, directory) == earlier + one);
    assert(one + (earlier + shelves) =~= one + earlier + shelves);
    lemma_among_three(earlier, one, shelves, extension, query, case_insensitive);
}

/// A walk that goes on through the nodes of its directory comes to where the
/// tour has it, and what it has found and has before it stays the same.
proof fn lemma_advanced_keeps_course(walk: WalkView, tour: Tour, query: Seq<char>)
    requires
        walk.entries == listing(tour.here),
        walk.directory == tour.directory,
        walk.pending == shelf_paths(tour.stack),
        walk.query == fold_case(query, walk.case_insensitive),
    ensures
        ({
            let (after, asked) = advanced(walk);
            let then = settled(tour, walk.extension, walk.query, walk.case_insensitive);
            let before = files_in(tour.here, tour.directory) + shelf_files(tour.stack);
            &&& on_course(after, then)
            &&& asked == asked_for(then)
            &&& same_search(after, walk)
            &&& exact_account(after, files_left(then), query) == exact_account(walk, before, query)
            &&& vague_account(after, files_left(then), query) == vague_account(walk, before, query)
        }),
    decreases tour.here.len(),
{
    let extension = walk.extension;
    let ci = walk.case_insensitive;
    let then = settled(tour, extension, walk.query, ci);
    if tour.here.len() == 0 {
        if tour.stack.len() == 0 {
            assert(files_left(then) =~= files_in(tour.here, tour.directory) + shelf_files(
                tour.stack,
            ));
        } else {
            assert(walk.pending.last() == tour.stack.last().path);
            assert(walk.pending.drop_last() =~= shelf_paths(tour.stack.drop_last()));
            lemma_listing_keeps_account(walk, tour, query);
        }
    } else {
        let node = tour.here.last();
        let others = tour.here.drop_last();
        let rest_walk = WalkView { entries: walk.entries.drop_last(), ..walk };
        let rest_tour = Tour { here: others, ..tour };
        assert(walk.entries.last() == entry_of(node));
        assert(rest_walk.entries =~= listing(others));
        match node {
            Node::Directory { name, entries } => {
                let path = joined(tour.directory, name);
                let shelf = Shelf { path, nodes: entries };
                let next_walk = WalkView { pending: rest_walk.pending.push(path), ..rest_walk };
                let next_tour = Tour { stack: tour.stack.push(shelf), ..rest_tour };
                assert(next_walk.pending =~= shelf_paths(next_tour.stack));
                lemma_advanced_keeps_course(next_walk, next_tour, query);
                lemma_shelving_keeps_account(
                    tour.here,
                    tour.directory,
                    tour.stack,
                    extension,
                    query,
                    ci,
                );
            },
            Node::File { name, lines } => {
                let path = joined(tour.directory, name);
                let file = FileView { name, path, lines };
                lemma_among_one(file, extension, query, ci);
                lemma_file_is_accounted(
                    tour.here,
                    tour.directory,
                    tour.stack,
                    extension,
                    query,
                    ci,
                );
                if !is_page(name, extension) {
                    lemma_advanced_keeps_course(rest_walk, rest_tour, query);
                } else if name_matches(name, walk.query, ci) {
                    let found = ExactView { item: page_item(path, extension), fragment: None };
                    let next_walk = WalkView { exact: rest_walk.exact.push(found), ..rest_walk };
                    lemma_advanced_keeps_course(next_walk, rest_tour, query);
                    to_multiset_build(walk.exact, found);
                    let after_files = files_in(others, tour.directory) + shelf_files(tour.stack);
                    assert(exact_account(next_walk, after_files, query) =~= exact_account(
                        walk,
                        files_in(tour.here, tour.directory) + shelf_files(tour.stack),
                        query,
                    ));
                } else {
                    assert(files_left(then) =~= seq![file] + (files_in(others, tour.directory)
                        + shelf_files(tour.stack)));
                }
            },
        }
    }
}

/// A walk that is where the tour has it, and is told what the tree holds,
/// comes to where the tour has it next.
///
/// The answer is one that the walk waits for. The walk then asks for the
/// directory or the file that comes next in the tour, by its path. What it has
/// found, together with what a search finds in the files that it has before
/// it, stays the same. It has fewer steps before it.
pub proof fn lemma_answer_keeps_course(walk: WalkView, tour: Tour, query: Seq<char>)
    requires
        on_course(walk, tour),
        !(tour.asked is Nothing),
        walk.query == fold_case(query, walk.case_insensitive),
    ensures
        ({
            let (after, asked) = walk_next(walk, answer(tour));
            let then = settled(tour, walk.extension, walk.query, walk.case_insensitive);
            &&& walk_fits(walk.awaiting, answer(tour))
            &&& on_course(after, then)
            &&& asked == asked_for(then)
            &&& same_search(after, walk)
            &&& exact_account(after, files_left(then), query) == exact_account(
                walk,
                files_left(tour),
                query,
            )
            &&& vague_account(after, files_left(then), query) == vague_account(
                walk,
                files_left(tour),
                query,
            )
            &&& steps_left(then) < steps_left(tour)
        }),
{
    let extension = walk.extension;
    let ci = walk.case_insensitive;
    let before = files_in(tour.here, tour.directory) + shelf_files(tour.stack);
    lemma_settled_is_closer(tour, extension, walk.query, ci);
    match tour.asked {
        Asked::Lines { name, path, lines } => {
            let file = FileView { name, path, lines };
            let contexts = page_contexts(lines, walk.query, ci);
            let found = VagueView { item: page_item(path, extension), contexts };
            let told = if contexts.len() > 0 {
                WalkView { vague: walk.vague.push(found), ..walk }
            } else {
                walk
            };
            lemma_advanced_keeps_course(told, tour, query);
            lemma_among_one(file, extension, query, ci);
            lemma_among_two(seq![file], before, extension, query, ci);
            assert(files_left(tour) =~= seq![file] + before);
            to_multiset_build(walk.vague, found);
            assert(exact_account(told, before, query) =~= exact_account(
                walk,
                files_left(tour),
                query,
            ));
            assert(vague_account(told, before, query) =~= vague_account(
                walk,
                files_left(tour),
                query,
            ));
        },
        _ => {
            let told = WalkView { directory: tour.directory, entries: listing(tour.here), ..walk };
            lemma_advanced_keeps_course(told, tour, query);
            assert(files_left(tour) =~= before);
        },
    }
}

/// A walk through a tree ends, and ends with what it had found and what a
/// search finds in the files that it had before it.
pub proof fn lemma_toured(walk: WalkView, tour: Tour, query: Seq<char>)
    requires
        on_course(walk, tour),
        walk.query == fold_case(query, walk.case_insensitive),
    ensures
        toured(walk, tour).awaiting is Nothing,
        same_search(toured(walk, tour), walk),
        toured(walk, tour).exact.to_multiset() == exact_account(walk, files_left(tour), query),
        toured(walk, tour).vague.to_multiset() == vague_account(walk, files_left(tour), query),
    decreases steps_left(tour),
{
    if tour.asked is Nothing {
        let none = Seq::<FileView>::empty();
        assert(files_in(tour.here, tour.directory) == none);
        assert(shelf_files(tour.stack) == none);
        assert(files_left(tour) =~= none);
        lemma_empty_to_multiset(
            exact_found(none, walk.extension, query, walk.case_insensitive, 0),
        );
        lemma_empty_to_multiset(
            vague_found(none, walk.extension, query, walk.case_insensitive, 0),
        );
        assert(exact_account(walk, none, query) =~= walk.exact.to_multiset());
        assert(vague_account(walk, none, query) =~= walk.vague.to_multiset());
    } else {
        lemma_answer_keeps_course(walk, tour, query);
        lemma_toured(
            walk_next(walk, answer(tour)).0,
            settled(tour, walk.extension, walk.query, walk.case_insensitive),
            query,
        );
    }
}

/// A walk through a tree finds what a search finds in the files of the tree.
///
/// The walk starts by asking for the root, and is told at each step what the
/// tree holds. It ends, and the results that it ends with are, once they are
/// put in order, the results of a search in all the files at and below the
/// root: every page is found once, whatever the order in which the
/// directories list their entries.
pub proof fn lemma_walk_finds_what_the_files_hold(
    extension: Seq<char>,
    query: Seq<char>,
    case_insensitive: bool,
    root: Seq<Node>,
)
    ensures
        ({
            let (walk, asked) = walk_started(extension, query, case_insensitive);
            let end = toured(walk, tour_started(root));
            let files = files_in(root, Seq::empty());
            let n = files.len() as int;
            &&& asked == asked_for(tour_started(root))
            &&& end.awaiting is Nothing
            &&& end.exact.to_multiset() == exact_among(files, extension, query, case_insensitive)
            &&& end.vague.to_multiset() == vague_among(files, extension, query, case_insensitive)
            &&& exact_in_order(end.exact) == exact_in_order(
                exact_found(files, extension, query, case_insensitive, n),
            )
            &&& vague_in_order(end.vague) == vague_in_order(
                vague_found(files, extension, query, case_insensitive, n),
            )
        }),
{
    let (walk, asked) = walk_started(extension, query, case_insensitive);
    let tour = tour_started(root);
    let end = toured(walk, tour);
    let files = files_in(root, Seq::empty());
    let n = files.len() as int;
    assert(walk.pending =~= shelf_paths(tour.stack));
    assert(shelf_files(tour.stack) == Seq::<FileView>::empty());
    assert(files_left(tour) =~= files);
    lemma_toured(walk, tour, query);
    lemma_empty_to_multiset(walk.exact);
    lemma_empty_to_multiset(walk.vague);
    assert(exact_account(walk, files, query) =~= exact_among(
        files,
        extension,
        query,
        case_insensitive,
    ));
    assert(vague_account(walk, files, query) =~= vague_among(
        files,
        extension,
        query,
        case_insensitive,
    ));
    let exact = exact_found(files, extension, query, case_insensitive, n);
    let vague = vague_found(files, extension, query, case_insensitive, n);
    lemma_exact_in_order(end.exact);
    lemma_exact_in_order(exact);
    lemma_sorted_exact_is_unique(exact_in_order(end.exact), exact_in_order(exact));
    lemma_vague_in_order(end.vague);
    lemma_vague_in_order(vague);
    lemma_sorted_vague_is_unique(vague_in_order(end.vague), vague_in_order(vague));
}

} // verus!
