use dedoc::content::{search_docset_precisely, DocFile};
use dedoc::model::{ExactResult, VagueResult};
use dedoc::walk::{DirEntry, DocsetWalk, WalkAction, WalkEvent};

enum Node {
    File(&'static str, Vec<&'static str>),
    Directory(&'static str, Vec<Node>),
}

fn tree() -> Vec<Node> {
    vec![
        Node::File("intro.html", vec!["welcome\n", "see the map type\n"]),
        Node::File("notes.txt", vec!["a map that is no page\n"]),
        Node::Directory(
            "std",
            vec![
                Node::File("map.html", vec!["the name matches, the body is not read\n"]),
                Node::Directory(
                    "collections",
                    vec![
                        Node::File("hash_map.html", vec!["map map\n"]),
                        Node::File("set.html", vec!["no match\n", "  a map of sets  \n", "map\n"]),
                        Node::Directory("empty", vec![]),
                    ],
                ),
                Node::File("vec.html", vec!["nothing\n"]),
            ],
        ),
        Node::Directory("map.html", vec![Node::File("inner.html", vec!["Map\n"])]),
        Node::File("zebra.html", vec!["the last map\n"]),
    ]
}

fn join(directory: &str, name: &str) -> String {
    if directory.is_empty() {
        name.to_string()
    } else {
        format!("{directory}/{name}")
    }
}

fn files_below(nodes: &[Node], directory: &str, files: &mut Vec<DocFile>) {
    for node in nodes {
        match node {
            Node::File(name, lines) => files.push(DocFile {
                name: name.to_string(),
                path: join(directory, name),
                lines: lines.iter().map(|l| l.to_string()).collect(),
            }),
            Node::Directory(name, entries) => files_below(entries, &join(directory, name), files),
        }
    }
}

fn find<'a>(nodes: &'a [Node], path: &str) -> &'a Node {
    let (head, tail) = match path.split_once('/') {
        Some((head, tail)) => (head, Some(tail)),
        None => (path, None),
    };
    let node = nodes
        .iter()
        .find(|node| match node {
            Node::File(name, _) | Node::Directory(name, _) => *name == head,
        })
        .expect("the walk asks for what the tree holds");
    match (node, tail) {
        (_, None) => node,
        (Node::Directory(_, entries), Some(tail)) => find(entries, tail),
        (Node::File(..), Some(_)) => panic!("the walk goes into a file"),
    }
}

fn answer(root: &[Node], action: &WalkAction, reversed: bool) -> Option<WalkEvent> {
    match action {
        WalkAction::Done => None,
        WalkAction::ReadFile { path } => match find(root, path) {
            Node::File(_, lines) => {
                Some(WalkEvent::Lines(lines.iter().map(|l| l.to_string()).collect()))
            },
            Node::Directory(..) => panic!("the walk reads a directory"),
        },
        WalkAction::ReadDir { path } => {
            let nodes = if path.is_empty() {
                root
            } else {
                match find(root, path) {
                    Node::Directory(_, entries) => entries.as_slice(),
                    Node::File(..) => panic!("the walk lists a file"),
                }
            };
            let mut entries: Vec<DirEntry> = nodes
                .iter()
                .map(|node| match node {
                    Node::File(name, _) => DirEntry { name: name.to_string(), is_dir: false },
                    Node::Directory(name, _) => DirEntry { name: name.to_string(), is_dir: true },
                })
                .collect();
            if reversed {
                entries.reverse();
            }
            Some(WalkEvent::Entries(entries))
        },
    }
}

fn walk_through(
    root: &[Node],
    query: &str,
    case_insensitive: bool,
    reversed: bool,
) -> (Vec<ExactResult>, Vec<VagueResult>, usize, usize) {
    let (mut walk, mut action) = DocsetWalk::new(".html", query, case_insensitive);
    let mut listed = 0;
    let mut read = 0;
    while let Some(event) = answer(root, &action, reversed) {
        match action {
            WalkAction::ReadDir { .. } => listed += 1,
            _ => read += 1,
        }
        assert!(walk.expects(&event));
        action = walk.step(event);
    }
    let (exact, vague) = walk.finish();
    (exact, vague, listed, read)
}

#[test]
fn a_walk_through_a_tree_finds_what_the_files_hold() {
    let root = tree();
    let mut files = Vec::new();
    files_below(&root, "", &mut files);
    assert_eq!(files.len(), 8);
    for (query, case_insensitive) in
        [("map", false), ("map", true), ("Map", false), ("MAP", true), ("", false), ("none", true)]
    {
        let expected = search_docset_precisely(&files, ".html", query, case_insensitive);
        for reversed in [false, true] {
            let (exact, vague, listed, _) = walk_through(&root, query, case_insensitive, reversed);
            assert_eq!(exact, expected.0);
            assert_eq!(vague, expected.1);
            assert_eq!(listed, 5);
        }
    }
}

#[test]
fn a_walk_through_a_tree_reads_the_pages_whose_names_do_not_match() {
    let root = tree();
    let (exact, vague, listed, read) = walk_through(&root, "map", false, false);
    assert_eq!(listed, 5);
    assert_eq!(read, 5);
    let items: Vec<&str> = exact.iter().map(|e| e.item.as_str()).collect();
    assert_eq!(items, ["std/collections/hash_map", "std/map"]);
    assert!(exact.iter().all(|e| e.fragment.is_none()));
    assert_eq!(
        vague,
        vec![
            VagueResult {
                item: "intro".to_string(),
                contexts: vec!["see the map type".to_string()],
            },
            VagueResult {
                item: "std/collections/set".to_string(),
                contexts: vec!["a map of sets".to_string(), "map".to_string()],
            },
            VagueResult {
                item: "zebra".to_string(),
                contexts: vec!["the last map".to_string()],
            },
        ]
    );
    let (exact, vague, _, read) = walk_through(&root, "none", false, true);
    assert!(exact.is_empty());
    assert!(vague.is_empty());
    assert_eq!(read, 7);
}
