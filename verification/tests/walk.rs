use crateify::tree::{Declaration, Entry, FailureKind, IoClass, Outcome};
use crateify::names::{child_path, clone_names};
use crateify::walker::{crateify, ends_walk, walk_directory};

fn file(name: &str) -> Entry {
    Entry::File { name: Some(name.to_string()) }
}

fn dir(name: &str, entries: Vec<Entry>) -> Entry {
    Entry::Directory { name: Some(name.to_string()), entries }
}

fn names(parts: &[&str]) -> Vec<String> {
    parts.iter().map(|p| p.to_string()).collect()
}

fn files_of(out: &Outcome) -> Vec<(Vec<String>, String)> {
    out.declarations.iter().map(|d| (d.directory.clone(), d.contents.clone())).collect()
}

#[test]
fn two_sources_and_an_empty_directory() {
    let root = vec![dir("a", vec![file("one.rs"), file("two.rs")]), dir("b", vec![])];
    let out = crateify(&root);
    assert!(out.failure.is_none());
    assert_eq!(
        files_of(&out),
        vec![
            (names(&["a"]), "pub mod one;\npub mod two;\n".to_string()),
            (names(&[]), "pub mod a;\npub mod b;\n".to_string()),
        ]
    );
}

#[test]
fn other_extensions_are_ignored() {
    let root = vec![file("notes.txt"), file("lib.rs")];
    let out = crateify(&root);
    assert!(out.failure.is_none());
    assert_eq!(files_of(&out), vec![(names(&[]), "pub mod lib;\n".to_string())]);
}

#[test]
fn empty_root_writes_nothing() {
    let out = crateify(&Vec::new());
    assert!(out.failure.is_none());
    assert!(out.declarations.is_empty());
}

#[test]
fn directory_without_qualifying_children_writes_nothing() {
    let root = vec![file("notes.txt"), file("Makefile"), Entry::Other, file(".rs")];
    let out = crateify(&root);
    assert!(out.failure.is_none());
    assert!(out.declarations.is_empty());
}

#[test]
fn names_are_sorted_whatever_the_listing_order() {
    let forward = vec![file("alpha.rs"), dir("Zeta", vec![]), file("beta.rs"), dir("a", vec![])];
    let backward = vec![dir("a", vec![]), file("beta.rs"), dir("Zeta", vec![]), file("alpha.rs")];
    let expected = "pub mod Zeta;\npub mod a;\npub mod alpha;\npub mod beta;\n".to_string();
    assert_eq!(files_of(&crateify(&forward)), vec![(names(&[]), expected.clone())]);
    assert_eq!(files_of(&crateify(&backward)), vec![(names(&[]), expected)]);
}

#[test]
fn a_prefix_sorts_before_the_longer_name() {
    let root = vec![file("abc.rs"), file("ab.rs"), file("b.rs"), file("a.rs")];
    let out = crateify(&root);
    assert_eq!(
        files_of(&out),
        vec![(names(&[]), "pub mod a;\npub mod ab;\npub mod abc;\npub mod b;\n".to_string())]
    );
}

#[test]
fn two_walks_of_one_tree_agree() {
    let tree = || vec![dir("x", vec![file("m.rs"), dir("y", vec![file("n.rs")])]), file("k.rs")];
    let first = crateify(&tree());
    let second = crateify(&tree());
    assert_eq!(files_of(&first), files_of(&second));
    assert!(first.failure.is_none() && second.failure.is_none());
}

#[test]
fn a_directory_is_done_after_those_below_it() {
    let root = vec![dir("a", vec![dir("b", vec![file("c.rs")])])];
    let out = crateify(&root);
    assert!(out.failure.is_none());
    assert_eq!(
        files_of(&out),
        vec![
            (names(&["a", "b"]), "pub mod c;\n".to_string()),
            (names(&["a"]), "pub mod b;\n".to_string()),
            (names(&[]), "pub mod a;\n".to_string()),
        ]
    );
}

#[test]
fn a_file_lists_immediate_children_only() {
    let root = vec![dir("a", vec![file("deep.rs")]), file("top.rs")];
    let out = crateify(&root);
    assert_eq!(out.declarations[1].contents, "pub mod a;\npub mod top;\n");
}

#[test]
fn a_colliding_name_is_declared_twice() {
    let root = vec![dir("x", vec![]), file("x.rs")];
    let out = crateify(&root);
    assert!(out.failure.is_none());
    assert_eq!(files_of(&out), vec![(names(&[]), "pub mod x;\npub mod x;\n".to_string())]);
}

#[test]
fn the_declaration_file_is_no_module_of_its_directory() {
    let root = vec![file("mod.rs"), file("one.rs")];
    let out = crateify(&root);
    assert_eq!(out.declarations[0].contents, "pub mod one;\n");
}

#[test]
fn a_second_run_writes_what_the_first_wrote() {
    let before = vec![dir("a", vec![file("one.rs"), dir("b", vec![file("two.rs")])]), dir("c", vec![])];
    let after = vec![
        file("mod.rs"),
        dir("a", vec![file("one.rs"), file("mod.rs"), dir("b", vec![file("mod.rs"), file("two.rs")])]),
        dir("c", vec![]),
    ];
    let first = crateify(&before);
    let second = crateify(&after);
    assert!(first.failure.is_none());
    assert_eq!(first, second);
    assert_eq!(
        files_of(&second),
        vec![
            (names(&["a", "b"]), "pub mod two;\n".to_string()),
            (names(&["a"]), "pub mod b;\npub mod one;\n".to_string()),
            (names(&[]), "pub mod a;\npub mod c;\n".to_string()),
        ]
    );
}

#[test]
fn a_directory_with_only_its_declaration_file_gets_none() {
    let root = vec![dir("a", vec![file("mod.rs")])];
    let out = crateify(&root);
    assert!(out.failure.is_none());
    assert_eq!(files_of(&out), vec![(names(&[]), "pub mod a;\n".to_string())]);
}

#[test]
fn unreadable_entry_ends_the_walk() {
    let root = vec![
        dir("a", vec![file("one.rs")]),
        Entry::Unreadable { class: IoClass::PermissionDenied },
        dir("b", vec![file("two.rs")]),
    ];
    let out = crateify(&root);
    let failure = out.failure.expect("the walk fails");
    assert_eq!(failure.kind, FailureKind::FilesystemRead(IoClass::PermissionDenied));
    assert!(failure.directory.is_empty());
    let written: Vec<(Vec<String>, String)> =
        out.declarations.iter().map(|d| (d.directory.clone(), d.contents.clone())).collect();
    assert_eq!(written, vec![(names(&["a"]), "pub mod one;\n".to_string())]);
}

#[test]
fn failure_below_names_its_directory() {
    let root = vec![dir("a", vec![dir("b", vec![Entry::Unreadable { class: IoClass::NotFound }])])];
    let out = crateify(&root);
    let failure = out.failure.expect("the walk fails");
    assert_eq!(failure.kind, FailureKind::FilesystemRead(IoClass::NotFound));
    assert_eq!(failure.directory, names(&["a", "b"]));
    assert!(out.declarations.is_empty());
}

#[test]
fn directory_name_that_is_not_text_fails() {
    let root = vec![file("one.rs"), Entry::Directory { name: None, entries: vec![file("x.rs")] }];
    let out = crateify(&root);
    let failure = out.failure.expect("the walk fails");
    assert_eq!(failure.kind, FailureKind::NonTextName);
    assert!(failure.directory.is_empty());
    assert!(out.declarations.is_empty());
}

#[test]
fn file_name_that_is_not_text_fails() {
    let root = vec![dir("a", vec![Entry::File { name: None }])];
    let out = crateify(&root);
    let failure = out.failure.expect("the walk fails");
    assert_eq!(failure.kind, FailureKind::NonTextName);
    assert_eq!(failure.directory, names(&["a"]));
}

#[test]
fn other_entries_are_no_failure() {
    let root = vec![Entry::Other, file("a.rs"), Entry::Other];
    let out = crateify(&root);
    assert!(out.failure.is_none());
    assert_eq!(out.declarations.len(), 1);
}

#[test]
fn walk_directory_appends_to_what_was_written() {
    let mut written = vec![Declaration { directory: names(&["before"]), contents: "x".to_string() }];
    let failure = walk_directory(&names(&["p"]), &vec![file("q.rs")], &mut written);
    assert!(failure.is_none());
    assert_eq!(written.len(), 2);
    assert_eq!(written[0].directory, names(&["before"]));
    assert_eq!(written[1].directory, names(&["p"]));
    assert_eq!(written[1].contents, "pub mod q;\n");
}

#[test]
fn child_path_adds_one_name() {
    assert_eq!(child_path(&names(&["a", "b"]), &"c".to_string()), names(&["a", "b", "c"]));
    assert_eq!(clone_names(&names(&["a", "b"])), names(&["a", "b"]));
}

fn qualifying_directories(path: Vec<String>, entries: &Vec<Entry>, into: &mut Vec<Vec<String>>) {
    let mut qualifies = false;
    for e in entries {
        match e {
            Entry::Directory { name: Some(name), entries: below } => {
                qualifies = true;
                let mut child = path.clone();
                child.push(name.clone());
                qualifying_directories(child, below, into);
            }
            Entry::File { name: Some(name) } => {
                if name.len() > 3 && name.ends_with(".rs") {
                    qualifies = true;
                }
            }
            _ => {}
        }
    }
    if qualifies {
        into.push(path);
    }
}

#[test]
fn exactly_the_directories_with_a_qualifying_child_get_a_file() {
    let root = vec![
        dir("empty", vec![]),
        dir("texts", vec![file("a.txt"), file("b.md")]),
        dir("src", vec![file("lib.rs"), dir("inner", vec![file("x.rs"), dir("hollow", vec![])])]),
        dir("holder", vec![dir("held", vec![])]),
        file("README"),
    ];
    let out = crateify(&root);
    assert!(out.failure.is_none());
    let mut got: Vec<Vec<String>> = out.declarations.iter().map(|d| d.directory.clone()).collect();
    let mut expected = Vec::new();
    qualifying_directories(Vec::new(), &root, &mut expected);
    assert_eq!(got, expected);
    got.sort();
    assert_eq!(
        got,
        vec![names(&[]), names(&["holder"]), names(&["src"]), names(&["src", "inner"])]
    );
}

#[test]
fn the_outcome_compares_as_a_value() {
    let root = vec![dir("a", vec![file("one.rs")])];
    let out = crateify(&root);
    let expected = Outcome {
        declarations: vec![
            Declaration { directory: names(&["a"]), contents: "pub mod one;\n".to_string() },
            Declaration { directory: names(&[]), contents: "pub mod a;\n".to_string() },
        ],
        failure: None,
    };
    assert_eq!(out, expected);
}

#[test]
fn entries_that_end_a_walk() {
    assert!(ends_walk(&Entry::Unreadable { class: IoClass::Other }));
    assert!(ends_walk(&Entry::File { name: None }));
    assert!(ends_walk(&Entry::Directory { name: None, entries: vec![] }));
    assert!(!ends_walk(&file("a.rs")));
    assert!(!ends_walk(&file("mod.rs")));
    assert!(!ends_walk(&dir("a", vec![Entry::Unreadable { class: IoClass::Other }])));
    assert!(!ends_walk(&Entry::Other));
}
