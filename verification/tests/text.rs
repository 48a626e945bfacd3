use crateify::cli::root_argument;
use crateify::names::source_stem;
use crateify::report::write_failure;
use crateify::tree::{Declaration, Failure, FailureKind, IoClass};
use crateify::writer::{gen_interm_mod_rs, render_names};

fn names(parts: &[&str]) -> Vec<String> {
    parts.iter().map(|p| p.to_string()).collect()
}

#[test]
fn stem_of_a_source_file() {
    assert_eq!(source_stem(&"a.rs".to_string()), Some("a".to_string()));
    assert_eq!(source_stem(&"lib.rs".to_string()), Some("lib".to_string()));
    assert_eq!(source_stem(&"a.b.rs".to_string()), Some("a.b".to_string()));
    assert_eq!(source_stem(&"..rs".to_string()), Some(".".to_string()));
    assert_eq!(source_stem(&"xmod.rs".to_string()), Some("xmod".to_string()));
    assert_eq!(source_stem(&"mod.rs.rs".to_string()), Some("mod.rs".to_string()));
    assert_eq!(source_stem(&"Mod.rs".to_string()), Some("Mod".to_string()));
}

#[test]
fn stem_of_a_name_with_wide_characters() {
    assert_eq!(source_stem(&"grüße.rs".to_string()), Some("grüße".to_string()));
    assert_eq!(source_stem(&"日本.rs".to_string()), Some("日本".to_string()));
    assert_eq!(source_stem(&"日本語".to_string()), None);
}

#[test]
fn names_that_are_no_source_files() {
    assert_eq!(source_stem(&"notes.txt".to_string()), None);
    assert_eq!(source_stem(&"Makefile".to_string()), None);
    assert_eq!(source_stem(&".rs".to_string()), None);
    assert_eq!(source_stem(&"rs".to_string()), None);
    assert_eq!(source_stem(&"".to_string()), None);
    assert_eq!(source_stem(&"lib.RS".to_string()), None);
    assert_eq!(source_stem(&"lib.rs.bak".to_string()), None);
    assert_eq!(source_stem(&"libors".to_string()), None);
    assert_eq!(source_stem(&"mod.rs".to_string()), None);
}

#[test]
fn render_keeps_the_given_order() {
    assert_eq!(render_names(&names(&["b", "a"])), "pub mod b;\npub mod a;\n");
    assert_eq!(render_names(&names(&[])), "");
}

#[test]
fn no_modules_no_file() {
    assert!(gen_interm_mod_rs(names(&["a"]), names(&[])).is_none());
}

#[test]
fn modules_are_written_in_ascending_order() {
    let d = gen_interm_mod_rs(names(&["a", "b"]), names(&["two", "one", "Three"]))
        .expect("a declaration file");
    assert_eq!(d.directory, names(&["a", "b"]));
    assert_eq!(d.contents, "pub mod Three;\npub mod one;\npub mod two;\n");
}

#[test]
fn order_is_by_code_point() {
    let d = gen_interm_mod_rs(names(&[]), names(&["é", "z", "_x", "A", "a1", "a"]))
        .expect("a declaration file");
    assert_eq!(d.contents, "pub mod A;\npub mod _x;\npub mod a;\npub mod a1;\npub mod z;\npub mod é;\n");
}

#[test]
fn exactly_one_argument_is_the_root() {
    assert_eq!(root_argument(&names(&["tree"])).ok(), Some("tree".to_string()));
}

#[test]
fn no_argument_is_invalid_input() {
    let failure = root_argument(&names(&[])).err().expect("refused");
    assert_eq!(failure.kind, FailureKind::InvalidInput);
    assert!(failure.directory.is_empty());
}

#[test]
fn two_arguments_are_invalid_input() {
    let failure = root_argument(&names(&["a", "b"])).err().expect("refused");
    assert_eq!(failure.kind, FailureKind::InvalidInput);
    assert!(failure.directory.is_empty());
}

#[test]
fn messages_name_the_kind_and_the_directory() {
    let read = Failure {
        kind: FailureKind::FilesystemRead(IoClass::NotFound),
        directory: names(&["a", "b"]),
    };
    assert_eq!(read.message(), "cannot read directory (not found) at ./a/b");
    let write = Failure {
        kind: FailureKind::FilesystemWrite(IoClass::PermissionDenied),
        directory: names(&[]),
    };
    assert_eq!(write.message(), "cannot write declaration file (permission denied) at .");
    let name = Failure { kind: FailureKind::NonTextName, directory: names(&["x"]) };
    assert_eq!(name.message(), "an entry's name is not text at ./x");
    let other = Failure { kind: FailureKind::FilesystemRead(IoClass::Other), directory: names(&[]) };
    assert_eq!(other.message(), "cannot read directory (input/output error) at .");
    let input = Failure {
        kind: FailureKind::FilesystemRead(IoClass::InvalidInput),
        directory: names(&[]),
    };
    assert_eq!(input.message(), "cannot read directory (invalid input) at .");
}

#[test]
fn invalid_input_has_no_directory_in_its_message() {
    let failure = root_argument(&names(&[])).err().expect("refused");
    assert_eq!(failure.message(), "invalid input: expected one argument, the root directory");
}

#[test]
fn write_failure_names_the_files_directory() {
    let d = Declaration { directory: names(&["a"]), contents: "pub mod b;\n".to_string() };
    let failure = write_failure(&d, IoClass::PermissionDenied);
    assert_eq!(failure.kind, FailureKind::FilesystemWrite(IoClass::PermissionDenied));
    assert_eq!(failure.directory, names(&["a"]));
}

#[test]
fn a_declaration_file_is_named_mod_rs() {
    let d = Declaration { directory: names(&["a", "b"]), contents: String::new() };
    assert_eq!(d.path(), names(&["a", "b", "mod.rs"]));
    let top = Declaration { directory: names(&[]), contents: String::new() };
    assert_eq!(top.path(), names(&["mod.rs"]));
}
