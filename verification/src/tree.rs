//! The directory tree as the walker reads it, and what comes out of a walk.

use vstd::prelude::*;
use crate::names::{leaf_module, texts};

verus! {

/// Why the file system refused an operation.
#[derive(Clone, Copy, Debug, PartialEq, Eq, Structural)]
pub enum IoClass {
    NotFound,
    PermissionDenied,
    InvalidInput,
    Other,
}

/// The kinds of failure; each one ends the run.
#[derive(Clone, Copy, Debug, PartialEq, Eq, Structural)]
pub enum FailureKind {
    /// The program was not given exactly one argument.
    InvalidInput,
    /// A directory could not be listed, or an entry of it could not be read.
    FilesystemRead(IoClass),
    /// A declaration file could not be created or written.
    FilesystemWrite(IoClass),
    /// The name of a directory or of a regular file is not text.
    NonTextName,
}

/// A failure, with the directory in which it came up, given by the names on
/// the way from the root down to it.
#[derive(Debug, PartialEq, Eq)]
pub struct Failure {
    pub kind: FailureKind,
    pub directory: Vec<String>,
}

pub struct FailureView {
    pub kind: FailureKind,
    pub directory: Seq<Seq<char>>,
}

impl View for Failure {
    type V = FailureView;

    open spec fn view(&self) -> FailureView {
        FailureView { kind: self.kind, directory: texts(self.directory@) }
    }
}

/// One immediate entry of a directory.
#[derive(Debug, PartialEq, Eq)]
pub enum Entry {
    /// A subdirectory with its own listing; `name` is `None` where the name
    /// is not text.
    Directory { name: Option<String>, entries: Vec<Entry> },
    /// A regular file; `name` is `None` where the name is not text.
    File { name: Option<String> },
    /// Anything that is neither a directory nor a regular file.
    Other,
    /// The place in a listing at which reading failed: the listing itself
    /// where it is the only entry, else the entry that follows the ones
    /// before it.
    Unreadable { class: IoClass },
}

/// A declaration file: the directory that it is written into, given by the
/// names on the way from the root down to it, and its text.
#[derive(Debug, PartialEq, Eq)]
pub struct Declaration {
    pub directory: Vec<String>,
    pub contents: String,
}

pub struct DeclarationView {
    pub directory: Seq<Seq<char>>,
    pub contents: Seq<char>,
}

impl View for Declaration {
    type V = DeclarationView;

    open spec fn view(&self) -> DeclarationView {
        DeclarationView { directory: texts(self.directory@), contents: self.contents@ }
    }
}

/// The views of a list of declaration files, in the list's order.
pub open spec fn declaration_views(v: Seq<Declaration>) -> Seq<DeclarationView> {
    Seq::new(v.len(), |i: int| v[i]@)
}

/// What a walk did: the declaration files in the order in which they are
/// written, and the failure that ended it, if one did.
#[derive(Debug, PartialEq, Eq)]
pub struct Outcome {
    pub declarations: Vec<Declaration>,
    pub failure: Option<Failure>,
}

pub struct OutcomeView {
    pub declarations: Seq<DeclarationView>,
    pub failure: Option<FailureView>,
}

impl View for Outcome {
    type V = OutcomeView;

    open spec fn view(&self) -> OutcomeView {
        OutcomeView {
            declarations: declaration_views(self.declarations@),
            failure: match self.failure {
                Some(f) => Some(f@),
                None => None,
            },
        }
    }
}

/// The module that an entry contributes to its directory's declaration
/// file: a subdirectory its name, a source file its stem, anything else
/// nothing.
pub open spec fn contribution(e: Entry) -> Option<Seq<char>> {
    match e {
        Entry::Directory { name: Some(n), .. } => Some(n@),
        Entry::File { name: Some(n) } => leaf_module(n@),
        _ => None,
    }
}

/// The failure that an entry stands for, if any.
pub open spec fn entry_failure(e: Entry) -> Option<FailureKind> {
    match e {
        Entry::Directory { name: None, .. } => Some(FailureKind::NonTextName),
        Entry::File { name: None } => Some(FailureKind::NonTextName),
        Entry::Unreadable { class } => Some(FailureKind::FilesystemRead(class)),
        _ => None,
    }
}

/// The modules that the first `n` entries contribute, in listing order.
pub open spec fn names_upto(entries: Seq<Entry>, n: nat) -> Seq<Seq<char>>
    decreases n,
{
    if n == 0 || n > entries.len() {
        Seq::empty()
    } else {
        match contribution(entries[n - 1]) {
            Some(m) => names_upto(entries, (n - 1) as nat).push(m),
            None => names_upto(entries, (n - 1) as nat),
        }
    }
}

/// The modules that a listing contributes, in listing order.
pub open spec fn module_names(entries: Seq<Entry>) -> Seq<Seq<char>> {
    names_upto(entries, entries.len())
}

} // verus!
