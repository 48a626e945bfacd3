//! The message that a failure is reported with.

use vstd::prelude::*;
use vstd::string::*;
use crate::names::{clone_names, texts};
use crate::tree::{Declaration, Failure, FailureKind, FailureView, IoClass};

verus! {

/// The words for a class of file system failure.
pub open spec fn class_text(class: IoClass) -> Seq<char> {
    match class {
        IoClass::NotFound => "not found"@,
        IoClass::PermissionDenied => "permission denied"@,
        IoClass::InvalidInput => "invalid input"@,
        IoClass::Other => "input/output error"@,
    }
}

/// The words for a kind of failure.
pub open spec fn kind_text(kind: FailureKind) -> Seq<char> {
    match kind {
        FailureKind::InvalidInput => "invalid input: expected one argument, the root directory"@,
        FailureKind::FilesystemRead(class) => "cannot read directory ("@ + class_text(class)
            + ") at "@,
        FailureKind::FilesystemWrite(class) => "cannot write declaration file ("@ + class_text(
            class,
        ) + ") at "@,
        FailureKind::NonTextName => "an entry's name is not text at "@,
    }
}

/// A directory as text: `.` for the root, then each name on the way down
/// after a `/`.
pub open spec fn path_text(directory: Seq<Seq<char>>) -> Seq<char>
    decreases directory.len(),
{
    if directory.len() == 0 {
        "."@
    } else {
        path_text(directory.drop_last()) + "/"@ + directory.last()
    }
}

/// The message of a failure: its kind and, but for invalid input, the
/// directory in which it came up.
pub open spec fn message_text(f: FailureView) -> Seq<char> {
    if f.kind == FailureKind::InvalidInput {
        kind_text(f.kind)
    } else {
        kind_text(f.kind) + path_text(f.directory)
    }
}

fn class_words(class: IoClass) -> (r: &'static str)
    ensures
        r@ == class_text(class),
{
    match class {
        IoClass::NotFound => "not found",
        IoClass::PermissionDenied => "permission denied",
        IoClass::InvalidInput => "invalid input",
        IoClass::Other => "input/output error",
    }
}

fn kind_words(kind: FailureKind) -> (r: String)
    ensures
        r@ == kind_text(kind),
{
    match kind {
        FailureKind::InvalidInput => String::from_str(
            "invalid input: expected one argument, the root directory",
        ),
        FailureKind::FilesystemRead(class) => {
            let mut out = String::from_str("cannot read directory (");
            out.append(class_words(class));
            out.append(") at ");
            out
        },
        FailureKind::FilesystemWrite(class) => {
            let mut out = String::from_str("cannot write declaration file (");
            out.append(class_words(class));
            out.append(") at ");
            out
        },
        FailureKind::NonTextName => String::from_str("an entry's name is not text at "),
    }
}

/// Appends a directory as text.
fn append_path(out: &mut String, directory: &Vec<String>)
    ensures
        final(out)@ == old(out)@ + path_text(texts(directory@)),
{
    let ghost before = out@;
    let ghost names = texts(directory@);
    out.append(".");
    let mut i: usize = 0;
    proof {
        assert(names.take(0).len() == 0);
    }
    while i < directory.len()
        invariant
            i <= directory.len(),
            names == texts(directory@),
            out@ == before + path_text(names.take(i as int)),
        decreases directory.len() - i,
    {
        proof {
            let next = names.take(i + 1);
            assert(next.drop_last() =~= names.take(i as int));
            assert(next.last() == directory@[i as int]@);
            let sofar = path_text(names.take(i as int));
            assert(before + sofar + "/"@ + next.last() =~= before + (sofar + "/"@ + next.last()));
        }
        out.append("/");
        out.append(directory[i].as_str());
        i += 1;
    }
    proof {
        assert(names.take(i as int) =~= names);
    }
}

impl Failure {
    /// The message that this failure is reported with.
    pub fn message(&self) -> (r: String)
        ensures
            r@ == message_text(self@),
    {
        let mut out = kind_words(self.kind);
        match self.kind {
            FailureKind::InvalidInput => {},
            _ => {
                append_path(&mut out, &self.directory);
            },
        }
        out
    }
}

/// The failure to report when the declaration file `file` could not be
/// created or written.
pub fn write_failure(file: &Declaration, class: IoClass) -> (r: Failure)
    ensures
        r@ == (FailureView {
            kind: FailureKind::FilesystemWrite(class),
            directory: file@.directory,
        }),
{
    Failure { kind: FailureKind::FilesystemWrite(class), directory: clone_names(&file.directory) }
}

} // verus!
