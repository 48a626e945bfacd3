//! The depth-first walk that decides which declaration files are written.

use vstd::prelude::*;
use vstd::string::*;
use crate::names::{child_path, clone_names, source_stem, texts};
use crate::tree::{
    declaration_views, entry_failure, module_names, names_upto, Declaration, DeclarationView,
    Entry, Failure, FailureKind, FailureView, Outcome, OutcomeView,
};
use crate::writer::{declaration_text, gen_interm_mod_rs};

verus! {

/// What the walk of the directory `path` has done once it is through the
/// first `n` entries of that directory's listing, or has failed among them:
/// each subdirectory is walked in full when its entry is reached, and the
/// first failure ends everything.
pub open spec fn children_upto(path: Seq<Seq<char>>, entries: Seq<Entry>, n: nat) -> OutcomeView
    decreases entries, n,
{
    if n == 0 || n > entries.len() {
        OutcomeView { declarations: Seq::empty(), failure: None }
    } else {
        let before = children_upto(path, entries, (n - 1) as nat);
        if before.failure.is_some() {
            before
        } else {
            match entries[n - 1] {
                Entry::Directory { name: Some(name), entries: sub } => {
                    let inner = walk(path.push(name@), sub@);
                    OutcomeView {
                        declarations: before.declarations + inner.declarations,
                        failure: inner.failure,
                    }
                },
                e => match entry_failure(e) {
                    Some(kind) => OutcomeView {
                        declarations: before.declarations,
                        failure: Some(FailureView { kind, directory: path }),
                    },
                    None => before,
                },
            }
        }
    }
}

/// What the walk of the directory `path` with the listing `entries` does:
/// it goes through the entries in listing order, and then, unless something
/// failed or no entry contributes a module, writes the directory's own
/// declaration file.
pub open spec fn walk(path: Seq<Seq<char>>, entries: Seq<Entry>) -> OutcomeView
    decreases entries, entries.len() + 1,
{
    let seen = children_upto(path, entries, entries.len());
    if seen.failure.is_some() || module_names(entries).len() == 0 {
        seen
    } else {
        OutcomeView {
            declarations: seen.declarations.push(
                DeclarationView {
                    directory: path,
                    contents: declaration_text(module_names(entries)),
                },
            ),
            failure: None,
        }
    }
}

/// Once the walk of a directory has failed, the rest of its listing changes
/// nothing.
pub proof fn lemma_failure_ends_walk(path: Seq<Seq<char>>, entries: Seq<Entry>, k: nat, n: nat)
    requires
        k <= n <= entries.len(),
        children_upto(path, entries, k).failure.is_some(),
    ensures
        children_upto(path, entries, n) == children_upto(path, entries, k),
    decreases n,
{
    if n > k {
        lemma_failure_ends_walk(path, entries, k, (n - 1) as nat);
    }
}

/// Whether the walk of a directory ends at this entry itself: it could not
/// be read, or it is a directory or a regular file whose name is not text.
/// Nothing that follows such an entry in the listing is looked at.
pub fn ends_walk(entry: &Entry) -> (r: bool)
    ensures
        r == entry_failure(*entry).is_some(),
{
    match entry {
        Entry::Directory { name: None, .. } => true,
        Entry::File { name: None } => true,
        Entry::Unreadable { .. } => true,
        _ => false,
    }
}

fn failure_at(kind: FailureKind, path: &Vec<String>) -> (r: Option<Failure>)
    ensures
        r.is_some(),
        r.unwrap()@ == (FailureView { kind, directory: texts(path@) }),
{
    Some(Failure { kind, directory: clone_names(path) })
}

/// The view of a walk's failure, if there is one.
pub open spec fn failure_view(failure: Option<Failure>) -> Option<FailureView> {
    match failure {
        Some(f) => Some(f@),
        None => None,
    }
}

/// Walks the directory `path` with the listing `entries`, and appends to
/// `written` the declaration files of that subtree in the order in which
/// they are written.
pub fn walk_directory(path: &Vec<String>, entries: &Vec<Entry>, written: &mut Vec<Declaration>) -> (failure:
    Option<Failure>)
    ensures
        declaration_views(final(written)@) == declaration_views(old(written)@) + walk(
            texts(path@),
            entries@,
        ).declarations,
        failure_view(failure) == walk(texts(path@), entries@).failure,
    decreases entries@,
{
    let ghost before = declaration_views(written@);
    let ghost here = texts(path@);
    let mut mods: Vec<String> = Vec::new();
    let mut i: usize = 0;
    proof {
        assert(before + Seq::<DeclarationView>::empty() =~= before);
    }
    while i < entries.len()
        invariant
            i <= entries.len(),
            here == texts(path@),
            before == declaration_views(old(written)@),
            texts(mods@) == names_upto(entries@, i as nat),
            children_upto(here, entries@, i as nat).failure.is_none(),
            declaration_views(written@) == before + children_upto(
                here,
                entries@,
                i as nat,
            ).declarations,
        decreases entries.len() - i,
    {
        let ghost next = children_upto(here, entries@, (i + 1) as nat);
        match &entries[i] {
            Entry::Directory { name: Some(name), entries: sub } => {
                proof {
                    assert(texts(mods@.push(*name)) =~= texts(mods@).push(name@));
                }
                mods.push(name.clone());
                let child = child_path(path, name);
                let ghost inner = walk(texts(child@), sub@);
                let ghost so_far = children_upto(here, entries@, i as nat).declarations;
                let failure = walk_directory(&child, sub, written);
                proof {
                    assert(before + (so_far + inner.declarations) =~= (before + so_far)
                        + inner.declarations);
                }
                if failure.is_some() {
                    proof {
                        lemma_failure_ends_walk(here, entries@, (i + 1) as nat, entries@.len());
                    }
                    return failure;
                }
            },
            Entry::Directory { name: None, .. } => {
                proof {
                    lemma_failure_ends_walk(here, entries@, (i + 1) as nat, entries@.len());
                }
                return failure_at(FailureKind::NonTextName, path);
            },
            Entry::File { name: Some(name) } => {
                match source_stem(name) {
                    Some(m) => {
                        proof {
                            assert(texts(mods@.push(m)) =~= texts(mods@).push(m@));
                        }
                        mods.push(m);
                    },
                    None => {},
                }
            },
            Entry::File { name: None } => {
                proof {
                    lemma_failure_ends_walk(here, entries@, (i + 1) as nat, entries@.len());
                }
                return failure_at(FailureKind::NonTextName, path);
            },
            Entry::Other => {},
            Entry::Unreadable { class } => {
                proof {
                    lemma_failure_ends_walk(here, entries@, (i + 1) as nat, entries@.len());
                }
                return failure_at(FailureKind::FilesystemRead(*class), path);
            },
        }
        i += 1;
    }
    let ghost seen = children_upto(here, entries@, entries@.len()).declarations;
    match gen_interm_mod_rs(clone_names(path), mods) {
        Some(d) => {
            proof {
                assert(declaration_views(written@.push(d)) =~= declaration_views(written@).push(
                    d@,
                ));
                assert((before + seen).push(d@) =~= before + seen.push(d@));
            }
            written.push(d);
        },
        None => {},
    }
    None
}

/// Walks the tree whose root directory has the listing `entries`: which
/// declaration files are written, in which order and with which text, and
/// the failure that ended the walk, if one did. Directories are given by the
/// names on the way from the root down to them; the root is the empty list.
pub fn crateify(entries: &Vec<Entry>) -> (out: Outcome)
    ensures
        out@ == walk(Seq::empty(), entries@),
{
    let root: Vec<String> = Vec::new();
    let mut written: Vec<Declaration> = Vec::new();
    proof {
        assert(texts(root@) =~= Seq::<Seq<char>>::empty());
        assert(declaration_views(written@) =~= Seq::<DeclarationView>::empty());
    }
    let failure = walk_directory(&root, entries, &mut written);
    proof {
        let w = walk(Seq::empty(), entries@);
        assert(Seq::<DeclarationView>::empty() + w.declarations =~= w.declarations);
    }
    Outcome { declarations: written, failure }
}

} // verus!
