//! What holds of every walk: which directories get a declaration file, and
//! what the file of a directory says.

use vstd::prelude::*;
use vstd::relations::*;
use crate::names::{declaration_file_name, leaf_module, lemma_name_order_total, name_order};
use crate::cli::root_of;
use crate::tree::{
    contribution, entry_failure, module_names, names_upto, DeclarationView, Entry, FailureKind,
    FailureView, OutcomeView,
};
use crate::walker::{children_upto, walk};
use crate::writer::declaration_text;

verus! {

/// A directory that a walk comes through: where it is, and its listing.
pub struct Visit {
    pub directory: Seq<Seq<char>>,
    pub entries: Seq<Entry>,
}

/// The directories below `path` that the walk comes through while it goes
/// through the first `n` entries of the listing, in the order in which it
/// is done with them.
pub open spec fn visited_upto(path: Seq<Seq<char>>, entries: Seq<Entry>, n: nat) -> Seq<Visit>
    decreases entries, n,
{
    if n == 0 || n > entries.len() {
        Seq::empty()
    } else {
        let before = visited_upto(path, entries, (n - 1) as nat);
        match entries[n - 1] {
            Entry::Directory { name: Some(name), entries: sub } => before + visited(
                path.push(name@),
                sub@,
            ),
            _ => before,
        }
    }
}

/// Every directory of the tree under `path`, each once, a directory after
/// all those below it.
pub open spec fn visited(path: Seq<Seq<char>>, entries: Seq<Entry>) -> Seq<Visit>
    decreases entries, entries.len() + 1,
{
    visited_upto(path, entries, entries.len()).push(Visit { directory: path, entries })
}

/// Whether an entry is a subdirectory or a source file other than the
/// declaration file.
pub open spec fn qualifies(e: Entry) -> bool {
    match e {
        Entry::Directory { .. } => true,
        Entry::File { name: Some(n) } => leaf_module(n@).is_some(),
        _ => false,
    }
}

/// Whether a listing holds at least one subdirectory or source file.
pub open spec fn has_qualifying_child(entries: Seq<Entry>) -> bool {
    exists|k: int| 0 <= k < entries.len() && qualifies(#[trigger] entries[k])
}

/// The declaration file of a directory with these entries.
pub open spec fn declaration_of(v: Visit) -> DeclarationView {
    DeclarationView { directory: v.directory, contents: declaration_text(module_names(v.entries)) }
}

/// The declaration files of those among `visits` that have a qualifying
/// child, in the order of `visits`.
pub open spec fn declared(visits: Seq<Visit>) -> Seq<DeclarationView>
    decreases visits.len(),
{
    if visits.len() == 0 {
        Seq::empty()
    } else if has_qualifying_child(visits.last().entries) {
        declared(visits.drop_last()).push(declaration_of(visits.last()))
    } else {
        declared(visits.drop_last())
    }
}

/// The declaration files of two runs of directories, one after the other,
/// are those of the first followed by those of the second.
pub proof fn lemma_declared_concat(a: Seq<Visit>, b: Seq<Visit>)
    ensures
        declared(a + b) == declared(a) + declared(b),
    decreases b.len(),
{
    if b.len() == 0 {
        assert(a + b =~= a);
        assert(declared(a) + declared(b) =~= declared(a));
    } else {
        assert((a + b).drop_last() =~= a + b.drop_last());
        assert((a + b).last() == b.last());
        lemma_declared_concat(a, b.drop_last());
        if has_qualifying_child(b.last().entries) {
            assert((declared(a) + declared(b.drop_last())).push(declaration_of(b.last()))
                =~= declared(a) + declared(b.drop_last()).push(declaration_of(b.last())));
        }
    }
}

/// Among entries that stand for no failure, the qualifying ones are those
/// that contribute a module.
pub proof fn lemma_names_iff_qualifying(entries: Seq<Entry>, n: nat)
    requires
        n <= entries.len(),
        forall|k: int| 0 <= k < n ==> entry_failure(#[trigger] entries[k]).is_none(),
    ensures
        names_upto(entries, n).len() > 0 <==> exists|k: int|
            0 <= k < n && qualifies(#[trigger] entries[k]),
    decreases n,
{
    if n > 0 {
        lemma_names_iff_qualifying(entries, (n - 1) as nat);
        let e = entries[n - 1];
        assert(entry_failure(e).is_none());
        assert(qualifies(e) <==> contribution(e).is_some());
        if qualifies(e) {
        } else if names_upto(entries, n).len() > 0 {
            let k = choose|k: int| 0 <= k < n - 1 && qualifies(#[trigger] entries[k]);
            assert(0 <= k < n && qualifies(entries[k]));
        } else {
            assert forall|k: int| 0 <= k < n implies !qualifies(#[trigger] entries[k]) by {
                if k < n - 1 {
                }
            }
        }
    }
}

/// While the walk of a directory has not failed, what it has written is
/// what the directories below that it came through declare, and none of the
/// entries that it is through stands for a failure.
pub proof fn lemma_children_declare_visited(path: Seq<Seq<char>>, entries: Seq<Entry>, n: nat)
    requires
        n <= entries.len(),
        children_upto(path, entries, n).failure.is_none(),
    ensures
        children_upto(path, entries, n).declarations == declared(visited_upto(path, entries, n)),
        forall|k: int| 0 <= k < n ==> entry_failure(#[trigger] entries[k]).is_none(),
    decreases entries, n,
{
    if n > 0 {
        lemma_children_declare_visited(path, entries, (n - 1) as nat);
        match entries[n - 1] {
            Entry::Directory { name: Some(name), entries: sub } => {
                lemma_walk_declares_visited(path.push(name@), sub@);
                lemma_declared_concat(
                    visited_upto(path, entries, (n - 1) as nat),
                    visited(path.push(name@), sub@),
                );
            },
            _ => {},
        }
    }
}

/// A walk that does not fail writes a declaration file for exactly the
/// directories of the tree that have a subdirectory or a source file among
/// their immediate entries: one file for each, in the order in which the
/// walk is done with them, holding the modules of that directory alone.
pub proof fn lemma_walk_declares_visited(path: Seq<Seq<char>>, entries: Seq<Entry>)
    requires
        walk(path, entries).failure.is_none(),
    ensures
        walk(path, entries).declarations == declared(visited(path, entries)),
    decreases entries, entries.len() + 1,
{
    let below = visited_upto(path, entries, entries.len());
    let all = visited(path, entries);
    lemma_children_declare_visited(path, entries, entries.len());
    lemma_names_iff_qualifying(entries, entries.len());
    assert(all.drop_last() =~= below);
    assert(all.last() == Visit { directory: path, entries });
}

/// Whether one of these declaration files is written into the directory `d`.
pub open spec fn declares(files: Seq<DeclarationView>, d: Seq<Seq<char>>) -> bool {
    exists|i: int| 0 <= i < files.len() && (#[trigger] files[i]).directory == d
}

/// Whether one of these directories is `d` and has a qualifying child.
pub open spec fn holds_qualifying(visits: Seq<Visit>, d: Seq<Seq<char>>) -> bool {
    exists|j: int|
        0 <= j < visits.len() && (#[trigger] visits[j]).directory == d && has_qualifying_child(
            visits[j].entries,
        )
}

/// Among the declaration files of some directories there is one for `d` if
/// and only if `d` is one of them and has a qualifying child.
pub proof fn lemma_declared_directories(visits: Seq<Visit>, d: Seq<Seq<char>>)
    ensures
        declares(declared(visits), d) <==> holds_qualifying(visits, d),
    decreases visits.len(),
{
    if visits.len() > 0 {
        let rest = visits.drop_last();
        let last = visits.last();
        let files = declared(visits);
        lemma_declared_directories(rest, d);
        if declares(files, d) {
            let i = choose|i: int| 0 <= i < files.len() && (#[trigger] files[i]).directory == d;
            if i < declared(rest).len() {
                assert(declared(rest)[i] == files[i]);
                assert(declares(declared(rest), d));
                let j = choose|j: int|
                    0 <= j < rest.len() && (#[trigger] rest[j]).directory == d
                        && has_qualifying_child(rest[j].entries);
                assert(visits[j] == rest[j]);
            } else {
                assert(visits[visits.len() - 1].directory == d);
            }
            assert(holds_qualifying(visits, d));
        }
        if holds_qualifying(visits, d) {
            let j = choose|j: int|
                0 <= j < visits.len() && (#[trigger] visits[j]).directory == d
                    && has_qualifying_child(visits[j].entries);
            if j < rest.len() {
                assert(rest[j] == visits[j]);
                assert(holds_qualifying(rest, d));
                let i = choose|i: int|
                    0 <= i < declared(rest).len() && (#[trigger] declared(rest)[i]).directory == d;
                assert(files[i] == declared(rest)[i]);
            } else {
                assert(files[files.len() - 1].directory == d);
            }
            assert(declares(files, d));
        }
    }
}

/// In a walk that does not fail, a directory receives a declaration file if
/// and only if it is a directory of the tree with at least one immediate
/// subdirectory or source file.
pub proof fn lemma_declared_iff_qualifying(
    path: Seq<Seq<char>>,
    entries: Seq<Entry>,
    d: Seq<Seq<char>>,
)
    requires
        walk(path, entries).failure.is_none(),
    ensures
        declares(walk(path, entries).declarations, d) <==> holds_qualifying(
            visited(path, entries),
            d,
        ),
{
    lemma_walk_declares_visited(path, entries);
    lemma_declared_directories(visited(path, entries), d);
}

/// A directory without a subdirectory and without a source file gets no
/// declaration file, and the walk of it succeeds unless one of its entries
/// could not be read or has a name that is not text.
pub proof fn lemma_nothing_to_declare(path: Seq<Seq<char>>, entries: Seq<Entry>)
    requires
        forall|k: int| 0 <= k < entries.len() ==> !qualifies(#[trigger] entries[k]),
        forall|k: int| 0 <= k < entries.len() ==> entry_failure(#[trigger] entries[k]).is_none(),
    ensures
        walk(path, entries).declarations.len() == 0,
        walk(path, entries).failure.is_none(),
{
    lemma_quiet_children(path, entries, entries.len());
    lemma_names_iff_qualifying(entries, entries.len());
}

/// Going through entries of which none qualifies and none stands for a
/// failure writes nothing and does not fail.
pub proof fn lemma_quiet_children(path: Seq<Seq<char>>, entries: Seq<Entry>, n: nat)
    requires
        n <= entries.len(),
        forall|k: int| 0 <= k < entries.len() ==> !qualifies(#[trigger] entries[k]),
        forall|k: int| 0 <= k < entries.len() ==> entry_failure(#[trigger] entries[k]).is_none(),
    ensures
        children_upto(path, entries, n).declarations.len() == 0,
        children_upto(path, entries, n).failure.is_none(),
    decreases n,
{
    if n > 0 {
        lemma_quiet_children(path, entries, (n - 1) as nat);
        assert(!qualifies(entries[n - 1]));
        assert(entry_failure(entries[n - 1]).is_none());
    }
}

/// The names in a declaration file are those that the directory's entries
/// contribute, each as often as it is contributed, in ascending order.
pub proof fn lemma_declared_names_sorted(entries: Seq<Entry>)
    ensures
        sorted_by(module_names(entries).sort_by(name_order()), name_order()),
        module_names(entries).sort_by(name_order()).to_multiset() == module_names(
            entries,
        ).to_multiset(),
{
    lemma_name_order_total();
    module_names(entries).lemma_sort_by_ensures(name_order());
}

/// Two listings that contribute the same names, each as often, give the same
/// declaration text.
pub proof fn lemma_text_depends_on_names(first: Seq<Entry>, second: Seq<Entry>)
    requires
        module_names(first).to_multiset() == module_names(second).to_multiset(),
    ensures
        declaration_text(module_names(first)) == declaration_text(module_names(second)),
{
    lemma_name_order_total();
    module_names(first).lemma_sort_by_ensures(name_order());
    module_names(second).lemma_sort_by_ensures(name_order());
    vstd::seq_lib::lemma_sorted_unique(
        module_names(first).sort_by(name_order()),
        module_names(second).sort_by(name_order()),
        name_order(),
    );
}

/// Whether two names, each text or not, are the same.
pub open spec fn same_name(a: Option<String>, b: Option<String>) -> bool {
    match (a, b) {
        (Some(x), Some(y)) => x@ == y@,
        (None, None) => true,
        _ => false,
    }
}

/// Whether the first `n` entries of two listings are the same, one by one:
/// of the same kind, with the same name, and, for directories, with the
/// same listing below.
pub open spec fn same_upto(a: Seq<Entry>, b: Seq<Entry>, n: nat) -> bool
    decreases a, n,
{
    if n == 0 {
        true
    } else if n > a.len() || n > b.len() {
        false
    } else {
        &&& same_upto(a, b, (n - 1) as nat)
        &&& match (a[n - 1], b[n - 1]) {
            (
                Entry::Directory { name: na, entries: ea },
                Entry::Directory { name: nb, entries: eb },
            ) => same_name(na, nb) && ea@.len() == eb@.len() && same_upto(ea@, eb@, ea@.len()),
            (Entry::File { name: na }, Entry::File { name: nb }) => same_name(na, nb),
            (Entry::Other, Entry::Other) => true,
            (Entry::Unreadable { class: ca }, Entry::Unreadable { class: cb }) => ca == cb,
            _ => false,
        }
    }
}

/// Whether two listings show the same tree, entry by entry in the same
/// order.
pub open spec fn same_tree(a: Seq<Entry>, b: Seq<Entry>) -> bool {
    a.len() == b.len() && same_upto(a, b, a.len())
}

/// As far as two listings are the same, the walks of them do the same and
/// collect the same modules.
pub proof fn lemma_same_children(path: Seq<Seq<char>>, a: Seq<Entry>, b: Seq<Entry>, n: nat)
    requires
        n <= a.len(),
        n <= b.len(),
        same_upto(a, b, n),
    ensures
        children_upto(path, a, n) == children_upto(path, b, n),
        names_upto(a, n) == names_upto(b, n),
    decreases a, n,
{
    if n > 0 {
        lemma_same_children(path, a, b, (n - 1) as nat);
        match (a[n - 1], b[n - 1]) {
            (
                Entry::Directory { name: Some(na), entries: ea },
                Entry::Directory { name: Some(nb), entries: eb },
            ) => {
                lemma_same_walk(path.push(na@), ea@, eb@);
            },
            _ => {},
        }
    }
}

/// Walks of two listings that show the same tree, entry by entry in the same
/// order, write the same declaration files with the same text, in the same
/// order, and end the same way.
pub proof fn lemma_same_walk(path: Seq<Seq<char>>, a: Seq<Entry>, b: Seq<Entry>)
    requires
        same_tree(a, b),
    ensures
        walk(path, a) == walk(path, b),
    decreases a, a.len() + 1,
{
    lemma_same_children(path, a, b, a.len());
}

/// Whether an entry is a regular file with the declaration file's name.
pub open spec fn is_declaration_file(e: Entry) -> bool {
    match e {
        Entry::File { name: Some(n) } => n@ == declaration_file_name(),
        _ => false,
    }
}

/// Whether the first `nb` entries of the listing `b` are the first `na`
/// entries of the listing `a`, one by one in the same order, but for
/// declaration files that `b` holds in addition, at any place; and, for
/// each pair of directories, the same of their listings in full.
pub open spec fn rerun_upto(a: Seq<Entry>, na: nat, b: Seq<Entry>, nb: nat) -> bool
    decreases b, nb,
{
    if nb == 0 {
        na == 0
    } else if nb > b.len() || na > a.len() {
        false
    } else {
        ||| (is_declaration_file(b[nb - 1]) && rerun_upto(a, na, b, (nb - 1) as nat))
        ||| {
            &&& na > 0
            &&& rerun_upto(a, (na - 1) as nat, b, (nb - 1) as nat)
            &&& match (a[na - 1], b[nb - 1]) {
                (
                    Entry::Directory { name: x, entries: ea },
                    Entry::Directory { name: y, entries: eb },
                ) => same_name(x, y) && rerun_upto(ea@, ea@.len(), eb@, eb@.len()),
                (Entry::File { name: x }, Entry::File { name: y }) => same_name(x, y),
                (Entry::Other, Entry::Other) => true,
                (Entry::Unreadable { class: ca }, Entry::Unreadable { class: cb }) => ca == cb,
                _ => false,
            }
        }
    }
}

/// Whether the listing `second` shows the tree of `first` as runs leave it:
/// the same entries in the same order, with declaration files added in any
/// of its directories. That is so in particular where `second` is `first`
/// with a declaration file added to each directory that a walk of `first`
/// declares.
pub open spec fn rerun_of(first: Seq<Entry>, second: Seq<Entry>) -> bool {
    rerun_upto(first, first.len(), second, second.len())
}

/// Declaration files that were added to a listing change neither what the
/// walk does on the way through it nor the modules that it collects.
pub proof fn lemma_rerun_children(
    path: Seq<Seq<char>>,
    a: Seq<Entry>,
    na: nat,
    b: Seq<Entry>,
    nb: nat,
)
    requires
        rerun_upto(a, na, b, nb),
    ensures
        na <= a.len(),
        nb <= b.len(),
        children_upto(path, b, nb) == children_upto(path, a, na),
        names_upto(b, nb) == names_upto(a, na),
    decreases b, nb,
{
    if nb > 0 {
        if is_declaration_file(b[nb - 1]) && rerun_upto(a, na, b, (nb - 1) as nat) {
            lemma_rerun_children(path, a, na, b, (nb - 1) as nat);
            assert(contribution(b[nb - 1]).is_none());
            assert(entry_failure(b[nb - 1]).is_none());
        } else {
            lemma_rerun_children(path, a, (na - 1) as nat, b, (nb - 1) as nat);
            match (a[na - 1], b[nb - 1]) {
                (
                    Entry::Directory { name: Some(x), entries: ea },
                    Entry::Directory { name: Some(y), entries: eb },
                ) => {
                    lemma_rerun_walk(path.push(x@), ea@, eb@);
                },
                _ => {},
            }
        }
    }
}

/// A run on the tree that an earlier run left behind does what the earlier
/// run did: the declaration files that were written since, wherever they
/// stand in the listings, change nothing, so the same files are written again
/// with the same text, in the same order, and the walk ends the same way.
pub proof fn lemma_rerun_walk(path: Seq<Seq<char>>, first: Seq<Entry>, second: Seq<Entry>)
    requires
        rerun_of(first, second),
    ensures
        walk(path, second) == walk(path, first),
    decreases second, second.len() + 1,
{
    lemma_rerun_children(path, first, first.len(), second, second.len());
}

/// Two listings that agree entry for entry on their first `n` entries are
/// reruns of one another that far, with nothing added.
pub proof fn lemma_rerun_unchanged(a: Seq<Entry>, b: Seq<Entry>, n: nat)
    requires
        n <= a.len(),
        n <= b.len(),
        forall|i: int| 0 <= i < n ==> a[i] == b[i],
    ensures
        rerun_upto(a, n, b, n),
    decreases b, n,
{
    if n > 0 {
        lemma_rerun_unchanged(a, b, (n - 1) as nat);
        match b[n - 1] {
            Entry::Directory { name, entries } => {
                lemma_rerun_unchanged(entries@, entries@, entries@.len());
            },
            _ => {},
        }
    }
}

/// A declaration file that is added to a listing changes nothing of the
/// walk, whatever else the listing holds: where a first run declares a
/// directory and leaves the declaration file in it, the second run lists
/// that file too and writes what the first wrote.
pub proof fn lemma_declaration_file_changes_nothing(
    path: Seq<Seq<char>>,
    first: Seq<Entry>,
    added: Entry,
)
    requires
        is_declaration_file(added),
    ensures
        walk(path, first.push(added)) == walk(path, first),
{
    let second = first.push(added);
    lemma_rerun_unchanged(first, second, first.len());
    assert(second[second.len() - 1] == added);
    assert(rerun_upto(first, first.len(), second, second.len()));
    lemma_rerun_walk(path, first, second);
}

/// What a whole run does, from the arguments that follow the program's name
/// and from what the file system holds, given as the listing that is found
/// under each root: refused arguments end it before anything is listed;
/// else the tree under the one root is walked.
pub open spec fn run(args: Seq<Seq<char>>, listed: spec_fn(Seq<char>) -> Seq<Entry>) -> OutcomeView {
    match root_of(args) {
        Ok(root) => walk(Seq::empty(), listed(root)),
        Err(failure) => OutcomeView { declarations: Seq::empty(), failure: Some(failure) },
    }
}

/// A run with no argument or with more than one fails as invalid input
/// whatever the file system holds, and writes no declaration file.
pub proof fn lemma_wrong_argument_count_is_refused(
    args: Seq<Seq<char>>,
    listed: spec_fn(Seq<char>) -> Seq<Entry>,
)
    requires
        args.len() != 1,
    ensures
        root_of(args).is_err(),
        run(args, listed) == (OutcomeView {
            declarations: Seq::empty(),
            failure: Some(
                FailureView { kind: FailureKind::InvalidInput, directory: Seq::empty() },
            ),
        }),
{
}

/// A run with exactly one argument walks the tree under the root that the
/// argument names.
pub proof fn lemma_one_argument_is_walked(
    args: Seq<Seq<char>>,
    listed: spec_fn(Seq<char>) -> Seq<Entry>,
)
    requires
        args.len() == 1,
    ensures
        run(args, listed) == walk(Seq::empty(), listed(args[0])),
{
}

/// What each of the first `n` entries contributes, in listing order.
pub open spec fn contributions_upto(entries: Seq<Entry>, n: nat) -> Seq<Option<Seq<char>>> {
    Seq::new(n, |i: int| contribution(entries[i]))
}

/// What each entry of a listing contributes, in listing order.
pub open spec fn contributions(entries: Seq<Entry>) -> Seq<Option<Seq<char>>> {
    contributions_upto(entries, entries.len())
}

/// A name is among the modules of a listing as often as an entry
/// contributes it.
pub proof fn lemma_names_count(entries: Seq<Entry>, n: nat, m: Seq<char>)
    requires
        n <= entries.len(),
    ensures
        names_upto(entries, n).to_multiset().count(m) == contributions_upto(
            entries,
            n,
        ).to_multiset().count(Some(m)),
    decreases n,
{
    broadcast use vstd::seq_lib::group_to_multiset_ensures;

    if n == 0 {
        assert(names_upto(entries, n) =~= Seq::<Seq<char>>::empty());
        assert(contributions_upto(entries, n) =~= Seq::<Option<Seq<char>>>::empty());
    } else {
        let before = (n - 1) as nat;
        lemma_names_count(entries, before, m);
        assert(contributions_upto(entries, n) =~= contributions_upto(entries, before).push(
            contribution(entries[n - 1]),
        ));
    }
}

/// The text of a directory's declaration file does not depend on the order
/// in which the directory was listed: two listings whose entries contribute
/// the same, each as often, give the same text.
pub proof fn lemma_text_ignores_listing_order(first: Seq<Entry>, second: Seq<Entry>)
    requires
        contributions(first).to_multiset() == contributions(second).to_multiset(),
    ensures
        declaration_text(module_names(first)) == declaration_text(module_names(second)),
{
    assert forall|m: Seq<char>|
        module_names(first).to_multiset().count(m) == module_names(second).to_multiset().count(
            m,
        ) by {
        lemma_names_count(first, first.len(), m);
        lemma_names_count(second, second.len(), m);
    }
    assert(module_names(first).to_multiset() =~= module_names(second).to_multiset());
    lemma_text_depends_on_names(first, second);
}

} // verus!
