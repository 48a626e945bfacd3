//! Module names: their order, and how a file name yields one.

use vstd::prelude::*;
use vstd::relations::*;
use vstd::string::*;

verus! {

/// Lexicographic order on texts, character by character by code point; a
/// proper prefix comes before the longer text.
pub open spec fn lex_le(a: Seq<char>, b: Seq<char>) -> bool
    decreases a.len(),
{
    if a.len() == 0 {
        true
    } else if b.len() == 0 {
        false
    } else if a[0] != b[0] {
        a[0] < b[0]
    } else {
        lex_le(a.drop_first(), b.drop_first())
    }
}

/// The order in which names appear in a declaration file.
pub open spec fn name_order() -> spec_fn(Seq<char>, Seq<char>) -> bool {
    |a: Seq<char>, b: Seq<char>| lex_le(a, b)
}

/// Every text is at most itself.
pub proof fn lemma_lex_le_reflexive(a: Seq<char>)
    ensures
        lex_le(a, a),
    decreases a.len(),
{
    if a.len() > 0 {
        lemma_lex_le_reflexive(a.drop_first());
    }
}

/// Two texts that are each at most the other are the same text.
pub proof fn lemma_lex_le_antisymmetric(a: Seq<char>, b: Seq<char>)
    requires
        lex_le(a, b),
        lex_le(b, a),
    ensures
        a == b,
    decreases a.len(),
{
    if a.len() == 0 || b.len() == 0 {
        assert(a =~= b);
    } else {
        lemma_lex_le_antisymmetric(a.drop_first(), b.drop_first());
        assert(a =~= seq![a[0]] + a.drop_first());
        assert(b =~= seq![b[0]] + b.drop_first());
    }
}

/// The order carries over a text in the middle.
pub proof fn lemma_lex_le_transitive(a: Seq<char>, b: Seq<char>, c: Seq<char>)
    requires
        lex_le(a, b),
        lex_le(b, c),
    ensures
        lex_le(a, c),
    decreases a.len(),
{
    if a.len() > 0 && a[0] == b[0] && b[0] == c[0] {
        lemma_lex_le_transitive(a.drop_first(), b.drop_first(), c.drop_first());
    }
}

/// Of any two texts one is at most the other.
pub proof fn lemma_lex_le_connected(a: Seq<char>, b: Seq<char>)
    ensures
        lex_le(a, b) || lex_le(b, a),
    decreases a.len(),
{
    if a.len() > 0 && b.len() > 0 && a[0] == b[0] {
        lemma_lex_le_connected(a.drop_first(), b.drop_first());
    }
}

/// The order of names is total: any two texts compare, and two that compare
/// both ways are the same text.
pub proof fn lemma_name_order_total()
    ensures
        total_ordering(name_order()),
{
    let r = name_order();
    assert forall|x: Seq<char>| #[trigger] r(x, x) by {
        lemma_lex_le_reflexive(x);
    }
    assert forall|x: Seq<char>, y: Seq<char>| #[trigger] r(x, y) && #[trigger] r(y, x) implies x
        == y by {
        lemma_lex_le_antisymmetric(x, y);
    }
    assert forall|x: Seq<char>, y: Seq<char>, z: Seq<char>| #[trigger] r(x, y) && #[trigger] r(
        y,
        z,
    ) implies r(x, z) by {
        lemma_lex_le_transitive(x, y, z);
    }
    assert forall|x: Seq<char>, y: Seq<char>| #[trigger] r(x, y) || #[trigger] r(y, x) by {
        lemma_lex_le_connected(x, y);
    }
}

/// The texts of a list of strings, in the list's order.
pub open spec fn texts(v: Seq<String>) -> Seq<Seq<char>> {
    Seq::new(v.len(), |i: int| v[i]@)
}

/// A copy of a list of names.
pub fn clone_names(names: &Vec<String>) -> (r: Vec<String>)
    ensures
        texts(r@) == texts(names@),
{
    let mut out: Vec<String> = Vec::new();
    let mut i: usize = 0;
    while i < names.len()
        invariant
            i <= names.len(),
            out@.len() == i,
            forall|j: int| 0 <= j < i ==> out@[j]@ == names@[j]@,
        decreases names.len() - i,
    {
        out.push(names[i].clone());
        i += 1;
    }
    proof {
        assert(texts(out@) =~= texts(names@));
    }
    out
}

/// The path of the subdirectory `name` of the directory `path`.
pub fn child_path(path: &Vec<String>, name: &String) -> (r: Vec<String>)
    ensures
        texts(r@) == texts(path@).push(name@),
{
    let mut out = clone_names(path);
    proof {
        assert(texts(out@.push(*name)) =~= texts(out@).push(name@));
    }
    out.push(name.clone());
    out
}

/// The name of the declaration file inside the directory that it describes.
pub open spec fn declaration_file_name() -> Seq<char> {
    "mod.rs"@
}

/// Whether a file of this name is a source file: it ends in `.rs` and has at
/// least one character before that suffix.
pub open spec fn is_source_name(name: Seq<char>) -> bool {
    &&& name.len() > 3
    &&& name[name.len() - 3] == '.'
    &&& name[name.len() - 2] == 'r'
    &&& name[name.len() - 1] == 's'
}

/// A source file's name without its `.rs` suffix.
pub open spec fn stem(name: Seq<char>) -> Seq<char> {
    name.subrange(0, name.len() - 3)
}

/// The module that a regular file of this name contributes, if any: the
/// stem of a source file. The declaration file is no module of its own
/// directory, so a file that an earlier run wrote contributes nothing.
pub open spec fn leaf_module(name: Seq<char>) -> Option<Seq<char>> {
    if is_source_name(name) && name != declaration_file_name() {
        Some(stem(name))
    } else {
        None
    }
}

/// The module that a regular file named `name` contributes: its stem where
/// the name has the source suffix and is not the declaration file's, nothing
/// otherwise.
pub fn source_stem(name: &String) -> (r: Option<String>)
    ensures
        match r {
            Some(s) => leaf_module(name@) == Some(s@),
            None => leaf_module(name@).is_none(),
        },
{
    let text: &str = name.as_str();
    let n: usize = text.unicode_len();
    if n <= 3 {
        return None;
    }
    let own = String::from_str("mod.rs");
    if *name == own {
        return None;
    }
    if text.get_char(n - 3) == '.' && text.get_char(n - 2) == 'r' && text.get_char(n - 1) == 's' {
        Some(String::from_str(text.substring_char(0, n - 3)))
    } else {
        None
    }
}

/// `<[String]>::sort` of std: afterwards the list holds the same strings as
/// before, each as often as before, in ascending order. std orders strings
/// lexicographically by their bytes, which for UTF-8 is the order of their
/// code points.
#[verifier::external_body]
pub(crate) fn sort_names(names: &mut Vec<String>)
    ensures
        texts(final(names)@).to_multiset() == texts(old(names)@).to_multiset(),
        sorted_by(texts(final(names)@), name_order()),
{
    names.sort();
}

} // verus!
