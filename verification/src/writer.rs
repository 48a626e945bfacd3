//! The text of a declaration file.

use vstd::prelude::*;
use vstd::relations::*;
use vstd::seq_lib::*;
use vstd::string::*;
use crate::names::{child_path, declaration_file_name, lemma_name_order_total, name_order, sort_names, texts};
use crate::tree::{Declaration, DeclarationView};

verus! {

/// The line that declares one module.
pub open spec fn declaration_line(name: Seq<char>) -> Seq<char> {
    "pub mod "@ + name + ";\n"@
}

/// One declaration line per name, in the order given.
pub open spec fn render(names: Seq<Seq<char>>) -> Seq<char>
    decreases names.len(),
{
    if names.len() == 0 {
        Seq::empty()
    } else {
        render(names.drop_last()) + declaration_line(names.last())
    }
}

/// The text of the declaration file for these modules: their lines in
/// ascending order of the names.
pub open spec fn declaration_text(mods: Seq<Seq<char>>) -> Seq<char> {
    render(mods.sort_by(name_order()))
}

/// Names in ascending order that hold the same names as `mods`, each as often,
/// are `mods` sorted.
pub proof fn lemma_sorted_is_sort_by(sorted: Seq<Seq<char>>, mods: Seq<Seq<char>>)
    requires
        sorted_by(sorted, name_order()),
        sorted.to_multiset() == mods.to_multiset(),
    ensures
        sorted == mods.sort_by(name_order()),
{
    lemma_name_order_total();
    mods.lemma_sort_by_ensures(name_order());
    lemma_sorted_unique(sorted, mods.sort_by(name_order()), name_order());
}

impl Declaration {
    /// Where this file is written: the names on the way from the root down
    /// to its directory, then the file's own name.
    pub fn path(&self) -> (r: Vec<String>)
        ensures
            texts(r@) == self@.directory.push(declaration_file_name()),
    {
        let name = String::from_str("mod.rs");
        child_path(&self.directory, &name)
    }
}

/// Writes one declaration line per name, in the order given.
pub fn render_names(names: &Vec<String>) -> (r: String)
    ensures
        r@ == render(texts(names@)),
{
    let mut out = String::new();
    let mut i: usize = 0;
    while i < names.len()
        invariant
            0 <= i <= names.len(),
            out@ == render(texts(names@).take(i as int)),
        decreases names.len() - i,
    {
        proof {
            let next = texts(names@).take(i + 1);
            assert(next.drop_last() =~= texts(names@).take(i as int));
            assert(next.last() == names@[i as int]@);
        }
        out.append("pub mod ");
        out.append(names[i].as_str());
        out.append(";\n");
        i += 1;
    }
    proof {
        assert(texts(names@).take(i as int) =~= texts(names@));
    }
    out
}

/// The declaration file of the directory `path` for the modules `mods`:
/// none where there is no module, else the modules' lines in ascending
/// order.
pub fn gen_interm_mod_rs(path: Vec<String>, mods: Vec<String>) -> (r: Option<Declaration>)
    ensures
        mods@.len() == 0 ==> r.is_none(),
        mods@.len() > 0 ==> r.is_some() && r.unwrap()@ == (DeclarationView {
            directory: texts(path@),
            contents: declaration_text(texts(mods@)),
        }),
{
    if mods.len() == 0 {
        return None;
    }
    let mut sorted = mods;
    sort_names(&mut sorted);
    proof {
        lemma_sorted_is_sort_by(texts(sorted@), texts(mods@));
    }
    let contents = render_names(&sorted);
    Some(Declaration { directory: path, contents })
}

} // verus!
