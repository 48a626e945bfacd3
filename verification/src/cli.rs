//! The program's one argument.

use vstd::prelude::*;
use crate::names::texts;
use crate::tree::{Failure, FailureKind, FailureView};

verus! {

/// What the arguments that follow the program's name ask for: the root
/// directory where there is exactly one, and a refusal as invalid input for
/// any other number.
pub open spec fn root_of(args: Seq<Seq<char>>) -> Result<Seq<char>, FailureView> {
    if args.len() == 1 {
        Ok(args[0])
    } else {
        Err(FailureView { kind: FailureKind::InvalidInput, directory: Seq::empty() })
    }
}

/// The root directory named by the arguments that follow the program's
/// name: there has to be exactly one. Any other number is refused as
/// invalid input, before anything is read or written.
pub fn root_argument(args: &Vec<String>) -> (r: Result<String, Failure>)
    ensures
        match r {
            Ok(root) => root_of(texts(args@)) == Ok::<Seq<char>, FailureView>(root@),
            Err(failure) => root_of(texts(args@)) == Err::<Seq<char>, FailureView>(failure@),
        },
{
    if args.len() == 1 {
        Ok(args[0].clone())
    } else {
        let directory: Vec<String> = Vec::new();
        proof {
            assert(texts(directory@) =~= Seq::<Seq<char>>::empty());
        }
        Err(Failure { kind: FailureKind::InvalidInput, directory })
    }
}

} // verus!
