//! The checks that a Zet program must pass before it is compiled.
use vstd::prelude::*;

pub mod determinism;
pub mod scope;
pub mod taint;


verus! {

/// The first of two outcomes that reports an error.
pub open spec fn first_err(a: Option<Seq<char>>, b: Option<Seq<char>>) -> Option<Seq<char>> {
    if a is Some {
        a
    } else {
        b
    }
}

} // verus!
