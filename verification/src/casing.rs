//! Case conversions used for generated type and file names.
//!
//! The conversions themselves are done by the `voca_rs` crate; their results
//! are pure functions of the input characters, named here by uninterpreted
//! spec functions so that contracts can speak of them exactly.

use vstd::prelude::*;

verus! {

/// The character sequence `voca_rs::case::pascal_case` produces for `s`.
pub uninterp spec fn pascal_of(s: Seq<char>) -> Seq<char>;

/// The character sequence `voca_rs::case::kebab_case` produces for `s`.
pub uninterp spec fn kebab_of(s: Seq<char>) -> Seq<char>;

/// Relies on `voca_rs::case::pascal_case`: the result depends on the
/// characters of `s` alone.
#[verifier::external_body]
pub fn pascal_case(s: &str) -> (r: String)
    ensures
        r@ == pascal_of(s@),
{
    voca_rs::case::pascal_case(s)
}

/// Relies on `voca_rs::case::kebab_case`: the result depends on the
/// characters of `s` alone.
#[verifier::external_body]
pub fn kebab_case(s: &str) -> (r: String)
    ensures
        r@ == kebab_of(s@),
{
    voca_rs::case::kebab_case(s)
}

} // verus!
