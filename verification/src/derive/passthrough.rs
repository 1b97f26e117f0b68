//! `#[derive(Validate)]` and `#[derive(Processor)]`: the trivial pass-through impls, which need
//! only the `#[source(..)]` node and the lifetime it is borrowed for.

use vstd::prelude::*;
use proc_macro2::TokenStream;
use crate::derive::{lifetime_of, source_type, source_type_spec, DeriveModel};
use crate::tokens::{complaint, one_over, Complaint};

verus! {

/// The complaint when `#[source(Ty)]` is missing.
pub open spec fn source_missing() -> Seq<char> {
    "`#[source(Ty)]` names the syn node this reads - without it a `#[from]` expression has no typed `source` to be written against"@
}

/// The complaint when the item has no lifetime parameter.
pub open spec fn expected_lifetime() -> Seq<char> {
    "expected a lifetime parameter"@
}

/// What a pass-through impl needs, or the first complaint.
pub open spec fn passthrough_spec(m: DeriveModel) -> Result<(TokenStream, TokenStream), Complaint> {
    match source_type_spec(m.attrs@, source_missing(), m.ident_tokens) {
        Err(e) => Err(e),
        Ok(source) => match m.lifetime {
            Some(l) => Ok((source, l)),
            None => Err(one_over(expected_lifetime(), m.ident_tokens)),
        },
    }
}

/// The source node and lifetime an identity `Validate` or `Processor` is generated from.
pub fn plan_passthrough(input: &DeriveModel) -> (r: Result<(TokenStream, TokenStream), syn::Error>)
    ensures
        match r {
            Ok(p) => passthrough_spec(*input) == Ok::<(TokenStream, TokenStream), Complaint>(p),
            Err(e) => passthrough_spec(*input) == Err::<(TokenStream, TokenStream), Complaint>(
                complaint(e),
            ),
        },
{
    let source = source_type(
        input,
        "`#[source(Ty)]` names the syn node this reads - without it a `#[from]` expression has no typed `source` to be written against",
    )?;
    let lifetime = lifetime_of(input, "expected a lifetime parameter")?;
    Ok((source, lifetime))
}

} // verus!
