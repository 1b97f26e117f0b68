//! The first pipeline's generation: an impl block listing a struct's field names and shapes, built
//! from two child generators so that either one failing leaves the other in the output.

use vstd::prelude::*;
use vstd::string::*;
use crate::base::processor::{ProcessedAttribute, ProcessedField, ProcessedStruct};
use crate::extractor::{Extraction, Reason, ReasonKind};
use crate::generator::{chosen, reasons_view, Generator};
use crate::text::{decimal, to_decimal};
use crate::tokens::{token_text, tokens_to_string};
use crate::vocab::names::SyntaxHelper;
use proc_macro2::Span;

verus! {

broadcast use vstd::string::group_string_axioms;

/// A field's name as the impl lists it: its identifier, or - in a tuple struct - its position.
pub open spec fn field_name(i: int, f: ProcessedField) -> Seq<char> {
    match f.field.ident {
        Some(s) => s@,
        None => decimal(i as nat),
    }
}

/// Every field's name, in order.
pub open spec fn names_spec(fields: Seq<ProcessedField>) -> Seq<Seq<char>> {
    Seq::new(fields.len(), |i: int| field_name(i, fields[i]))
}

/// The first `#[shape(..)]` among a field's helper attributes, after `from`.
pub open spec fn first_shape(attrs: Seq<ProcessedAttribute>, from: int) -> Option<int>
    decreases attrs.len() - from,
{
    if from < 0 || from >= attrs.len() {
        None
    } else if attrs[from].helper == SyntaxHelper::Shape {
        Some(from)
    } else {
        first_shape(attrs, from + 1)
    }
}

/// A field's shape as the impl lists it: the text of its first `#[shape(..)]`, or nothing.
pub open spec fn field_shape(f: ProcessedField) -> Seq<char> {
    match first_shape(f.attrs@, 0) {
        Some(i) => token_text(*f.attrs@[i].tokens),
        None => Seq::empty(),
    }
}

/// Every field's shape, in order.
pub open spec fn shapes_spec(fields: Seq<ProcessedField>) -> Seq<Seq<char>> {
    Seq::new(fields.len(), |i: int| field_shape(fields[i]))
}

/// The text of each string.
pub open spec fn texts(v: Seq<String>) -> Seq<Seq<char>> {
    v.map_values(|s: String| s@)
}

/// The names the impl lists: an identifier per named field, a position per unnamed one.
pub fn field_names(input: &ProcessedStruct) -> (r: Vec<String>)
    ensures
        texts(r@) == names_spec(input.fields@),
{
    let mut out: Vec<String> = Vec::new();
    let mut i: usize = 0;
    while i < input.fields.len()
        invariant
            i <= input.fields@.len(),
            out@.len() == i,
            forall|j: int| 0 <= j < i ==> (#[trigger] out@[j])@ == field_name(j, input.fields@[j]),
        decreases input.fields@.len() - i,
    {
        let name = match &input.fields[i].field.ident {
            Some(ident) => ident.clone(),
            None => to_decimal(i),
        };
        out.push(name);
        i = i + 1;
    }
    assert(texts(out@) =~= names_spec(input.fields@));
    out
}

fn shape_of(attrs: &Vec<ProcessedAttribute>) -> (r: String)
    ensures
        r@ == match first_shape(attrs@, 0) {
            Some(i) => token_text(*attrs@[i].tokens),
            None => Seq::<char>::empty(),
        },
{
    let mut i: usize = 0;
    while i < attrs.len()
        invariant
            i <= attrs@.len(),
            first_shape(attrs@, 0) == first_shape(attrs@, i as int),
        decreases attrs@.len() - i,
    {
        if attrs[i].helper == SyntaxHelper::Shape {
            return tokens_to_string(attrs[i].tokens);
        }
        i = i + 1;
    }
    String::new()
}

/// The shapes the impl lists: the first `#[shape(..)]` of each field, or an empty entry.
pub fn field_shapes(input: &ProcessedStruct) -> (r: Vec<String>)
    ensures
        texts(r@) == shapes_spec(input.fields@),
{
    let mut out: Vec<String> = Vec::new();
    let mut i: usize = 0;
    while i < input.fields.len()
        invariant
            i <= input.fields@.len(),
            out@.len() == i,
            forall|j: int| 0 <= j < i ==> (#[trigger] out@[j])@ == field_shape(input.fields@[j]),
        decreases input.fields@.len() - i,
    {
        out.push(shape_of(&input.fields[i].attrs));
        i = i + 1;
    }
    assert(texts(out@) =~= shapes_spec(input.fields@));
    out
}

/// One of our own failures, as it is reported.
pub open spec fn internal_view(e: syn::Error) -> (ReasonKind, Option<Span>) {
    (ReasonKind::Internal(e), None)
}

/// Whether the composition could have gone this way: `gf` is what the names child built from
/// `names` and `vf` its vacant form when that was needed, `gs`/`vs` the same for the shapes
/// child, and `made` what assembling the two returned.
pub open spec fn composed<F, S, O, A>(
    names: Vec<String>,
    shapes: Vec<String>,
    assemble: A,
    gf: Extraction<F::Output>,
    vf: Result<F::Output, syn::Error>,
    gs: Extraction<S::Output>,
    vs: Result<S::Output, syn::Error>,
    made: Result<O, syn::Error>,
    r: Extraction<O>,
) -> bool where
    F: Generator<Input = Vec<String>, Subject = ()>,
    S: Generator<Input = Vec<String>, Subject = ()>,
    A: FnOnce(F::Output, S::Output) -> Result<O, syn::Error>,
 {
    &&& F::generates(names, gf)
    &&& (gf.value is None ==> F::stubs((), vf))
    &&& match chosen(gf.value, vf) {
        None => vf matches Err(e) && r.value is None && reasons_view(r.reasons@) == reasons_view(
            gf.reasons@,
        ).push(internal_view(e)),
        Some(fi) => {
            &&& S::generates(shapes, gs)
            &&& (gs.value is None ==> S::stubs((), vs))
            &&& match chosen(gs.value, vs) {
                None => vs matches Err(e) && r.value is None && reasons_view(r.reasons@)
                    == reasons_view(gf.reasons@) + reasons_view(gs.reasons@).push(internal_view(e)),
                Some(si) => {
                    &&& call_ensures(assemble, (fi, si), made)
                    &&& match made {
                        Ok(o) => r.value == Some(o) && reasons_view(r.reasons@) == reasons_view(
                            gf.reasons@,
                        ) + reasons_view(gs.reasons@),
                        Err(e) => r.value is None && reasons_view(r.reasons@) == reasons_view(
                            gf.reasons@,
                        ) + reasons_view(gs.reasons@).push(internal_view(e)),
                    }
                },
            }
        },
    }
}

/// Build the impl block for a processed struct from two children: `F` lists the field names,
/// `S` the field shapes, and `assemble` puts the two into the block.
///
/// A child that fails is stubbed and its reasons kept, so its sibling still reaches the output;
/// only a child whose vacant form cannot be built either stops the composition, with that
/// failure recorded as our own.
pub fn generate_block<F, S, O, A>(input: &ProcessedStruct, assemble: A) -> (r: Extraction<O>) where
    F: Generator<Input = Vec<String>, Subject = ()>,
    S: Generator<Input = Vec<String>, Subject = ()>,
    A: FnOnce(F::Output, S::Output) -> Result<O, syn::Error>,

    requires
        forall|a: F::Output, b: S::Output| call_requires(assemble, (a, b)),
    ensures
        exists|
            names: Vec<String>,
            shapes: Vec<String>,
            gf: Extraction<F::Output>,
            vf: Result<F::Output, syn::Error>,
            gs: Extraction<S::Output>,
            vs: Result<S::Output, syn::Error>,
            made: Result<O, syn::Error>,
        |
            #![trigger composed::<F, S, O, A>(names, shapes, assemble, gf, vf, gs, vs, made, r)]
            texts(names@) == names_spec(input.fields@) && texts(shapes@) == shapes_spec(
                input.fields@,
            ) && composed::<F, S, O, A>(names, shapes, assemble, gf, vf, gs, vs, made, r),
{
    let names = field_names(input);
    let shapes = field_shapes(input);
    let ghost nf = names;
    let ghost sf = shapes;
    let ghost joiner = assemble;
    let mut out: Extraction<O> = Extraction::empty();
    let produced = F::generate(names);
    let ghost gf = produced;
    let fields_item = out.absorb(produced);
    let ghost mut vf: Result<F::Output, syn::Error> = arbitrary();
    let fields = match fields_item {
        Some(item) => item,
        None => {
            let vacant = F::stub(());
            proof {
                vf = vacant;
            }
            match vacant {
                Ok(item) => item,
                Err(error) => {
                    let ghost before = out.reasons@;
                    out.reasons.push(Reason::new(ReasonKind::Internal(error)));
                    proof {
                        assert(before =~= gf.reasons@);
                        assert(reasons_view(out.reasons@) =~= reasons_view(gf.reasons@).push(
                            internal_view(error),
                        ));
                        assert(composed::<F, S, O, A>(
                            nf,
                            sf,
                            joiner,
                            gf,
                            vf,
                            arbitrary(),
                            arbitrary(),
                            arbitrary(),
                            out,
                        ));
                    }
                    return out;
                },
            }
        },
    };
    let ghost fi = fields;
    proof {
        assert(out.reasons@ =~= gf.reasons@);
        assert(chosen(gf.value, vf) == Some(fi));
    }
    let produced = S::generate(shapes);
    let ghost gs = produced;
    let shapes_item = out.absorb(produced);
    proof {
        assert(reasons_view(out.reasons@) =~= reasons_view(gf.reasons@) + reasons_view(gs.reasons@));
    }
    let ghost mut vs: Result<S::Output, syn::Error> = arbitrary();
    let shaped = match shapes_item {
        Some(item) => item,
        None => {
            let vacant = S::stub(());
            proof {
                vs = vacant;
            }
            match vacant {
                Ok(item) => item,
                Err(error) => {
                    let ghost before = out.reasons@;
                    out.reasons.push(Reason::new(ReasonKind::Internal(error)));
                    proof {
                        assert(reasons_view(out.reasons@) =~= reasons_view(before).push(
                            internal_view(error),
                        ));
                        assert(reasons_view(out.reasons@) =~= reasons_view(gf.reasons@)
                            + reasons_view(gs.reasons@).push(internal_view(error)));
                        assert(composed::<F, S, O, A>(
                            nf,
                            sf,
                            joiner,
                            gf,
                            vf,
                            gs,
                            vs,
                            arbitrary(),
                            out,
                        ));
                    }
                    return out;
                },
            }
        },
    };
    proof {
        assert(chosen(gs.value, vs) == Some(shaped));
    }
    let made = assemble(fields, shaped);
    let ghost m = made;
    match made {
        Ok(item) => {
            out.value = Some(item);
            proof {
                assert(composed::<F, S, O, A>(nf, sf, joiner, gf, vf, gs, vs, m, out));
            }
            out
        },
        Err(error) => {
            let ghost before = out.reasons@;
            out.reasons.push(Reason::new(ReasonKind::Internal(error)));
            proof {
                assert(reasons_view(out.reasons@) =~= reasons_view(before).push(internal_view(error)));
                assert(reasons_view(out.reasons@) =~= reasons_view(gf.reasons@) + reasons_view(
                    gs.reasons@,
                ).push(internal_view(error)));
                assert(composed::<F, S, O, A>(nf, sf, joiner, gf, vf, gs, vs, m, out));
            }
            out
        },
    }
}

} // verus!
