//! `#[derive(Extractor)]`: what `extract_from` is generated from - the `#[source(..)]` node, and
//! for each field where it comes from (`#[from]` / `#[with]`) and how many of it there are.

use vstd::prelude::*;
use vstd::string::*;
use proc_macro2::TokenStream;
use crate::derive::{
    child_of, find_one, find_one_spec, not_an_expression, source_type, source_type_spec,
    unnamed_field, written_twice, Arity, ChildOf, DataModel, DeriveModel, FieldModel, FieldsModel,
    not_extracted, extracted_site, extracted_holder, generic_of, type_arity,
    lemma_child_is_the_extracted_t,
};
use crate::tokens::{
    attr_expr_parse, complaint, error_new_spanned, one_over, tokens_clone, Complaint,
};

verus! {

broadcast use vstd::string::group_string_axioms;

/// How a field reaches its children.
pub enum Reach {
    /// `#[from(expr)]`: an expression evaluated with `source` in scope.
    From(TokenStream),
    /// `#[with(callable)]`: a callable applied to `source`.
    With(TokenStream),
}

/// One generated field: its name, how it is reached, and which extractor method its arity picks.
pub struct ExtractorField {
    pub ident: String,
    pub reach: Reach,
    pub arity: Arity,
    /// The `T` of `Extracted<T, I>`, as written.
    pub extractor: TokenStream,
}

/// Everything `#[derive(Extractor)]` emits is generated from this.
pub struct ExtractorPlan {
    /// The node the extraction reads.
    pub source: TokenStream,
    pub fields: Vec<ExtractorField>,
    /// The lifetime the extraction borrows the syntax tree for.
    pub lifetime: TokenStream,
}

/// A field's plan, as plain values.
pub struct FieldView {
    pub ident: Seq<char>,
    pub reach: Reach,
    pub arity: Arity,
    pub extractor: TokenStream,
}

pub open spec fn missing_source() -> Seq<char> {
    "`#[derive(Extractor)]` needs `#[source(Ty)]` naming the syn node it reads - without it a `#[from]` expression has no typed `source` to be written against"@
}

pub open spec fn not_a_struct() -> Seq<char> {
    "`#[derive(Extractor)]` describes a struct of extracted children"@
}

pub open spec fn not_named() -> Seq<char> {
    "`#[derive(Extractor)]` needs named fields - each one names where it comes from"@
}

pub open spec fn both_reaches() -> Seq<char> {
    "`#[from(..)]` and `#[with(..)]` are alternatives - `from` is an expression evaluated with `source` in scope, `with` is a callable applied to it"@
}

pub open spec fn no_reach() -> Seq<char> {
    "every field needs `#[from(..)]` or `#[with(..)]` - an extraction declares WHERE each child comes from"@
}

pub open spec fn no_lifetime() -> Seq<char> {
    "an extraction borrows from the AST, so it needs a lifetime parameter"@
}

/// What one field generates, or the first complaint about it, in the order they are checked.
pub open spec fn field_spec(f: FieldModel) -> Result<FieldView, Complaint> {
    match f.ident {
        None => Err(one_over(unnamed_field(), f.tokens)),
        Some(ident) => match find_one_spec(f.attrs@, "from"@) {
            Err(j) => Err(one_over(written_twice("from"@), f.attrs@[j].tokens)),
            Ok(from) => match find_one_spec(f.attrs@, "with"@) {
                Err(j) => Err(one_over(written_twice("with"@), f.attrs@[j].tokens)),
                Ok(with) => {
                    let reach: Result<Reach, Complaint> = match (from, with) {
                        (Some(_), Some(w)) => Err(one_over(both_reaches(), f.attrs@[w].tokens)),
                        (Some(i), None) => match attr_expr_parse(f.attrs@[i].attr) {
                            Ok(e) => Ok(Reach::From(e)),
                            Err(_) => Err(one_over(not_an_expression(), f.attrs@[i].tokens)),
                        },
                        (None, Some(i)) => match attr_expr_parse(f.attrs@[i].attr) {
                            Ok(e) => Ok(Reach::With(e)),
                            Err(_) => Err(one_over(not_an_expression(), f.attrs@[i].tokens)),
                        },
                        (None, None) => Err(one_over(no_reach(), f.tokens)),
                    };
                    match reach {
                        Err(m) => Err(m),
                        Ok(reach) => match child_of(f.ty) {
                            None => Err(one_over(not_extracted(), extracted_site(f.ty))),
                            Some((arity, extractor)) => Ok(
                                FieldView { ident: ident@, reach, arity, extractor: extractor.tokens },
                            ),
                        },
                    }
                },
            },
        },
    }
}

/// Every field's plan, or the first complaint.
pub open spec fn fields_spec(fs: Seq<FieldModel>) -> Result<Seq<FieldView>, Complaint>
    decreases fs.len(),
{
    if fs.len() == 0 {
        Ok(Seq::empty())
    } else {
        match fields_spec(fs.drop_last()) {
            Err(m) => Err(m),
            Ok(done) => match field_spec(fs.last()) {
                Err(m) => Err(m),
                Ok(v) => Ok(done.push(v)),
            },
        }
    }
}

/// The fields are accepted exactly when each is accepted on its own, and then each field's plan
/// is its own reading, in field order.
pub proof fn lemma_fields_accepted(fs: Seq<FieldModel>)
    ensures
        fields_spec(fs) is Ok <==> forall|i: int| 0 <= i < fs.len() ==> (#[trigger] field_spec(fs[i])) is Ok,
        fields_spec(fs) matches Ok(v) ==> v.len() == fs.len() && forall|i: int|
            0 <= i < fs.len() ==> field_spec(fs[i]) == Ok::<FieldView, Complaint>(#[trigger] v[i]),
    decreases fs.len(),
{
    if fs.len() > 0 {
        let rest = fs.drop_last();
        lemma_fields_accepted(rest);
        assert forall|i: int| 0 <= i < rest.len() implies rest[i] == fs[i] by {}
        if !(fields_spec(rest) is Ok) {
            let i = choose|i: int| 0 <= i < rest.len() && !(#[trigger] field_spec(rest[i]) is Ok);
            assert(!(field_spec(fs[i]) is Ok));
        }
    }
}

/// Each planned field calls the extractor its type names - the `T` of the `Extracted<T, I>` it
/// holds, inside a `Vec`, inside an `Option` or bare - with the arity its type declares.
pub proof fn lemma_field_extractor_is_the_extracted_t(f: FieldModel)
    ensures
        field_spec(f) matches Ok(v) ==> v.arity == type_arity(f.ty) && (generic_of(
            extracted_holder(f.ty),
            "Extracted"@,
        ) matches Some(x) && v.extractor == x.tokens),
{
    lemma_child_is_the_extracted_t(f.ty);
}

/// The plan of an accepted item has one entry per field, in field order, and each calls the `T`
/// of the `Extracted<T, I>` its field holds, with the arity the field's type declares.
pub proof fn lemma_plan_extractors(m: DeriveModel)
    ensures
        extractor_spec(m) matches Ok((source, views, lifetime)) ==> (m.data matches DataModel::Struct(
            FieldsModel::Named(fs),
        ) && views.len() == fs@.len() && forall|i: int|
            0 <= i < fs@.len() ==> (#[trigger] views[i]).arity == type_arity(fs@[i].ty) && (generic_of(
                extracted_holder(fs@[i].ty),
                "Extracted"@,
            ) matches Some(x) && views[i].extractor == x.tokens)),
{
    if let DataModel::Struct(FieldsModel::Named(fs)) = m.data {
        lemma_fields_accepted(fs@);
        if let Ok(views) = fields_spec(fs@) {
            assert forall|i: int| 0 <= i < fs@.len() implies (#[trigger] views[i]).arity == type_arity(
                fs@[i].ty,
            ) && (generic_of(extracted_holder(fs@[i].ty), "Extracted"@) matches Some(x)
                && views[i].extractor == x.tokens) by {
                lemma_field_extractor_is_the_extracted_t(fs@[i]);
                assert(field_spec(fs@[i]) == Ok::<FieldView, Complaint>(views[i]));
            }
        }
    }
}

/// `#[derive(Extractor)]` accepts an item exactly when `#[source(..)]` is written once and reads
/// as a type, the item is a struct with named fields, every field is accepted on its own, and the
/// item has a lifetime parameter.
pub proof fn lemma_extractor_accepts(m: DeriveModel)
    ensures
        extractor_spec(m) is Ok <==> {
            &&& source_type_spec(m.attrs@, missing_source(), m.ident_tokens) is Ok
            &&& m.data matches DataModel::Struct(FieldsModel::Named(fs)) && forall|i: int|
                0 <= i < fs@.len() ==> (#[trigger] field_spec(fs@[i])) is Ok
            &&& m.lifetime is Some
        },
{
    match m.data {
        DataModel::Struct(FieldsModel::Named(fs)) => lemma_fields_accepted(fs@),
        _ => {},
    }
}

/// Whether an executed field plan is the specified one.
pub open spec fn field_matches(f: ExtractorField, v: FieldView) -> bool {
    f.ident@ == v.ident && f.reach == v.reach && f.arity == v.arity && f.extractor == v.extractor
}

/// What `#[derive(Extractor)]` reads off an item, or the first complaint about it.
pub open spec fn extractor_spec(m: DeriveModel) -> Result<(TokenStream, Seq<FieldView>, TokenStream), Complaint> {
    match source_type_spec(m.attrs@, missing_source(), m.ident_tokens) {
        Err(e) => Err(e),
        Ok(source) => match m.data {
            DataModel::Struct(FieldsModel::Named(fs)) => match fields_spec(fs@) {
                Err(e) => Err(e),
                Ok(views) => match m.lifetime {
                    Some(l) => Ok((source, views, l)),
                    None => Err(one_over(no_lifetime(), m.ident_tokens)),
                },
            },
            DataModel::Struct(_) => Err(one_over(not_named(), m.ident_tokens)),
            _ => Err(one_over(not_a_struct(), m.ident_tokens)),
        },
    }
}

fn plan_field(field: &FieldModel) -> (r: Result<ExtractorField, syn::Error>)
    ensures
        match r {
            Ok(f) => field_spec(*field) matches Ok(v) && field_matches(f, v),
            Err(e) => field_spec(*field) == Err::<FieldView, Complaint>(complaint(e)),
        },
{
    let ident = field.named_ident()?;
    let from = find_one(field.attrs.as_slice(), "from")?;
    let with = find_one(field.attrs.as_slice(), "with")?;
    let reach = match (from, with) {
        (Some(_), Some(other)) => {
            return Err(error_new_spanned(
                &field.attrs[other].tokens,
                "`#[from(..)]` and `#[with(..)]` are alternatives - `from` is an expression evaluated with `source` in scope, `with` is a callable applied to it",
            ));
        },
        (Some(i), None) => Reach::From(field.attrs[i].expr_arg()?),
        (None, Some(i)) => Reach::With(field.attrs[i].expr_arg()?),
        (None, None) => {
            return Err(error_new_spanned(
                &field.tokens,
                "every field needs `#[from(..)]` or `#[with(..)]` - an extraction declares WHERE each child comes from",
            ));
        },
    };
    let child = ChildOf::of(&field.ty)?;
    Ok(ExtractorField {
        ident: ident.clone(),
        reach,
        arity: child.arity,
        extractor: tokens_clone(&child.extractor.tokens),
    })
}

/// Read an item for `#[derive(Extractor)]`: its source, every field's reach and arity, its
/// lifetime - or the first complaint, spanned where the author can act on it.
pub fn plan_extractor(input: &DeriveModel) -> (r: Result<ExtractorPlan, syn::Error>)
    ensures
        match r {
            Ok(p) => extractor_spec(*input) matches Ok((source, views, lifetime)) && p.source == source
                && p.lifetime == lifetime && p.fields@.len() == views.len() && forall|i: int|
                0 <= i < views.len() ==> field_matches(#[trigger] p.fields@[i], views[i]),
            Err(e) => extractor_spec(*input) == Err::<(TokenStream, Seq<FieldView>, TokenStream), Complaint>(
                complaint(e),
            ),
        },
{
    let source = source_type(
        input,
        "`#[derive(Extractor)]` needs `#[source(Ty)]` naming the syn node it reads - without it a `#[from]` expression has no typed `source` to be written against",
    )?;
    let fields = match &input.data {
        DataModel::Struct(FieldsModel::Named(fields)) => fields,
        DataModel::Struct(_) => {
            return Err(error_new_spanned(
                &input.ident_tokens,
                "`#[derive(Extractor)]` needs named fields - each one names where it comes from",
            ));
        },
        _ => {
            return Err(error_new_spanned(
                &input.ident_tokens,
                "`#[derive(Extractor)]` describes a struct of extracted children",
            ));
        },
    };
    let mut planned: Vec<ExtractorField> = Vec::new();
    let mut i: usize = 0;
    while i < fields.len()
        invariant
            i <= fields@.len(),
            source_type_spec(input.attrs@, missing_source(), input.ident_tokens) == Ok::<
                TokenStream,
                Complaint,
            >(source),
            input.data == DataModel::Struct(FieldsModel::Named(*fields)),
            fields_spec(fields@.take(i as int)) matches Ok(views) && planned@.len() == views.len()
                && forall|j: int| 0 <= j < views.len() ==> field_matches(#[trigger] planned@[j], views[j]),
        decreases fields@.len() - i,
    {
        proof {
            assert(fields@.take(i + 1).drop_last() =~= fields@.take(i as int));
            assert(fields@.take(i + 1).last() == fields@[i as int]);
        }
        let field = plan_field(&fields[i]);
        match field {
            Ok(f) => planned.push(f),
            Err(e) => {
                proof {
                    assert(fields_spec(fields@.take(i + 1)) == Err::<Seq<FieldView>, Complaint>(
                        complaint(e),
                    ));
                    lemma_fields_error_stays(fields@, i as int + 1);
                    assert(fields_spec(fields@) == Err::<Seq<FieldView>, Complaint>(
                        complaint(e),
                    ));
                }
                return Err(e);
            },
        }
        i = i + 1;
    }
    proof {
        assert(fields@.take(fields@.len() as int) =~= fields@);
    }
    let lifetime = crate::derive::lifetime_of(
        input,
        "an extraction borrows from the AST, so it needs a lifetime parameter",
    )?;
    Ok(ExtractorPlan { source, fields: planned, lifetime })
}

/// The first complaint about a prefix of the fields is the first complaint about all of them.
proof fn lemma_fields_error_stays(fs: Seq<FieldModel>, n: int)
    requires
        0 <= n <= fs.len(),
        fields_spec(fs.take(n)) is Err,
    ensures
        fields_spec(fs) == fields_spec(fs.take(n)),
    decreases fs.len(),
{
    if n < fs.len() {
        assert(fs.drop_last().take(n) =~= fs.take(n));
        lemma_fields_error_stays(fs.drop_last(), n);
    } else {
        assert(fs.take(n) =~= fs);
    }
}

} // verus!
