//! `#[derive(Syntax)]`: a grammar type declares itself. What its node table, its reader and its
//! shape bounds are generated from.

use vstd::prelude::*;
use vstd::string::*;
use proc_macro2::TokenStream;
use crate::case::{kebab_case, lower_camel_case, snake_case, to_kebab_case, to_lower_camel_case, to_snake_case};
use crate::derive::{
    find_one, find_one_spec, generic_of, inner_type, type_arity, unnamed_field, written_twice, Arity, AttrModel,
    DataModel, DeriveModel, FieldModel, FieldsModel,
};
use crate::node;
use crate::tokens::{
    attr_path, attr_path_parse, attr_strings, attr_strings_parse, complaint,
    error_new_spanned, one_over, tokens_clone, Complaint,
};

verus! {

broadcast use vstd::string::group_string_axioms;

/// One declared child of a grammar node.
pub struct GrammarField {
    pub ident: String,
    /// The canonical key: the field's name in snake case.
    pub key: String,
    /// Extra accepted spellings, canonical excluded.
    pub aliases: Vec<String>,
    pub arity: Arity,
    /// The `#[shape(..)]` selector, carried verbatim and never read.
    pub shape: Option<TokenStream>,
    /// What the field reads: `Option<T>` and `Vec<T>` read a `T`.
    pub inner: TokenStream,
}

/// A grammar node, as declared.
pub struct GrammarPlan {
    /// Its entry attribute head - the type's name in snake case.
    pub entry: String,
    pub fields: Vec<GrammarField>,
}

/// One declared child, as plain values.
pub struct GrammarFieldView {
    pub ident: Seq<char>,
    pub key: Seq<char>,
    pub aliases: Seq<Seq<char>>,
    pub arity: Arity,
    pub shape: Option<TokenStream>,
    pub inner: TokenStream,
}

/// The standard alias set: the same name in lower camel case and kebab case, canonical excluded.
pub open spec fn standard_cases_spec(canonical: Seq<char>) -> Seq<Seq<char>> {
    let camel = lower_camel_case(canonical);
    let kebab = kebab_case(canonical);
    (if camel != canonical {
        seq![camel]
    } else {
        Seq::empty()
    }) + (if kebab != canonical {
        seq![kebab]
    } else {
        Seq::empty()
    })
}

/// The views of some strings.
pub open spec fn strings_view(s: Seq<String>) -> Seq<Seq<char>> {
    s.map_values(|x: String| x@)
}

/// What `#[alias]` on a field declares, or the complaint about it.
pub open spec fn aliases_spec(attrs: Seq<AttrModel>, canonical: Seq<char>) -> Result<Seq<Seq<char>>, Complaint> {
    match find_one_spec(attrs, "alias"@) {
        Err(j) => Err(one_over(written_twice("alias"@), attrs[j].tokens)),
        Ok(None) => Ok(Seq::empty()),
        Ok(Some(i)) => if attrs[i].is_path {
            Ok(standard_cases_spec(canonical))
        } else {
            match attr_strings_parse(attrs[i].attr) {
                Ok(v) => Ok(v),
                Err(e) => Err(complaint(e)),
            }
        },
    }
}

/// What `#[shape]` on a field selects, or the complaint about it.
pub open spec fn shape_spec(attrs: Seq<AttrModel>) -> Result<Option<TokenStream>, Complaint> {
    match find_one_spec(attrs, "shape"@) {
        Err(j) => Err(one_over(written_twice("shape"@), attrs[j].tokens)),
        Ok(None) => Ok(None),
        Ok(Some(i)) => match attr_path_parse(attrs[i].attr) {
            Ok(p) => Ok(Some(p)),
            Err(e) => Err(complaint(e)),
        },
    }
}

/// One field's declaration, or the first complaint about it.
pub open spec fn read_spec(f: FieldModel) -> Result<GrammarFieldView, Complaint> {
    match f.ident {
        None => Err(one_over(unnamed_field(), f.tokens)),
        Some(ident) => {
            let key = snake_case(ident@);
            match aliases_spec(f.attrs@, key) {
                Err(e) => Err(e),
                Ok(aliases) => match shape_spec(f.attrs@) {
                    Err(e) => Err(e),
                    Ok(shape) => Ok(
                        GrammarFieldView {
                            ident: ident@,
                            key,
                            aliases,
                            arity: type_arity(f.ty),
                            shape,
                            inner: inner_type(f.ty).tokens,
                        },
                    ),
                },
            }
        },
    }
}

/// Every field's declaration, or the first complaint.
pub open spec fn reads_spec(fs: Seq<FieldModel>) -> Result<Seq<GrammarFieldView>, Complaint>
    decreases fs.len(),
{
    if fs.len() == 0 {
        Ok(Seq::empty())
    } else {
        match reads_spec(fs.drop_last()) {
            Err(m) => Err(m),
            Ok(done) => match read_spec(fs.last()) {
                Err(m) => Err(m),
                Ok(v) => Ok(done.push(v)),
            },
        }
    }
}

/// A field is keyed by its name in snake case, and reads what its type holds, whatever its
/// arity: a `Vec<T>` field reads a `T` per element and is repeated, an `Option<T>` field reads a
/// `T` and is optional, and a field of any other type reads that type, once.
pub proof fn lemma_field_reads_what_its_type_holds(f: FieldModel)
    ensures
        read_spec(f) matches Ok(v) ==> {
            &&& f.ident matches Some(id) && v.ident == id@ && v.key == snake_case(id@)
            &&& v.inner == inner_type(f.ty).tokens
            &&& v.arity == type_arity(f.ty)
            &&& generic_of(f.ty, "Vec"@) matches Some(x) ==> v.inner == x.tokens && v.arity
                == Arity::Many
            &&& generic_of(f.ty, "Option"@) matches Some(x) ==> v.inner == x.tokens && v.arity
                == Arity::Maybe
            &&& generic_of(f.ty, "Vec"@) is None && generic_of(f.ty, "Option"@) is None ==> v.inner
                == f.ty.tokens && v.arity == Arity::One
        },
{
    reveal_strlit("Vec");
    reveal_strlit("Option");
    assert("Vec"@.len() != "Option"@.len());
}

/// The fields are read exactly when each is read on its own, and then each declaration is its
/// field's own reading, in field order.
pub proof fn lemma_reads_accepted(fs: Seq<FieldModel>)
    ensures
        reads_spec(fs) is Ok <==> forall|i: int| 0 <= i < fs.len() ==> (#[trigger] read_spec(fs[i])) is Ok,
        reads_spec(fs) matches Ok(v) ==> v.len() == fs.len() && forall|i: int|
            0 <= i < fs.len() ==> read_spec(fs[i]) == Ok::<GrammarFieldView, Complaint>(#[trigger] v[i]),
    decreases fs.len(),
{
    if fs.len() > 0 {
        let rest = fs.drop_last();
        lemma_reads_accepted(rest);
        assert forall|i: int| 0 <= i < rest.len() implies rest[i] == fs[i] by {}
        if !(reads_spec(rest) is Ok) {
            let i = choose|i: int| 0 <= i < rest.len() && !(#[trigger] read_spec(rest[i]) is Ok);
            assert(!(read_spec(fs[i]) is Ok));
        }
    }
}

/// A grammar node declares one child per field, in field order, each reading what its field's
/// type holds - the `T` of a `Vec<T>` or an `Option<T>`, else the type - with the arity the type
/// declares.
pub proof fn lemma_plan_reads_inner_types(m: DeriveModel)
    ensures
        syntax_spec(m) matches Ok((entry, views)) ==> (m.data matches DataModel::Struct(
            FieldsModel::Named(fs),
        ) && views.len() == fs@.len() && forall|i: int|
            0 <= i < fs@.len() ==> (#[trigger] views[i]).inner == inner_type(fs@[i].ty).tokens
                && views[i].arity == type_arity(fs@[i].ty)),
{
    if let DataModel::Struct(FieldsModel::Named(fs)) = m.data {
        lemma_reads_accepted(fs@);
        if let Ok(views) = reads_spec(fs@) {
            assert forall|i: int| 0 <= i < fs@.len() implies (#[trigger] views[i]).inner == inner_type(
                fs@[i].ty,
            ).tokens && views[i].arity == type_arity(fs@[i].ty) by {
                lemma_field_reads_what_its_type_holds(fs@[i]);
                assert(read_spec(fs@[i]) == Ok::<GrammarFieldView, Complaint>(views[i]));
            }
        }
    }
}

pub open spec fn syntax_not_struct() -> Seq<char> {
    "`#[derive(Syntax)]` describes a struct of grammar fields - enums are `variants!`'s job until #syntax/derive-enums"@
}

pub open spec fn syntax_not_named() -> Seq<char> {
    "`#[derive(Syntax)]` needs named fields - a tuple struct is all-positional, which is #positional's separate reading"@
}

/// What `#[derive(Syntax)]` reads off an item, or the first complaint.
pub open spec fn syntax_spec(m: DeriveModel) -> Result<(Seq<char>, Seq<GrammarFieldView>), Complaint> {
    match m.data {
        DataModel::Struct(FieldsModel::Named(fs)) => match reads_spec(fs@) {
            Err(e) => Err(e),
            Ok(views) => Ok((snake_case(m.ident@), views)),
        },
        DataModel::Struct(_) => Err(one_over(syntax_not_named(), m.ident_tokens)),
        _ => Err(one_over(syntax_not_struct(), m.ident_tokens)),
    }
}

/// Whether an executed field declaration is the specified one.
pub open spec fn grammar_field_matches(f: GrammarField, v: GrammarFieldView) -> bool {
    f.ident@ == v.ident && f.key@ == v.key && strings_view(f.aliases@) == v.aliases && f.arity
        == v.arity && f.shape == v.shape && f.inner == v.inner
}

/// The aliases among two spellings of `canonical`: each that differs from it, in order.
pub fn distinct_cases(canonical: &str, camel: String, kebab: String) -> (r: Vec<String>)
    ensures
        strings_view(r@) == (if camel@ != canonical@ {
            seq![camel@]
        } else {
            Seq::empty()
        }) + (if kebab@ != canonical@ {
            seq![kebab@]
        } else {
            Seq::empty()
        }),
{
    let ghost (c, k) = (camel@, kebab@);
    let mut out: Vec<String> = Vec::new();
    if !crate::text::str_eq(camel.as_str(), canonical) {
        out.push(camel);
    }
    if !crate::text::str_eq(kebab.as_str(), canonical) {
        out.push(kebab);
    }
    proof {
        assert(strings_view(out@) =~= (if c != canonical@ {
            seq![c]
        } else {
            Seq::empty()
        }) + (if k != canonical@ {
            seq![k]
        } else {
            Seq::empty()
        }));
    }
    out
}

/// The standard alias set for a canonical key.
pub fn standard_cases(canonical: &str) -> (r: Vec<String>)
    ensures
        strings_view(r@) == standard_cases_spec(canonical@),
{
    let camel = to_lower_camel_case(canonical);
    let kebab = to_kebab_case(canonical);
    distinct_cases(canonical, camel, kebab)
}

/// Read one field's declaration: its key, its aliases, its arity and its shape selector.
pub fn read_field(field: &FieldModel) -> (r: Result<GrammarField, syn::Error>)
    ensures
        match r {
            Ok(f) => read_spec(*field) matches Ok(v) && grammar_field_matches(f, v),
            Err(e) => read_spec(*field) == Err::<GrammarFieldView, Complaint>(complaint(e)),
        },
        r matches Ok(g) ==> g.inner == inner_type(field.ty).tokens && g.arity == type_arity(field.ty),
{
    proof {
        lemma_field_reads_what_its_type_holds(*field);
    }
    let ident = field.named_ident()?;
    let canonical = to_snake_case(ident.as_str());
    let aliases = match find_one(field.attrs.as_slice(), "alias")? {
        None => Vec::new(),
        Some(i) => {
            let attr = &field.attrs[i];
            if attr.is_path {
                standard_cases(canonical.as_str())
            } else {
                match attr_strings(&attr.attr) {
                    Ok(v) => v,
                    Err(e) => return Err(e),
                }
            }
        },
    };
    let shape = match find_one(field.attrs.as_slice(), "shape")? {
        None => None,
        Some(i) => match attr_path(&field.attrs[i].attr) {
            Ok(p) => Some(p),
            Err(e) => return Err(e),
        },
    };
    proof {
        assert(strings_view(aliases@) =~= aliases_spec(field.attrs@, canonical@)->Ok_0);
    }
    Ok(GrammarField {
        ident: ident.clone(),
        key: canonical,
        aliases,
        arity: field.ty.arity(),
        shape,
        inner: tokens_clone(&field.ty.inner().tokens),
    })
}

/// The first complaint about a prefix of the fields is the first complaint about all of them.
proof fn lemma_reads_error_stays(fs: Seq<FieldModel>, n: int)
    requires
        0 <= n <= fs.len(),
        reads_spec(fs.take(n)) is Err,
    ensures
        reads_spec(fs) == reads_spec(fs.take(n)),
    decreases fs.len(),
{
    if n < fs.len() {
        assert(fs.drop_last().take(n) =~= fs.take(n));
        lemma_reads_error_stays(fs.drop_last(), n);
    } else {
        assert(fs.take(n) =~= fs);
    }
}

/// Read a grammar type for `#[derive(Syntax)]`, or the first complaint about it.
pub fn plan_syntax(input: &DeriveModel) -> (r: Result<GrammarPlan, syn::Error>)
    ensures
        match r {
            Ok(p) => syntax_spec(*input) matches Ok((entry, views)) && p.entry@ == entry
                && p.fields@.len() == views.len() && forall|i: int|
                0 <= i < views.len() ==> grammar_field_matches(#[trigger] p.fields@[i], views[i]),
            Err(e) => syntax_spec(*input) == Err::<(Seq<char>, Seq<GrammarFieldView>), Complaint>(
                complaint(e),
            ),
        },
        r matches Ok(p) ==> (input.data matches DataModel::Struct(FieldsModel::Named(fs))
            && p.fields@.len() == fs@.len() && forall|i: int|
            0 <= i < fs@.len() ==> (#[trigger] p.fields@[i]).inner == inner_type(fs@[i].ty).tokens
                && p.fields@[i].arity == type_arity(fs@[i].ty)),
{
    proof {
        lemma_plan_reads_inner_types(*input);
    }
    let fields = match &input.data {
        DataModel::Struct(FieldsModel::Named(fields)) => fields,
        DataModel::Struct(_) => {
            return Err(error_new_spanned(
                &input.ident_tokens,
                "`#[derive(Syntax)]` needs named fields - a tuple struct is all-positional, which is #positional's separate reading",
            ));
        },
        _ => {
            return Err(error_new_spanned(
                &input.ident_tokens,
                "`#[derive(Syntax)]` describes a struct of grammar fields - enums are `variants!`'s job until #syntax/derive-enums",
            ));
        },
    };
    let entry = to_snake_case(input.ident.as_str());
    let mut read: Vec<GrammarField> = Vec::new();
    let mut i: usize = 0;
    while i < fields.len()
        invariant
            i <= fields@.len(),
            input.data == DataModel::Struct(FieldsModel::Named(*fields)),
            reads_spec(fields@.take(i as int)) matches Ok(views) && read@.len() == views.len()
                && forall|j: int| 0 <= j < views.len() ==> grammar_field_matches(#[trigger] read@[j], views[j]),
        decreases fields@.len() - i,
    {
        proof {
            assert(fields@.take(i + 1).drop_last() =~= fields@.take(i as int));
            assert(fields@.take(i + 1).last() == fields@[i as int]);
        }
        match read_field(&fields[i]) {
            Ok(f) => read.push(f),
            Err(e) => {
                proof {
                    assert(reads_spec(fields@.take(i + 1)) == Err::<Seq<GrammarFieldView>, Complaint>(
                        complaint(e),
                    ));
                    lemma_reads_error_stays(fields@, i as int + 1);
                }
                return Err(e);
            },
        }
        i = i + 1;
    }
    proof {
        assert(fields@.take(fields@.len() as int) =~= fields@);
    }
    Ok(GrammarPlan { entry, fields: read })
}

/// The node table's arity for a declared field: `T` required, `Option<T>` optional, `Vec<T>`
/// repeated.
pub fn table_arity(arity: Arity) -> (r: node::Arity)
    ensures
        r == match arity {
            Arity::One => node::Arity::Required,
            Arity::Maybe => node::Arity::Optional,
            Arity::Many => node::Arity::Repeated,
        },
{
    match arity {
        Arity::One => node::Arity::Required,
        Arity::Maybe => node::Arity::Optional,
        Arity::Many => node::Arity::Repeated,
    }
}

impl GrammarPlan {
    /// The keys the generated reader must see written: every field that is not an `Option`.
    pub fn required(&self) -> (r: Vec<usize>)
        ensures
            forall|k: int| 0 <= k < r@.len() ==> r@[k] < self.fields@.len() && self.fields@[r@[k] as int].arity != Arity::Maybe,
            forall|i: int| 0 <= i < self.fields@.len() && self.fields@[i].arity != Arity::Maybe ==> r@.contains(i as usize),
            forall|a: int, b: int| 0 <= a < b < r@.len() ==> r@[a] < r@[b],
    {
        let mut out: Vec<usize> = Vec::new();
        let mut i: usize = 0;
        while i < self.fields.len()
            invariant
                i <= self.fields@.len(),
                forall|k: int| 0 <= k < out@.len() ==> out@[k] < i && self.fields@[out@[k] as int].arity != Arity::Maybe,
                forall|j: int| 0 <= j < i && self.fields@[j].arity != Arity::Maybe ==> out@.contains(j as usize),
                forall|a: int, b: int| 0 <= a < b < out@.len() ==> out@[a] < out@[b],
            decreases self.fields@.len() - i,
        {
            if self.fields[i].arity != Arity::Maybe {
                let ghost before = out@;
                out.push(i);
                proof {
                    assert forall|j: int| 0 <= j < i + 1 && self.fields@[j].arity != Arity::Maybe implies out@.contains(j as usize) by {
                        crate::vocab::walk::lemma_contains_push(before, i, j as usize);
                    }
                }
            }
            i = i + 1;
        }
        out
    }

    /// The fields whose `#[shape(..)]` must be asserted readable: the selector and what is read.
    pub fn bounds(&self) -> (r: Vec<usize>)
        ensures
            forall|k: int| 0 <= k < r@.len() ==> r@[k] < self.fields@.len() && self.fields@[r@[k] as int].shape is Some,
            forall|i: int| 0 <= i < self.fields@.len() && self.fields@[i].shape is Some ==> r@.contains(i as usize),
            forall|a: int, b: int| 0 <= a < b < r@.len() ==> r@[a] < r@[b],
    {
        let mut out: Vec<usize> = Vec::new();
        let mut i: usize = 0;
        while i < self.fields.len()
            invariant
                i <= self.fields@.len(),
                forall|k: int| 0 <= k < out@.len() ==> out@[k] < i && self.fields@[out@[k] as int].shape is Some,
                forall|j: int| 0 <= j < i && self.fields@[j].shape is Some ==> out@.contains(j as usize),
                forall|a: int, b: int| 0 <= a < b < out@.len() ==> out@[a] < out@[b],
            decreases self.fields@.len() - i,
        {
            if self.fields[i].shape.is_some() {
                let ghost before = out@;
                out.push(i);
                proof {
                    assert forall|j: int| 0 <= j < i + 1 && self.fields@[j].shape is Some implies out@.contains(j as usize) by {
                        crate::vocab::walk::lemma_contains_push(before, i, j as usize);
                    }
                }
            }
            i = i + 1;
        }
        out
    }
}

} // verus!
