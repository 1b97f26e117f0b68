//! The derives' reading of the item they are applied to: what each declared type wraps, how many
//! of it there are, and which helper attributes were written - as plain values, with the tokens
//! each came from kept for spans and for re-emission.

use vstd::prelude::*;
use vstd::string::*;
use proc_macro2::TokenStream;
use crate::text::str_eq;
use crate::tokens::{
    attr_expr, attr_expr_parse, attr_type, attr_type_parse, complaint,
    error_new_spanned, one_over, Complaint,
};

pub mod extractor;
pub mod syntax;
pub mod passthrough;
pub mod generator;

verus! {

broadcast use vstd::string::group_string_axioms;

/// How many children a field declares, read off its written type.
#[derive(Clone, Copy, PartialEq, Eq, Debug, Structural)]
pub enum Arity {
    /// `T` - exactly one.
    One,
    /// `Vec<T>` - many.
    Many,
    /// `Option<T>` - absence is not a failure.
    Maybe,
}

/// A declared type, as far as the derives read it.
pub struct TypeModel {
    /// The identifier of the last path segment, when the type is a path.
    pub last: Option<String>,
    /// That segment's angle-bracketed arguments, when it has them.
    pub args: Option<Vec<GenericArg>>,
    /// The type as written.
    pub tokens: TokenStream,
}

/// One generic argument: a type, or anything else (a lifetime, a const, a binding).
pub enum GenericArg {
    Type(TypeModel),
    Other,
}

/// The first type among generic arguments.
pub open spec fn first_type(args: Seq<GenericArg>) -> Option<TypeModel>
    decreases args.len(),
{
    if args.len() == 0 {
        None
    } else {
        match args[0] {
            GenericArg::Type(t) => Some(t),
            GenericArg::Other => first_type(args.drop_first()),
        }
    }
}

/// The first type argument of `Name<..>`, when the type's last segment is `Name`.
pub open spec fn generic_of(t: TypeModel, name: Seq<char>) -> Option<TypeModel> {
    match t.last {
        Some(l) => if l@ == name {
            match t.args {
                Some(a) => first_type(a@),
                None => None,
            }
        } else {
            None
        },
        None => None,
    }
}

/// Arity, read off the written type: `Vec` before `Option`, anything else is one.
pub open spec fn type_arity(t: TypeModel) -> Arity {
    if generic_of(t, "Vec"@) is Some {
        Arity::Many
    } else if generic_of(t, "Option"@) is Some {
        Arity::Maybe
    } else {
        Arity::One
    }
}

/// What a field of this type reads: `Option<T>` and `Vec<T>` read a `T`, anything else itself.
pub open spec fn inner_type(t: TypeModel) -> TypeModel {
    match generic_of(t, "Option"@) {
        Some(x) => x,
        None => match generic_of(t, "Vec"@) {
            Some(x) => x,
            None => t,
        },
    }
}

/// The complaint about a child field that does not hold an extraction.
pub open spec fn not_extracted() -> Seq<char> {
    "expected `Extracted<T, I>`, optionally inside `Vec` or `Option` - a field with `#[from]` holds what its child extractor produced"@
}

impl TypeModel {
    /// The first type argument of `Name<..>`, when the last segment is `Name`.
    ///
    /// The last segment is the point: `std::option::Option<T>` and `Option<T>` are the same here.
    pub fn unwrap_generic(&self, name: &str) -> (r: Option<&TypeModel>)
        ensures
            match r {
                Some(t) => generic_of(*self, name@) == Some(*t),
                None => generic_of(*self, name@) is None,
            },
    {
        let last = match &self.last {
            Some(l) => l,
            None => return None,
        };
        if !str_eq(last.as_str(), name) {
            return None;
        }
        let args = match &self.args {
            Some(a) => a,
            None => return None,
        };
        let mut i: usize = 0;
        proof {
            assert(args@.skip(0) =~= args@);
        }
        while i < args.len()
            invariant
                i <= args@.len(),
                first_type(args@) == first_type(args@.skip(i as int)),
                self.args == Some(*args),
                self.last == Some(*last),
                last@ == name@,
            decreases args@.len() - i,
        {
            proof {
                assert(args@.skip(i as int).drop_first() =~= args@.skip(i + 1));
                assert(args@.skip(i as int)[0] == args@[i as int]);
            }
            proof {
                assert(args@.skip(i as int).len() > 0);
            }
            match &args[i] {
                GenericArg::Type(inner) => {
                    proof {
                        assert(args@[i as int] == GenericArg::Type(*inner));
                        assert(args@.skip(i as int)[0] == GenericArg::Type(*inner));
                        assert(first_type(args@.skip(i as int)) == Some(*inner));
                        assert(first_type(args@) == Some(*inner));
                        assert(self.args == Some(*args));
                        assert(generic_of(*self, name@) == Some(*inner));
                    }
                    return Some(inner);
                },
                GenericArg::Other => {},
            }
            i = i + 1;
        }
        None
    }

    /// Arity, read off the written type and never off an attribute.
    pub fn arity(&self) -> (r: Arity)
        ensures
            r == type_arity(*self),
    {
        if self.unwrap_generic("Vec").is_some() {
            Arity::Many
        } else if self.unwrap_generic("Option").is_some() {
            Arity::Maybe
        } else {
            Arity::One
        }
    }

    /// What a field of this type reads.
    pub fn inner(&self) -> (r: &TypeModel)
        ensures
            *r == inner_type(*self),
    {
        match self.unwrap_generic("Option") {
            Some(t) => t,
            None => match self.unwrap_generic("Vec") {
                Some(t) => t,
                None => self,
            },
        }
    }

    /// The `T` of `Extracted<T, I>` - the extractor that produced this child.
    pub fn extractor(&self) -> (r: Result<&TypeModel, syn::Error>)
        ensures
            match r {
                Ok(t) => generic_of(*self, "Extracted"@) == Some(*t),
                Err(e) => generic_of(*self, "Extracted"@) is None && complaint(e) == one_over(
                    not_extracted(),
                    self.tokens,
                ),
            },
    {
        match self.unwrap_generic("Extracted") {
            Some(t) => Ok(t),
            None => Err(error_new_spanned(
                &self.tokens,
                "expected `Extracted<T, I>`, optionally inside `Vec` or `Option` - a field with `#[from]` holds what its child extractor produced",
            )),
        }
    }
}

/// A field's arity and the extractor that produces its children.
pub struct ChildOf<'a> {
    pub arity: Arity,
    pub extractor: &'a TypeModel,
}

/// The type that should be `Extracted<T, I>`: what a `Vec` or an `Option` holds, else the type.
pub open spec fn extracted_holder(t: TypeModel) -> TypeModel {
    match generic_of(t, "Vec"@) {
        Some(v) => v,
        None => match generic_of(t, "Option"@) {
            Some(o) => o,
            None => t,
        },
    }
}

/// The type where `Extracted<..>` was looked for: inside a `Vec` or an `Option`, else the type.
pub open spec fn extracted_site(t: TypeModel) -> TokenStream {
    match generic_of(t, "Vec"@) {
        Some(v) => v.tokens,
        None => match generic_of(t, "Option"@) {
            Some(o) => o.tokens,
            None => t.tokens,
        },
    }
}

/// What a child field declares: its arity, and the extractor inside `Extracted<..>`.
pub open spec fn child_of(t: TypeModel) -> Option<(Arity, TypeModel)> {
    match generic_of(t, "Vec"@) {
        Some(v) => match generic_of(v, "Extracted"@) {
            Some(x) => Some((Arity::Many, x)),
            None => None,
        },
        None => match generic_of(t, "Option"@) {
            Some(o) => match generic_of(o, "Extracted"@) {
                Some(x) => Some((Arity::Maybe, x)),
                None => None,
            },
            None => match generic_of(t, "Extracted"@) {
                Some(x) => Some((Arity::One, x)),
                None => None,
            },
        },
    }
}

/// A child field's extractor is exactly the `T` of the `Extracted<T, I>` it holds - inside a
/// `Vec`, inside an `Option`, or bare - never the `Extracted<..>` itself; its arity is what the
/// declared type says; and a field holding no `Extracted<..>` there has no child reading at all.
pub proof fn lemma_child_is_the_extracted_t(t: TypeModel)
    ensures
        child_of(t) matches Some((a, x)) ==> generic_of(extracted_holder(t), "Extracted"@) == Some(x)
            && a == type_arity(t),
        child_of(t) is None <==> generic_of(extracted_holder(t), "Extracted"@) is None,
        generic_of(t, "Option"@) matches Some(o) ==> (child_of(t) matches Some((a, x)) ==> a
            == Arity::Maybe && generic_of(o, "Extracted"@) == Some(x)),
        generic_of(t, "Vec"@) matches Some(v) ==> (child_of(t) matches Some((a, x)) ==> a
            == Arity::Many && generic_of(v, "Extracted"@) == Some(x)),
{
    reveal_strlit("Vec");
    reveal_strlit("Option");
    assert("Vec"@.len() != "Option"@.len());
}

impl<'a> ChildOf<'a> {
    /// Read a child field's type: `Vec<Extracted<T, I>>`, `Option<Extracted<T, I>>` or
    /// `Extracted<T, I>`.
    pub fn of(ty: &'a TypeModel) -> (r: Result<ChildOf<'a>, syn::Error>)
        ensures
            match r {
                Ok(c) => child_of(*ty) == Some((c.arity, *c.extractor)),
                Err(e) => child_of(*ty) is None && complaint(e) == one_over(
                    not_extracted(),
                    extracted_site(*ty),
                ),
            },
            r matches Ok(c) ==> generic_of(extracted_holder(*ty), "Extracted"@) == Some(*c.extractor)
                && c.arity == type_arity(*ty),
    {
        proof {
            lemma_child_is_the_extracted_t(*ty);
        }
        if let Some(inner) = ty.unwrap_generic("Vec") {
            let extractor = inner.extractor()?;
            return Ok(ChildOf { arity: Arity::Many, extractor });
        }
        if let Some(inner) = ty.unwrap_generic("Option") {
            let extractor = inner.extractor()?;
            return Ok(ChildOf { arity: Arity::Maybe, extractor });
        }
        let extractor = ty.extractor()?;
        Ok(ChildOf { arity: Arity::One, extractor })
    }
}

/// One attribute on an item or a field, with what its arguments parse as.
pub struct AttrModel {
    /// The attribute's head, when it is a bare identifier.
    pub head: Option<String>,
    /// Whether it was written as a bare path, with no arguments at all.
    pub is_path: bool,
    /// The whole attribute, for spans.
    pub tokens: TokenStream,
    /// The attribute itself, whose arguments each reading parses when it is asked for.
    pub attr: syn::Attribute,
    /// Its arguments read as comma-separated `key = Type` pairs, or the complaint about them.
    pub assigns: Result<Vec<AssignModel>, syn::Error>,
    /// Its arguments read as comma-separated `name: Type = expr` declarations, or the complaint.
    pub children: Result<Vec<ChildDecl>, syn::Error>,
}

/// One `key = Type` pair.
pub struct AssignModel {
    pub key: String,
    /// The key as written, for spans.
    pub key_tokens: TokenStream,
    /// The type as written.
    pub value: TokenStream,
}

/// One `name: Type = expr` declaration: a child, its type, and what its parent feeds it.
pub struct ChildDecl {
    pub name: String,
    /// The child's type as written, so its arity is read off it.
    pub declared: TypeModel,
    /// Spliced verbatim and never inspected.
    pub feed: TokenStream,
}

/// Whether an attribute's head is exactly `name`.
pub open spec fn head_is(a: AttrModel, name: Seq<char>) -> bool {
    a.head matches Some(h) && h@ == name
}

/// The first attribute headed `name`, after `from`.
pub open spec fn first_named(attrs: Seq<AttrModel>, name: Seq<char>, from: int) -> Option<int>
    decreases attrs.len() - from,
{
    if from >= attrs.len() || from < 0 {
        None
    } else if head_is(attrs[from], name) {
        Some(from)
    } else {
        first_named(attrs, name, from + 1)
    }
}

/// At most one attribute headed `name`: its index, or the index of the second one written.
pub open spec fn find_one_spec(attrs: Seq<AttrModel>, name: Seq<char>) -> Result<Option<int>, int> {
    match first_named(attrs, name, 0) {
        None => Ok(None),
        Some(i) => match first_named(attrs, name, i + 1) {
            None => Ok(Some(i)),
            Some(j) => Err(j),
        },
    }
}

/// The first attribute headed `name` after `from` is the first at or after it: none before it is.
proof fn lemma_first_named_first(attrs: Seq<AttrModel>, name: Seq<char>, from: int)
    requires
        0 <= from,
    ensures
        match first_named(attrs, name, from) {
            None => forall|j: int| from <= j < attrs.len() ==> !head_is(#[trigger] attrs[j], name),
            Some(i) => from <= i < attrs.len() && head_is(attrs[i], name) && forall|j: int|
                from <= j < i ==> !head_is(#[trigger] attrs[j], name),
        },
    decreases attrs.len() - from,
{
    if from < attrs.len() && !head_is(attrs[from], name) {
        lemma_first_named_first(attrs, name, from + 1);
    }
}

/// A helper is found when it is written exactly once; `Ok(None)` when it is not written at all;
/// and refused when it is written twice or more.
pub proof fn lemma_find_one(attrs: Seq<AttrModel>, name: Seq<char>)
    ensures
        find_one_spec(attrs, name) == Ok::<Option<int>, int>(None) <==> forall|j: int|
            0 <= j < attrs.len() ==> !head_is(#[trigger] attrs[j], name),
        find_one_spec(attrs, name) matches Ok(Some(i)) ==> 0 <= i < attrs.len() && head_is(
            attrs[i],
            name,
        ) && forall|j: int| 0 <= j < attrs.len() && j != i ==> !head_is(#[trigger] attrs[j], name),
        find_one_spec(attrs, name) is Err <==> exists|a: int, b: int|
            0 <= a < b < attrs.len() && head_is(#[trigger] attrs[a], name) && head_is(
                #[trigger] attrs[b],
                name,
            ),
{
    lemma_first_named_first(attrs, name, 0);
    match first_named(attrs, name, 0) {
        None => {},
        Some(i) => {
            lemma_first_named_first(attrs, name, i + 1);
            if exists|a: int, b: int|
                0 <= a < b < attrs.len() && head_is(#[trigger] attrs[a], name) && head_is(
                    #[trigger] attrs[b],
                    name,
                ) {
                let (a, b) = choose|a: int, b: int|
                    0 <= a < b < attrs.len() && head_is(#[trigger] attrs[a], name) && head_is(
                        #[trigger] attrs[b],
                        name,
                    );
                assert(a >= i);
                assert(b > i);
            }
        },
    }
}

/// The complaint about a helper attribute written twice.
pub open spec fn written_twice(name: Seq<char>) -> Seq<char> {
    "`"@ + name + "` is written more than once"@
}

fn first_from(attrs: &[AttrModel], name: &str, from: usize) -> (r: Option<usize>)
    requires
        from <= attrs@.len(),
    ensures
        r matches Some(i) ==> from <= i < attrs@.len(),
        match r {
            Some(i) => first_named(attrs@, name@, from as int) == Some(i as int),
            None => first_named(attrs@, name@, from as int) is None,
        },
{
    let mut i = from;
    while i < attrs.len()
        invariant
            from <= i <= attrs@.len(),
            first_named(attrs@, name@, from as int) == first_named(attrs@, name@, i as int),
        decreases attrs@.len() - i,
    {
        let hit = match &attrs[i].head {
            Some(h) => str_eq(h.as_str(), name),
            None => false,
        };
        if hit {
            return Some(i);
        }
        i = i + 1;
    }
    None
}

/// Find at most one attribute with the given head; a second one is an error, spanned on it.
pub fn find_one(attrs: &[AttrModel], name: &str) -> (r: Result<Option<usize>, syn::Error>)
    ensures
        r matches Ok(Some(i)) ==> i < attrs@.len(),
        match r {
            Ok(Some(i)) => find_one_spec(attrs@, name@) == Ok::<Option<int>, int>(Some(i as int)),
            Ok(None) => find_one_spec(attrs@, name@) == Ok::<Option<int>, int>(None),
            Err(e) => find_one_spec(attrs@, name@) matches Err(j) && complaint(e) == one_over(
                written_twice(name@),
                attrs@[j].tokens,
            ),
        },
{
    let n = attrs.len();
    match first_from(attrs, name, 0) {
        None => Ok(None),
        Some(i) => match first_from(attrs, name, if i < n { i + 1 } else { n }) {
            None => Ok(Some(i)),
            Some(j) => {
                let mut message = "`".to_string();
                message.append(name);
                message.append("` is written more than once");
                Err(error_new_spanned(&attrs[j].tokens, message.as_str()))
            },
        },
    }
}

/// One field of the item a derive was applied to.
pub struct FieldModel {
    /// The field's name; `None` in a tuple struct.
    pub ident: Option<String>,
    pub ty: TypeModel,
    pub attrs: Vec<AttrModel>,
    /// The whole field, for spans.
    pub tokens: TokenStream,
}

/// The fields of a struct.
pub enum FieldsModel {
    Named(Vec<FieldModel>),
    Unnamed(Vec<FieldModel>),
    Unit,
}

/// What kind of item a derive was applied to.
pub enum DataModel {
    Struct(FieldsModel),
    Enum,
    Union,
}

/// The item a derive was applied to.
pub struct DeriveModel {
    /// The item's name.
    pub ident: String,
    /// The name as written, for spans.
    pub ident_tokens: TokenStream,
    pub attrs: Vec<AttrModel>,
    pub data: DataModel,
    /// The item's first lifetime parameter, as written.
    pub lifetime: Option<TokenStream>,
}

/// The complaint about an unnamed field where a name is needed.
pub open spec fn unnamed_field() -> Seq<char> {
    "expected a named field - a tuple struct is all-positional, which is a separate reading (#positional)"@
}

/// The complaint about an attribute whose arguments are not one expression.
pub open spec fn not_an_expression() -> Seq<char> {
    "expected `(<expression>)` - the expression is spliced verbatim and never inspected"@
}

impl FieldModel {
    /// This field's name, as an error rather than a panic when it has none.
    pub fn named_ident(&self) -> (r: Result<&String, syn::Error>)
        ensures
            match r {
                Ok(s) => self.ident == Some(*s),
                Err(e) => self.ident is None && complaint(e) == one_over(unnamed_field(), self.tokens),
            },
    {
        match &self.ident {
            Some(ident) => Ok(ident),
            None => Err(error_new_spanned(
                &self.tokens,
                "expected a named field - a tuple struct is all-positional, which is a separate reading (#positional)",
            )),
        }
    }
}

impl AttrModel {
    /// The single expression in `#[name(expr)]`.
    pub fn expr_arg(&self) -> (r: Result<TokenStream, syn::Error>)
        ensures
            match r {
                Ok(t) => attr_expr_parse(self.attr) == Ok::<TokenStream, syn::Error>(t),
                Err(e) => attr_expr_parse(self.attr) is Err && complaint(e) == one_over(
                    not_an_expression(),
                    self.tokens,
                ),
            },
    {
        match attr_expr(&self.attr) {
            Ok(expr) => Ok(expr),
            Err(_) => Err(error_new_spanned(
                &self.tokens,
                "expected `(<expression>)` - the expression is spliced verbatim and never inspected",
            )),
        }
    }
}

/// The named `#[source(Ty)]` type: its tokens, or the complaint.
pub open spec fn source_type_spec(attrs: Seq<AttrModel>, missing: Seq<char>, ident: TokenStream) -> Result<
    TokenStream,
    Complaint,
> {
    match find_one_spec(attrs, "source"@) {
        Err(j) => Err(one_over(written_twice("source"@), attrs[j].tokens)),
        Ok(None) => Err(one_over(missing, ident)),
        Ok(Some(i)) => match attr_type_parse(attrs[i].attr) {
            Ok(t) => Ok(t),
            Err(e) => Err(complaint(e)),
        },
    }
}

/// The syn node an extraction reads, from `#[source(Ty)]`; `missing` is the complaint when none
/// is written, spanned on the item's name.
pub fn source_type(input: &DeriveModel, missing: &str) -> (r: Result<TokenStream, syn::Error>)
    ensures
        match r {
            Ok(t) => source_type_spec(input.attrs@, missing@, input.ident_tokens) == Ok::<
                TokenStream,
                Complaint,
            >(t),
            Err(e) => source_type_spec(input.attrs@, missing@, input.ident_tokens) == Err::<
                TokenStream,
                Complaint,
            >(complaint(e)),
        },
{
    match find_one(input.attrs.as_slice(), "source")? {
        None => Err(error_new_spanned(&input.ident_tokens, missing)),
        Some(i) => attr_type(&input.attrs[i].attr),
    }
}

/// The item's first lifetime parameter, or the complaint when it has none.
pub fn lifetime_of(input: &DeriveModel, missing: &str) -> (r: Result<TokenStream, syn::Error>)
    ensures
        match r {
            Ok(t) => input.lifetime == Some(t),
            Err(e) => input.lifetime is None && complaint(e) == one_over(missing@, input.ident_tokens),
        },
{
    match &input.lifetime {
        Some(l) => Ok(crate::tokens::tokens_clone(l)),
        None => Err(error_new_spanned(&input.ident_tokens, missing)),
    }
}

} // verus!
