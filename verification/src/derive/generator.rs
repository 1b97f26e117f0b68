//! `#[derive(Generator)]`: a newtype says what it consumes, what its stub is written against, and
//! which children it generates from what it is fed.

use vstd::prelude::*;
use vstd::string::*;
use proc_macro2::{Span, TokenStream};
use crate::derive::{
    find_one, find_one_spec, generic_of, inner_type, type_arity, written_twice, Arity, AssignModel, ChildDecl,
    DataModel, DeriveModel, FieldsModel,
};
use crate::text::str_eq;
use crate::tokens::{
    args_end, args_end_of, complaint, error_clone, error_new, error_new_spanned, one_at, one_over,
    tokens_clone, Complaint,
};

verus! {

broadcast use vstd::string::group_string_axioms;

/// The complaint when the item is not a one-field tuple struct.
pub open spec fn not_a_newtype() -> Seq<char> {
    "`#[derive(Generator)]` describes a NEWTYPE wrapping the item it generates - `struct Fields(syn::ImplItem);`"@
}

/// The complaint when `#[generator(..)]` is not written.
pub open spec fn no_wiring() -> Seq<char> {
    "`#[generator(from = Ty, subject = Ty)]` says what this consumes and what a stub is written against"@
}

/// The complaint when `from` is not given: raised once the pairs have used up the arguments, so
/// it reads as the end of input.
pub open spec fn no_from() -> Seq<char> {
    "unexpected end of input, `from = Ty` names what this generator consumes"@
}

/// The complaint when `subject` is not given, likewise at the end of input.
pub open spec fn no_subject() -> Seq<char> {
    "unexpected end of input, `subject = Ty` names what a stub is written against"@
}

/// The complaint about a key that is neither `from` nor `subject`.
pub open spec fn unknown_wiring(key: Seq<char>) -> Seq<char> {
    "`"@ + key + "` is not one of `from`, `subject`"@
}

/// Whether the item is a tuple struct of exactly one unnamed field.
pub open spec fn is_newtype(d: DataModel) -> bool {
    match d {
        DataModel::Struct(FieldsModel::Named(v)) => v@.len() == 1 && v@[0].ident is None,
        DataModel::Struct(FieldsModel::Unnamed(v)) => v@.len() == 1 && v@[0].ident is None,
        _ => false,
    }
}

/// Whether `key` is one the wiring accepts.
pub open spec fn is_wiring_key(key: Seq<char>) -> bool {
    key == "from"@ || key == "subject"@
}

/// The first pair whose key the wiring does not accept.
pub open spec fn first_unknown(a: Seq<AssignModel>) -> Option<int>
    decreases a.len(),
{
    if a.len() == 0 {
        None
    } else {
        match first_unknown(a.drop_last()) {
            Some(i) => Some(i),
            None => if is_wiring_key(a.last().key@) {
                None
            } else {
                Some(a.len() - 1)
            },
        }
    }
}

/// The type given to `key` last; a key written again replaces what it said before.
pub open spec fn last_keyed(a: Seq<AssignModel>, key: Seq<char>) -> Option<TokenStream>
    decreases a.len(),
{
    if a.len() == 0 {
        None
    } else if a.last().key@ == key {
        Some(a.last().value)
    } else {
        last_keyed(a.drop_last(), key)
    }
}

/// Where a complaint about arguments that ran out points: where the arguments end, when the
/// attribute is a list, else over the attribute.
pub open spec fn at_end(message: Seq<char>, end: Option<Span>, attr: TokenStream) -> Complaint {
    match end {
        Some(s) => one_at(message, s),
        None => one_over(message, attr),
    }
}

/// What `from = Ty, subject = Ty` reads as: the last value of each key, or the first complaint -
/// an unknown key, over that key; a missing one, where the arguments end.
pub open spec fn wiring_spec(a: Seq<AssignModel>, end: Option<Span>, attr: TokenStream) -> Result<
    (TokenStream, TokenStream),
    Complaint,
> {
    match first_unknown(a) {
        Some(i) => Err(one_over(unknown_wiring(a[i].key@), a[i].key_tokens)),
        None => match last_keyed(a, "from"@) {
            None => Err(at_end(no_from(), end, attr)),
            Some(from) => match last_keyed(a, "subject"@) {
                None => Err(at_end(no_subject(), end, attr)),
                Some(subject) => Ok((from, subject)),
            },
        },
    }
}

/// An unknown key in a prefix is the first unknown key of the whole list.
proof fn lemma_unknown_stays(a: Seq<AssignModel>, n: int)
    requires
        0 <= n <= a.len(),
        first_unknown(a.take(n)) is Some,
    ensures
        first_unknown(a) == first_unknown(a.take(n)),
    decreases a.len(),
{
    if n < a.len() {
        assert(a.drop_last().take(n) =~= a.take(n));
        lemma_unknown_stays(a.drop_last(), n);
    } else {
        assert(a.take(n) =~= a);
    }
}

/// A key outside `from` and `subject` is found exactly when one is written.
proof fn lemma_first_unknown(a: Seq<AssignModel>)
    ensures
        first_unknown(a) is None <==> forall|i: int| 0 <= i < a.len() ==> is_wiring_key(#[trigger] a[i].key@),
    decreases a.len(),
{
    if a.len() > 0 {
        lemma_first_unknown(a.drop_last());
        if first_unknown(a.drop_last()) is Some {
            let i = choose|i: int| 0 <= i < a.drop_last().len() && !is_wiring_key(#[trigger] a.drop_last()[i].key@);
            assert(a[i] == a.drop_last()[i]);
        }
        assert forall|i: int| 0 <= i < a.drop_last().len() implies a.drop_last()[i] == a[i] by {}
    }
}

/// A key's last value is found exactly when the key is written.
proof fn lemma_last_keyed(a: Seq<AssignModel>, key: Seq<char>)
    ensures
        last_keyed(a, key) is Some <==> exists|i: int| 0 <= i < a.len() && (#[trigger] a[i]).key@ == key,
    decreases a.len(),
{
    if a.len() > 0 {
        lemma_last_keyed(a.drop_last(), key);
        if exists|i: int| 0 <= i < a.len() && (#[trigger] a[i]).key@ == key {
            let i = choose|i: int| 0 <= i < a.len() && (#[trigger] a[i]).key@ == key;
            if i < a.len() - 1 {
                assert(a.drop_last()[i] == a[i]);
            }
        }
        if last_keyed(a.drop_last(), key) is Some {
            let i = choose|i: int| 0 <= i < a.drop_last().len() && (#[trigger] a.drop_last()[i]).key@ == key;
            assert(a[i] == a.drop_last()[i]);
        }
    }
}

/// The wiring is accepted exactly when every key is `from` or `subject` and both are written.
pub proof fn lemma_wiring_accepts(a: Seq<AssignModel>, end: Option<Span>, attr: TokenStream)
    ensures
        wiring_spec(a, end, attr) is Ok <==> {
            &&& forall|i: int| 0 <= i < a.len() ==> is_wiring_key(#[trigger] a[i].key@)
            &&& exists|i: int| 0 <= i < a.len() && (#[trigger] a[i]).key@ == "from"@
            &&& exists|i: int| 0 <= i < a.len() && (#[trigger] a[i]).key@ == "subject"@
        },
{
    lemma_first_unknown(a);
    lemma_last_keyed(a, "from"@);
    lemma_last_keyed(a, "subject"@);
}

/// Read `from = Ty, subject = Ty`: an unknown key is an error on that key; a missing one is an
/// error where the arguments end (`end`), or on the whole attribute when that is not known.
pub fn parse_wiring(assigns: &[AssignModel], end: Option<Span>, attr: &TokenStream) -> (r: Result<
    (TokenStream, TokenStream),
    syn::Error,
>)
    ensures
        match r {
            Ok(w) => wiring_spec(assigns@, end, *attr) == Ok::<(TokenStream, TokenStream), Complaint>(w),
            Err(e) => wiring_spec(assigns@, end, *attr) == Err::<(TokenStream, TokenStream), Complaint>(
                complaint(e),
            ),
        },
{
    let mut from: Option<usize> = None;
    let mut subject: Option<usize> = None;
    let mut i: usize = 0;
    while i < assigns.len()
        invariant
            i <= assigns@.len(),
            first_unknown(assigns@.take(i as int)) is None,
            match from {
                Some(j) => j < i && last_keyed(assigns@.take(i as int), "from"@) == Some(
                    assigns@[j as int].value,
                ),
                None => last_keyed(assigns@.take(i as int), "from"@) is None,
            },
            match subject {
                Some(j) => j < i && last_keyed(assigns@.take(i as int), "subject"@) == Some(
                    assigns@[j as int].value,
                ),
                None => last_keyed(assigns@.take(i as int), "subject"@) is None,
            },
        decreases assigns@.len() - i,
    {
        let key = assigns[i].key.as_str();
        proof {
            assert(assigns@.take(i + 1).drop_last() =~= assigns@.take(i as int));
            assert(assigns@.take(i + 1).last() == assigns@[i as int]);
            reveal_strlit("from");
            reveal_strlit("subject");
            assert("from"@[0] != "subject"@[0]);
        }
        if str_eq(key, "from") {
            from = Some(i);
        } else if str_eq(key, "subject") {
            subject = Some(i);
        } else {
            let mut message = "`".to_string();
            message.append(key);
            message.append("` is not one of `from`, `subject`");
            proof {
                assert(first_unknown(assigns@.take(i + 1)) == Some(i as int));
                lemma_unknown_stays(assigns@, i + 1);
                assert(message@ =~= unknown_wiring(assigns@[i as int].key@));
            }
            return Err(error_new_spanned(&assigns[i].key_tokens, message.as_str()));
        }
        i = i + 1;
    }
    proof {
        assert(assigns@.take(assigns@.len() as int) =~= assigns@);
    }
    match from {
        None => Err(ran_out(end, attr, "unexpected end of input, `from = Ty` names what this generator consumes")),
        Some(f) => match subject {
            None => Err(ran_out(
                end,
                attr,
                "unexpected end of input, `subject = Ty` names what a stub is written against",
            )),
            Some(s) => Ok((tokens_clone(&assigns[f].value), tokens_clone(&assigns[s].value))),
        },
    }
}

/// A complaint about arguments that ran out, where they end, or over the attribute.
fn ran_out(end: Option<Span>, attr: &TokenStream, message: &str) -> (e: syn::Error)
    ensures
        complaint(e) == at_end(message@, end, *attr),
{
    match end {
        Some(span) => error_new(span, message),
        None => error_new_spanned(attr, message),
    }
}

/// One declared child, as the generated composition calls it.
pub struct GeneratorChild {
    pub name: String,
    /// Read off the declared type: a `Vec` is generated element by element.
    pub arity: Arity,
    /// The child generator: the declared type with any `Vec` or `Option` peeled off.
    pub leaf: TokenStream,
    /// What the parent feeds it, as written.
    pub feed: TokenStream,
}

/// What `#[derive(Generator)]` reads off a newtype.
pub struct GeneratorPlan {
    /// What the generator consumes.
    pub from: TokenStream,
    /// What its stub is written against.
    pub subject: TokenStream,
    pub children: Vec<GeneratorChild>,
}

/// Whether a planned child is the declared one.
pub open spec fn child_matches(c: GeneratorChild, d: ChildDecl) -> bool {
    c.name@ == d.name@ && c.arity == type_arity(d.declared) && c.leaf == inner_type(d.declared).tokens
        && c.feed == d.feed
}

/// A planned child is called as it was declared: under its declared name, fed exactly the
/// expression written for it whatever its arity, generated element by element from the `T` of a
/// `Vec<T>`, optionally from the `T` of an `Option<T>`, and otherwise once from the declared type.
pub proof fn lemma_planned_child_is_declared(c: GeneratorChild, d: ChildDecl)
    requires
        child_matches(c, d),
    ensures
        c.name@ == d.name@,
        c.feed == d.feed,
        generic_of(d.declared, "Vec"@) matches Some(x) ==> c.arity == Arity::Many && c.leaf
            == x.tokens,
        generic_of(d.declared, "Option"@) matches Some(x) ==> c.arity == Arity::Maybe && c.leaf
            == x.tokens,
        generic_of(d.declared, "Vec"@) is None && generic_of(d.declared, "Option"@) is None ==> c.arity
            == Arity::One && c.leaf == d.declared.tokens,
{
    reveal_strlit("Vec");
    reveal_strlit("Option");
    assert("Vec"@.len() != "Option"@.len());
}

/// What `#[derive(Generator)]` reads off an item - its wiring and declared children - or the
/// first complaint about it.
pub open spec fn generator_spec(m: DeriveModel) -> Result<
    (TokenStream, TokenStream, Seq<ChildDecl>),
    Complaint,
> {
    if !is_newtype(m.data) {
        Err(one_over(not_a_newtype(), m.ident_tokens))
    } else {
        match find_one_spec(m.attrs@, "generator"@) {
            Err(j) => Err(one_over(written_twice("generator"@), m.attrs@[j].tokens)),
            Ok(None) => Err(one_over(no_wiring(), m.ident_tokens)),
            Ok(Some(i)) => match m.attrs@[i].assigns {
                Err(e) => Err(complaint(e)),
                Ok(a) => match wiring_spec(a@, args_end_of(m.attrs@[i].attr), m.attrs@[i].tokens) {
                    Err(c) => Err(c),
                    Ok((from, subject)) => match find_one_spec(m.attrs@, "generates"@) {
                        Err(j) => Err(one_over(written_twice("generates"@), m.attrs@[j].tokens)),
                        Ok(None) => Ok((from, subject, Seq::empty())),
                        Ok(Some(j)) => match m.attrs@[j].children {
                            Err(e) => Err(complaint(e)),
                            Ok(cs) => Ok((from, subject, cs@)),
                        },
                    },
                },
            },
        }
    }
}

fn check_newtype(input: &DeriveModel) -> (r: bool)
    ensures
        r == is_newtype(input.data),
{
    match &input.data {
        DataModel::Struct(FieldsModel::Named(v)) => v.len() == 1 && v[0].ident.is_none(),
        DataModel::Struct(FieldsModel::Unnamed(v)) => v.len() == 1 && v[0].ident.is_none(),
        _ => false,
    }
}

fn plan_children(decls: &[ChildDecl]) -> (r: Vec<GeneratorChild>)
    ensures
        r@.len() == decls@.len(),
        forall|i: int| 0 <= i < decls@.len() ==> child_matches(#[trigger] r@[i], decls@[i]),
        forall|i: int|
            0 <= i < decls@.len() ==> (#[trigger] r@[i]).feed == decls@[i].feed && r@[i].name@
                == decls@[i].name@,
{
    let mut out: Vec<GeneratorChild> = Vec::new();
    let mut i: usize = 0;
    while i < decls.len()
        invariant
            i <= decls@.len(),
            out@.len() == i,
            forall|j: int| 0 <= j < i ==> child_matches(#[trigger] out@[j], decls@[j]),
            forall|j: int|
                0 <= j < i ==> (#[trigger] out@[j]).feed == decls@[j].feed && out@[j].name@
                    == decls@[j].name@,
        decreases decls@.len() - i,
    {
        let decl = &decls[i];
        let arity = decl.declared.arity();
        let leaf = tokens_clone(&decl.declared.inner().tokens);
        out.push(
            GeneratorChild {
                name: decl.name.clone(),
                arity,
                leaf,
                feed: tokens_clone(&decl.feed),
            },
        );
        i = i + 1;
    }
    out
}

/// Read a newtype for `#[derive(Generator)]`, or the first complaint, spanned where the author
/// can act on it.
pub fn plan_generator(input: &DeriveModel) -> (r: Result<GeneratorPlan, syn::Error>)
    ensures
        match r {
            Ok(p) => generator_spec(*input) matches Ok((from, subject, decls)) && p.from == from
                && p.subject == subject && p.children@.len() == decls.len() && forall|i: int|
                0 <= i < decls.len() ==> child_matches(#[trigger] p.children@[i], decls[i]),
            Err(e) => generator_spec(*input) == Err::<
                (TokenStream, TokenStream, Seq<ChildDecl>),
                Complaint,
            >(complaint(e)),
        },
        r matches Ok(p) ==> (generator_spec(*input) matches Ok((from, subject, decls)) && forall|i: int|
            0 <= i < decls.len() ==> (#[trigger] p.children@[i]).feed == decls[i].feed
                && p.children@[i].name@ == decls[i].name@),
{
    if !check_newtype(input) {
        return Err(
            error_new_spanned(
                &input.ident_tokens,
                "`#[derive(Generator)]` describes a NEWTYPE wrapping the item it generates - `struct Fields(syn::ImplItem);`",
            ),
        );
    }
    let wiring_at = match find_one(input.attrs.as_slice(), "generator")? {
        Some(i) => i,
        None => {
            return Err(
                error_new_spanned(
                    &input.ident_tokens,
                    "`#[generator(from = Ty, subject = Ty)]` says what this consumes and what a stub is written against",
                ),
            );
        },
    };
    let attr = &input.attrs[wiring_at];
    let (from, subject) = match &attr.assigns {
        Err(e) => {
            return Err(error_clone(e));
        },
        Ok(assigns) => parse_wiring(assigns.as_slice(), args_end(&attr.attr), &attr.tokens)?,
    };
    let children = match find_one(input.attrs.as_slice(), "generates")? {
        None => Vec::new(),
        Some(j) => match &input.attrs[j].children {
            Err(e) => {
                return Err(error_clone(e));
            },
            Ok(decls) => plan_children(decls.as_slice()),
        },
    };
    Ok(GeneratorPlan { from, subject, children })
}

} // verus!
