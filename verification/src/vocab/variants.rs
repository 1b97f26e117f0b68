//! An enum read from a value position: which variant a written name selects, and whether it was
//! written in the shape that variant takes.

use vstd::prelude::*;
use vstd::string::*;
use crate::meta::ShapeKind;
use crate::text::{decimal, quote_all, quoted_list, str_eq, to_decimal, views};

verus! {

broadcast use vstd::string::group_string_axioms;

/// How a variant carries its payload.
#[derive(Clone, Copy, PartialEq, Eq, Debug, Structural)]
pub enum VariantKind {
    /// `Red` - written as a bare path.
    Unit,
    /// `Other(Blue)` - positional values, this many.
    Positional(usize),
    /// `Rgb(r = 12, ..)` - named values, read by key.
    Named,
}

/// One declared variant: the name it is matched by, and its payload.
#[derive(Clone, Copy)]
pub struct VariantDecl {
    pub name: &'static str,
    pub kind: VariantKind,
}

/// The first declared variant whose name is `written`.
pub open spec fn variant_index(decls: Seq<VariantDecl>, written: Seq<char>) -> Option<int>
    decreases decls.len(),
{
    if decls.len() == 0 {
        None
    } else {
        match variant_index(decls.drop_last(), written) {
            Some(i) => Some(i),
            None => if decls.last().name@ == written {
                Some(decls.len() - 1)
            } else {
                None
            },
        }
    }
}

/// The names of the declared variants.
pub open spec fn variant_names(decls: Seq<VariantDecl>) -> Seq<Seq<char>> {
    decls.map_values(|d: VariantDecl| d.name@)
}

/// The complaint about a name that is no declared variant.
pub open spec fn unknown_variant(decls: Seq<VariantDecl>) -> Seq<char> {
    "expected one of: "@ + quoted_list(variant_names(decls))
}

/// The complaint about a payload variant written bare.
pub open spec fn needs_arguments(name: Seq<char>) -> Seq<char> {
    "`"@ + name + "` takes arguments - write it as `"@ + name + "(..)`"@
}

/// The complaint about a unit variant written with a payload.
pub open spec fn takes_none(name: Seq<char>) -> Seq<char> {
    "`"@ + name + "` takes no arguments"@
}

/// The complaint about a variant written as `key = value`.
pub open spec fn no_value_reading(enum_name: Seq<char>) -> Seq<char> {
    enum_name + " has no `key = value` reading"@
}

/// The complaint about a positional payload of the wrong length.
pub open spec fn arity_message(what: Seq<char>, arity: nat, supplied: nat) -> Seq<char> {
    "`"@ + what + "` takes "@ + decimal(arity) + (if arity == 1 {
        " argument, "@
    } else {
        " arguments, "@
    }) + decimal(supplied) + " supplied"@
}

/// What selecting a variant decides.
pub open spec fn selection(
    decls: Seq<VariantDecl>,
    enum_name: Seq<char>,
    shape: ShapeKind,
    last: Option<Seq<char>>,
) -> Result<int, Seq<char>> {
    if shape == ShapeKind::NameValue {
        Err(no_value_reading(enum_name))
    } else {
        match last {
            None => Err(unknown_variant(decls)),
            Some(name) => match variant_index(decls, name) {
                None => Err(unknown_variant(decls)),
                Some(i) => {
                    let d = decls[i];
                    if shape == ShapeKind::Path {
                        if d.kind == VariantKind::Unit {
                            Ok(i)
                        } else {
                            Err(needs_arguments(d.name@))
                        }
                    } else {
                        if d.kind == VariantKind::Unit {
                            Err(takes_none(d.name@))
                        } else {
                            Ok(i)
                        }
                    }
                },
            },
        }
    }
}

/// The lookup finds the first declared variant with the written name, or there is none.
pub proof fn lemma_variant_index_is_first(decls: Seq<VariantDecl>, written: Seq<char>)
    ensures
        variant_index(decls, written) matches Some(i) ==> 0 <= i < decls.len() && decls[i].name@
            == written && forall|j: int| 0 <= j < i ==> (#[trigger] decls[j]).name@ != written,
        variant_index(decls, written) is None ==> forall|j: int|
            0 <= j < decls.len() ==> (#[trigger] decls[j]).name@ != written,
    decreases decls.len(),
{
    if decls.len() > 0 {
        let rest = decls.drop_last();
        lemma_variant_index_is_first(rest, written);
        assert forall|j: int| 0 <= j < rest.len() implies rest[j] == decls[j] by {}
    }
}

/// A selected variant is the first declared one with the written name, and its payload fits how
/// it was written: a bare path selects only a unit variant, arguments select only a payload
/// variant, and a `key = value` selects nothing.
pub proof fn lemma_selection_fits_the_shape(
    decls: Seq<VariantDecl>,
    enum_name: Seq<char>,
    shape: ShapeKind,
    last: Option<Seq<char>>,
)
    ensures
        selection(decls, enum_name, shape, last) matches Ok(i) ==> {
            &&& 0 <= i < decls.len()
            &&& shape != ShapeKind::NameValue
            &&& last == Some(decls[i].name@)
            &&& forall|j: int| 0 <= j < i ==> (#[trigger] decls[j]).name@ != decls[i].name@
            &&& (shape == ShapeKind::Path <==> decls[i].kind == VariantKind::Unit)
        },
        shape == ShapeKind::Path && selection(decls, enum_name, shape, last) is Ok ==> decls[selection(
            decls,
            enum_name,
            shape,
            last,
        )->Ok_0].kind == VariantKind::Unit,
{
    if let Some(name) = last {
        lemma_variant_index_is_first(decls, name);
    }
}

/// Which declared variant a written value selects.
///
/// `last` is the last segment of the written path, so `ColourSetting::Red` and `Red` are the same
/// node; `shape` is how the value was written. A selected payload variant still has its payload to
/// read - positional values through [`check_arity`], named ones through the walk.
pub fn select_variant(
    decls: &[VariantDecl],
    enum_name: &str,
    shape: ShapeKind,
    last: Option<&str>,
) -> (r: Result<usize, String>)
    ensures
        match r {
            Ok(i) => selection(decls@, enum_name@, shape, match last {
                Some(s) => Some(s@),
                None => None,
            }) == Ok::<int, Seq<char>>(i as int),
            Err(m) => selection(decls@, enum_name@, shape, match last {
                Some(s) => Some(s@),
                None => None,
            }) == Err::<int, Seq<char>>(m@),
        },
        r matches Ok(i) ==> i < decls@.len() && shape != ShapeKind::NameValue && (last matches Some(
            s,
        ) && s@ == decls@[i as int].name@) && (shape == ShapeKind::Path <==> decls@[i as int].kind
            == VariantKind::Unit),
{
    proof {
        lemma_selection_fits_the_shape(decls@, enum_name@, shape, match last {
            Some(s) => Some(s@),
            None => None,
        });
    }
    if shape == ShapeKind::NameValue {
        let mut message = enum_name.to_string();
        message.append(" has no `key = value` reading");
        return Err(message);
    }
    let written = match last {
        Some(s) => s,
        None => return Err(unknown(decls)),
    };
    let mut i: usize = 0;
    while i < decls.len()
        invariant
            i <= decls@.len(),
            variant_index(decls@.take(i as int), written@) is None,
            shape != ShapeKind::NameValue,
            last == Some(written),
        decreases decls@.len() - i,
    {
        proof {
            assert(decls@.take(i + 1).drop_last() =~= decls@.take(i as int));
        }
        if str_eq(decls[i].name, written) {
            proof {
                assert(decls@.take(i + 1).last() == decls@[i as int]);
                assert(variant_index(decls@.take(i + 1), written@) == Some(i as int));
                lemma_variant_index_prefix(decls@, i as int + 1, written@);
            }
            let d = decls[i];
            if shape == ShapeKind::Path {
                if d.kind == VariantKind::Unit {
                    return Ok(i);
                } else {
                    let mut message = "`".to_string();
                    message.append(d.name);
                    message.append("` takes arguments - write it as `");
                    message.append(d.name);
                    message.append("(..)`");
                    return Err(message);
                }
            } else {
                if d.kind == VariantKind::Unit {
                    let mut message = "`".to_string();
                    message.append(d.name);
                    message.append("` takes no arguments");
                    return Err(message);
                } else {
                    return Ok(i);
                }
            }
        }
        i = i + 1;
    }
    proof {
        assert(decls@.take(decls@.len() as int) =~= decls@);
    }
    Err(unknown(decls))
}

/// The lookup in a longer list agrees with a prefix that already found the name.
proof fn lemma_variant_index_prefix(decls: Seq<VariantDecl>, n: int, written: Seq<char>)
    requires
        0 <= n <= decls.len(),
        variant_index(decls.take(n), written) is Some,
    ensures
        variant_index(decls, written) == variant_index(decls.take(n), written),
    decreases decls.len(),
{
    if n < decls.len() {
        assert(decls.drop_last().take(n) =~= decls.take(n));
        lemma_variant_index_prefix(decls.drop_last(), n, written);
    } else {
        assert(decls.take(n) =~= decls);
    }
}

fn unknown(decls: &[VariantDecl]) -> (r: String)
    ensures
        r@ == unknown_variant(decls@),
{
    let mut names: Vec<&str> = Vec::new();
    let mut i: usize = 0;
    while i < decls.len()
        invariant
            i <= decls@.len(),
            views(names@) == variant_names(decls@.take(i as int)),
        decreases decls@.len() - i,
    {
        let ghost before = names@;
        names.push(decls[i].name);
        proof {
            assert(decls@.take(i + 1) =~= decls@.take(i as int).push(decls@[i as int]));
            assert(views(names@) =~= views(before).push(decls@[i as int].name@));
            assert(variant_names(decls@.take(i + 1)) =~= variant_names(decls@.take(i as int)).push(
                decls@[i as int].name@,
            ));
            assert(views(names@) =~= variant_names(decls@.take(i + 1)));
        }
        i = i + 1;
    }
    proof {
        assert(decls@.take(decls@.len() as int) =~= decls@);
    }
    let mut message = "expected one of: ".to_string();
    let list = quote_all(names.as_slice());
    message.append(list.as_str());
    message
}

/// A positional payload must have exactly the declared number of values.
pub fn check_arity(what: &str, arity: usize, supplied: usize) -> (r: Result<(), String>)
    ensures
        match r {
            Ok(()) => supplied == arity,
            Err(m) => supplied != arity && m@ == arity_message(what@, arity as nat, supplied as nat),
        },
{
    if supplied == arity {
        return Ok(());
    }
    let mut message = "`".to_string();
    message.append(what);
    message.append("` takes ");
    let a = to_decimal(arity);
    message.append(a.as_str());
    if arity == 1 {
        message.append(" argument, ");
    } else {
        message.append(" arguments, ");
    }
    let s = to_decimal(supplied);
    message.append(s.as_str());
    message.append(" supplied");
    Err(message)
}

} // verus!
