//! Shapes: which of the three openings an attribute payload arrives through.

use vstd::prelude::*;
use proc_macro2::TokenStream;
use crate::text::{quote_all, quoted_list, views};
use crate::tokens::{error_messages, exprs_parse, metas_parse, stream_is_empty, tokens_is_empty};
use crate::vocab::leaves::{
    exprs_view, list_elements, list_values, metas_view, ExprModel, MetaKind, MetaModel,
};
use crate::vocab::walk::WrittenPath;

pub mod attribute_kind;

verus! {

/// The runtime identity of a shape - what a written attribute turned out to be.
#[derive(Clone, Copy, PartialEq, Eq, Debug, Structural)]
pub enum ShapeKind {
    Path,
    List,
    NameValue,
}

/// Every shape, in declaration order.
pub open spec fn shape_kinds() -> Seq<ShapeKind> {
    seq![ShapeKind::Path, ShapeKind::List, ShapeKind::NameValue]
}

/// The canonical spelling of a shape.
pub open spec fn shape_spelling(kind: ShapeKind) -> Seq<char> {
    match kind {
        ShapeKind::Path => "path"@,
        ShapeKind::List => "list"@,
        ShapeKind::NameValue => "name-value"@,
    }
}

/// The shape a spelling names, matched exactly.
pub open spec fn shape_named(text: Seq<char>) -> Option<ShapeKind> {
    if text == "path"@ {
        Some(ShapeKind::Path)
    } else if text == "list"@ {
        Some(ShapeKind::List)
    } else if text == "name-value"@ {
        Some(ShapeKind::NameValue)
    } else {
        None
    }
}

/// A shape round-trips through its spelling: the spelling it is written with names it again.
pub proof fn lemma_shape_round_trip(kind: ShapeKind)
    ensures
        shape_named(shape_spelling(kind)) == Some(kind),
{
    reveal_strlit("path");
    reveal_strlit("list");
    reveal_strlit("name-value");
    assert("path"@[0] != "list"@[0]);
    assert("path"@.len() != "name-value"@.len());
    assert("list"@.len() != "name-value"@.len());
}

impl ShapeKind {
    /// Every shape, in declaration order.
    pub fn all() -> (r: Vec<ShapeKind>)
        ensures
            r@ == shape_kinds(),
    {
        let r = vec![ShapeKind::Path, ShapeKind::List, ShapeKind::NameValue];
        assert(r@ =~= shape_kinds());
        r
    }

    /// The canonical spelling.
    pub fn spelling(self) -> (r: &'static str)
        ensures
            r@ == shape_spelling(self),
    {
        match self {
            ShapeKind::Path => "path",
            ShapeKind::List => "list",
            ShapeKind::NameValue => "name-value",
        }
    }

    /// Every accepted spelling for this shape, canonical first. Shapes have no aliases.
    pub fn spellings(self) -> (r: Vec<&'static str>)
        ensures
            r@.len() == 1,
            r@[0]@ == shape_spelling(self),
    {
        vec![self.spelling()]
    }

    /// The candidate list a diagnostic shows: every canonical spelling, quoted.
    pub fn candidates() -> (r: String)
        ensures
            r@ == quoted_list(seq!["path"@, "list"@, "name-value"@]),
    {
        let names: [&str; 3] = ["path", "list", "name-value"];
        let r = quote_all(&names);
        assert(views(names@) =~= seq!["path"@, "list"@, "name-value"@]);
        r
    }

    /// The shape a meta item was written in.
    pub fn of(meta: &MetaModel) -> (r: ShapeKind)
        ensures
            r == meta_shape(*meta),
    {
        Opening::of(meta).kind()
    }

    /// Match a bare spelling, exactly.
    pub fn from_spelling(text: &str) -> (r: Option<ShapeKind>)
        ensures
            r == Some(ShapeKind::Path) <==> text@ == "path"@,
            r == Some(ShapeKind::List) <==> text@ == "list"@,
            r == Some(ShapeKind::NameValue) <==> text@ == "name-value"@,
            r is None <==> (text@ != "path"@ && text@ != "list"@ && text@ != "name-value"@),
            r == shape_named(text@),
    {
        proof {
            reveal_strlit("path");
            reveal_strlit("list");
            reveal_strlit("name-value");
            assert("path"@[0] != "list"@[0]);
            assert("path"@.len() != "name-value"@.len());
            assert("list"@.len() != "name-value"@.len());
        }
        if crate::text::str_eq(text, "path") {
            Some(ShapeKind::Path)
        } else if crate::text::str_eq(text, "list") {
            Some(ShapeKind::List)
        } else if crate::text::str_eq(text, "name-value") {
            Some(ShapeKind::NameValue)
        } else {
            None
        }
    }

    /// The spelling as an owned string - what `Display` writes.
    pub fn to_string(self) -> (r: String)
        ensures
            r@ == shape_spelling(self),
    {
        self.spelling().to_string()
    }
}

/// The sealed supertrait of [`Shape`]: exactly the three selectors implement it.
pub trait Sealed {}

impl Sealed for attribute_kind::MetaList {}
impl Sealed for attribute_kind::NamedValue {}
impl Sealed for attribute_kind::Path {}

/// A shape, named by the opening its payload arrives through.
pub trait Shape: Sealed {
    /// The opening a payload of this shape arrives through.
    type Input<'ast>;

    /// The runtime identity this selector stands for.
    fn kind() -> (k: ShapeKind);
}

impl Shape for attribute_kind::MetaList {
    type Input<'ast> = ListBody<'ast>;

    fn kind() -> (k: ShapeKind)
        ensures
            k == ShapeKind::List,
    {
        ShapeKind::List
    }
}

impl Shape for attribute_kind::NamedValue {
    type Input<'ast> = ValueExpr<'ast>;

    fn kind() -> (k: ShapeKind)
        ensures
            k == ShapeKind::NameValue,
    {
        ShapeKind::NameValue
    }
}

impl Shape for attribute_kind::Path {
    type Input<'ast> = PathOnly<'ast>;

    fn kind() -> (k: ShapeKind)
        ensures
            k == ShapeKind::Path,
    {
        ShapeKind::Path
    }
}

/// A payload that is a bare path: `#[no_clean]`.
pub struct PathOnly<'ast>(pub &'ast WrittenPath);

/// A payload written inside delimiters: `#[colour(Red)]`. Its tokens stay unread until asked.
pub struct ListBody<'ast>(pub &'ast TokenStream);

/// A payload after `=`: `#[name = "thing"]`.
pub struct ValueExpr<'ast>(pub &'ast ExprModel);

/// The three ways an attribute's payload can arrive.
pub enum Opening<'ast> {
    Path(PathOnly<'ast>),
    List(ListBody<'ast>),
    Value(ValueExpr<'ast>),
}

/// Which shape an opening is.
pub open spec fn opening_kind(o: Opening) -> ShapeKind {
    match o {
        Opening::Path(_) => ShapeKind::Path,
        Opening::List(_) => ShapeKind::List,
        Opening::Value(_) => ShapeKind::NameValue,
    }
}

/// The shape a meta item was written in.
pub open spec fn meta_shape(m: MetaModel) -> ShapeKind {
    match m.kind {
        MetaKind::Path => ShapeKind::Path,
        MetaKind::List(..) => ShapeKind::List,
        MetaKind::NameValue(_) => ShapeKind::NameValue,
    }
}

impl<'ast> Opening<'ast> {
    /// The opening a meta item's payload arrives through, borrowing what it carries.
    pub fn of(meta: &'ast MetaModel) -> (r: Opening<'ast>)
        ensures
            opening_kind(r) == meta_shape(*meta),
            r matches Opening::Path(p) ==> *p.0 == meta.path,
            r matches Opening::List(b) ==> meta.kind matches MetaKind::List(l) && *b.0 == l.tokens,
            r matches Opening::Value(v) ==> meta.kind matches MetaKind::NameValue(e) && *v.0 == e,
    {
        match &meta.kind {
            MetaKind::Path => Opening::Path(PathOnly(&meta.path)),
            MetaKind::List(list) => Opening::List(ListBody(&list.tokens)),
            MetaKind::NameValue(value) => Opening::Value(ValueExpr(value)),
        }
    }

    /// The shape this opening is - what a `WrongShape` check compares.
    pub fn kind(&self) -> (r: ShapeKind)
        ensures
            r == opening_kind(*self),
    {
        match self {
            Opening::Path(_) => ShapeKind::Path,
            Opening::List(_) => ShapeKind::List,
            Opening::Value(_) => ShapeKind::NameValue,
        }
    }
}

impl<'ast> ListBody<'ast> {
    /// The body read as comma-separated meta items, each one level deep.
    pub fn metas(&self) -> (r: Result<Vec<MetaModel>, syn::Error>)
        ensures
            match (r, metas_parse(*self.0)) {
                (Ok(v), Ok(w)) => v@ == metas_view(w),
                (Err(e), Err(f)) => error_messages(e) == error_messages(f),
                _ => false,
            },
    {
        list_elements(self.0)
    }

    /// The body read as comma-separated expressions - the reading for bare literals.
    pub fn exprs(&self) -> (r: Result<Vec<ExprModel>, syn::Error>)
        ensures
            match (r, exprs_parse(*self.0)) {
                (Ok(v), Ok(w)) => v@ == exprs_view(w),
                (Err(e), Err(f)) => error_messages(e) == error_messages(f),
                _ => false,
            },
    {
        list_values(self.0)
    }

    /// Whether nothing was written inside the delimiters: `targets()`.
    pub fn is_empty(&self) -> (r: bool)
        ensures
            r == stream_is_empty(*self.0),
    {
        tokens_is_empty(self.0)
    }
}

} // verus!
