//! Leaves: the values at the bottom of a grammar - identifiers, paths and literals - read out of
//! the expression on the right of `key = value`.

use vstd::prelude::*;
use proc_macro2::{Span, TokenStream};
use crate::tokens::{error_clone, error_messages, error_new, error_new_spanned};
use crate::tokens::{
    expr_parts, expr_parts_of, expr_path_model, expr_path_view, expr_span, expr_span_of, exprs_parse,
    list_exprs, list_metas, lit_model, lit_view, meta_key, meta_key_token_stream, meta_key_tokens,
    meta_key_view, meta_parts, meta_parts_of, meta_token_stream, meta_tokens, metas_parse,
    tokens_clone,
};
use crate::vocab::walk::{path_ident, KeyHead, Named, WrittenPath};

verus! {

/// A literal as written.
pub enum LitModel {
    Str(String),
    /// An integer literal, as its digits.
    Int(String),
    /// A float literal, as its digits.
    Float(String),
    Bool(bool),
    Char(char),
    ByteStr(Vec<u8>),
    /// Any literal this library does not read.
    Verbatim,
}

/// An expression, as far as a leaf reads it.
pub enum ExprKind {
    Lit(LitModel),
    /// A path expression: `Blue`, `::core::fmt::Debug`.
    Path(WrittenPath),
    /// Anything else.
    Other,
}

/// An expression: what it is, and where it was written.
pub struct ExprModel {
    pub kind: ExprKind,
    pub span: Span,
}

/// How a meta item was written.
pub enum MetaKind {
    /// `key`
    Path,
    /// `key(..)`, with what is inside the delimiters.
    List(ListModel),
    /// `key = value`
    NameValue(ExprModel),
}

/// What is inside a list's delimiters, as written and not yet read.
pub struct ListModel {
    pub tokens: TokenStream,
}

/// A meta item: its key, how it was written, and the whole of it for spans.
pub struct MetaModel {
    pub path: WrittenPath,
    /// The key as written, for spans.
    pub path_tokens: TokenStream,
    pub kind: MetaKind,
    pub tokens: TokenStream,
}

/// Which variant of `syn::Meta` an item is, with what it carries, unread.
pub enum MetaParts {
    Path,
    List(TokenStream),
    NameValue(syn::Expr),
}

/// Which kind of expression a leaf is looking at, with what it carries, unread.
pub enum ExprParts {
    Literal(syn::ExprLit),
    Named(syn::ExprPath),
    Other,
}

/// An expression as a leaf reads it.
pub open spec fn expr_view(e: syn::Expr) -> ExprModel {
    ExprModel {
        kind: match expr_parts_of(e) {
            ExprParts::Literal(l) => ExprKind::Lit(lit_view(l)),
            ExprParts::Named(p) => ExprKind::Path(expr_path_view(p)),
            ExprParts::Other => ExprKind::Other,
        },
        span: expr_span_of(e),
    }
}

/// A meta item as the walk and the readers see it: one level deep, a list's body left unread.
pub open spec fn meta_view(m: syn::Meta) -> MetaModel {
    MetaModel {
        path: meta_key_view(m),
        path_tokens: meta_key_token_stream(m),
        kind: match meta_parts_of(m) {
            MetaParts::Path => MetaKind::Path,
            MetaParts::List(t) => MetaKind::List(ListModel { tokens: t }),
            MetaParts::NameValue(e) => MetaKind::NameValue(expr_view(e)),
        },
        tokens: meta_token_stream(m),
    }
}

/// Each element of a list body, as the walk sees it.
pub open spec fn metas_view(ms: Seq<syn::Meta>) -> Seq<MetaModel> {
    ms.map_values(|m: syn::Meta| meta_view(m))
}

/// Each element of a tuple-like list body, as a leaf reads it.
pub open spec fn exprs_view(es: Seq<syn::Expr>) -> Seq<ExprModel> {
    es.map_values(|e: syn::Expr| expr_view(e))
}

/// Read an expression as a leaf sees it.
pub fn expr_model(e: &syn::Expr) -> (r: ExprModel)
    ensures
        r == expr_view(*e),
{
    let kind = match expr_parts(e) {
        ExprParts::Literal(l) => ExprKind::Lit(lit_model(&l)),
        ExprParts::Named(p) => ExprKind::Path(expr_path_model(&p)),
        ExprParts::Other => ExprKind::Other,
    };
    ExprModel { kind, span: expr_span(e) }
}

/// Read a meta item one level deep: its key, and how it was written.
pub fn meta_model(m: &syn::Meta) -> (r: MetaModel)
    ensures
        r == meta_view(*m),
{
    let kind = match meta_parts(m) {
        MetaParts::Path => MetaKind::Path,
        MetaParts::List(tokens) => MetaKind::List(ListModel { tokens }),
        MetaParts::NameValue(value) => MetaKind::NameValue(expr_model(&value)),
    };
    MetaModel { path: meta_key(m), path_tokens: meta_key_tokens(m), kind, tokens: meta_tokens(m) }
}

/// Read every element of a list body one level deep, in order.
pub fn list_elements(body: &TokenStream) -> (r: Result<Vec<MetaModel>, syn::Error>)
    ensures
        match (r, metas_parse(*body)) {
            (Ok(v), Ok(w)) => v@ == metas_view(w),
            (Err(e), Err(f)) => e == f,
            _ => false,
        },
{
    let raw = match list_metas(body) {
        Ok(raw) => raw,
        Err(error) => {
            return Err(error);
        },
    };
    let mut out: Vec<MetaModel> = Vec::new();
    let mut i: usize = 0;
    while i < raw.len()
        invariant
            i <= raw@.len(),
            out@ == metas_view(raw@.take(i as int)),
        decreases raw@.len() - i,
    {
        let m = meta_model(&raw[i]);
        out.push(m);
        proof {
            assert(metas_view(raw@.take(i + 1)) =~= metas_view(raw@.take(i as int)).push(meta_view(raw@[i as int])));
        }
        i = i + 1;
    }
    proof {
        assert(raw@.take(raw@.len() as int) =~= raw@);
    }
    Ok(out)
}

/// Read every element of a tuple-like list body as an expression, in order.
pub fn list_values(body: &TokenStream) -> (r: Result<Vec<ExprModel>, syn::Error>)
    ensures
        match (r, exprs_parse(*body)) {
            (Ok(v), Ok(w)) => v@ == exprs_view(w),
            (Err(e), Err(f)) => e == f,
            _ => false,
        },
{
    let raw = match list_exprs(body) {
        Ok(raw) => raw,
        Err(error) => {
            return Err(error);
        },
    };
    let mut out: Vec<ExprModel> = Vec::new();
    let mut i: usize = 0;
    while i < raw.len()
        invariant
            i <= raw@.len(),
            out@ == exprs_view(raw@.take(i as int)),
        decreases raw@.len() - i,
    {
        let e = expr_model(&raw[i]);
        out.push(e);
        proof {
            assert(exprs_view(raw@.take(i + 1)) =~= exprs_view(raw@.take(i as int)).push(expr_view(raw@[i as int])));
        }
        i = i + 1;
    }
    proof {
        assert(raw@.take(raw@.len() as int) =~= raw@);
    }
    Ok(out)
}

/// Read a leaf out of an expression.
pub trait FromExpr: Sized {
    /// Whether `out` is what this leaf makes of `expr`. Unless an implementation says more, any
    /// outcome is possible.
    open spec fn reads_expr(expr: ExprModel, out: Result<Self, syn::Error>) -> bool {
        true
    }

    fn from_expr(expr: &ExprModel) -> (r: Result<Self, syn::Error>)
        ensures
            Self::reads_expr(*expr, r),
    ;
}

/// Read a grammar node out of a meta item.
pub trait FromMeta: Sized {
    /// Whether `out` is what this node makes of `meta`. Unless an implementation says more, any
    /// outcome is possible.
    open spec fn reads_meta(meta: MetaModel, out: Result<Self, syn::Error>) -> bool {
        true
    }

    fn from_meta(meta: &MetaModel) -> (r: Result<Self, syn::Error>)
        ensures
            Self::reads_meta(*meta, r),
    ;
}

/// The complaint about a value written as anything but `key = value`.
pub open spec fn not_a_value() -> Seq<char> {
    "expected `key = value` - this node is a value and has to be written as one"@
}

/// What a leaf makes of a meta item: its reading of the value, or - for any other shape - the
/// complaint that a value has to be written as one.
pub open spec fn leaf_meta_reads<T: FromExpr>(meta: MetaModel, r: Result<T, syn::Error>) -> bool {
    match meta.kind {
        MetaKind::NameValue(e) => T::reads_expr(e, r),
        _ => r matches Err(e) && error_messages(e) == seq![not_a_value()],
    }
}

/// A leaf, read as a whole node: only `key = value` carries one.
pub fn leaf_from_meta<T: FromExpr>(meta: &MetaModel) -> (r: Result<T, syn::Error>)
    ensures
        leaf_meta_reads(*meta, r),
{
    match &meta.kind {
        MetaKind::NameValue(value) => T::from_expr(value),
        _ => Err(
            error_new_spanned(
                &meta.tokens,
                "expected `key = value` - this node is a value and has to be written as one",
            ),
        ),
    }
}

/// An identifier.
pub struct Ident(pub String);

/// The complaint about a path that is more than one bare identifier.
pub open spec fn not_bare() -> Seq<char> {
    "expected a bare identifier"@
}

/// The complaint about an expression that is not a path at all.
pub open spec fn not_an_ident() -> Seq<char> {
    "expected an identifier"@
}

impl FromExpr for Ident {
    /// A path expression that is exactly one plain segment - never a literal.
    open spec fn reads_expr(expr: ExprModel, out: Result<Self, syn::Error>) -> bool {
        match expr.kind {
            ExprKind::Path(p) => match path_ident(p) {
                Some(s) => out matches Ok(i) && i.0@ == s,
                None => out matches Err(e) && error_messages(e) == seq![not_bare()],
            },
            _ => out matches Err(e) && error_messages(e) == seq![not_an_ident()],
        }
    }

    fn from_expr(expr: &ExprModel) -> (r: Result<Self, syn::Error>) {
        match &expr.kind {
            ExprKind::Path(path) => match path.get_ident() {
                Some(text) => Ok(Ident(text.to_string())),
                None => Err(error_new(expr.span, "expected a bare identifier")),
            },
            _ => Err(error_new(expr.span, "expected an identifier")),
        }
    }
}

/// The complaint about an expression that is not a path.
pub open spec fn not_a_path() -> Seq<char> {
    "expected a path"@
}

/// A copy of a written path, segment for segment.
pub fn copy_path(p: &WrittenPath) -> (r: WrittenPath)
    ensures
        r.leading_colon == p.leading_colon,
        r.segments@ == p.segments@,
        r.arguments@ == p.arguments@,
{
    let mut segments: Vec<String> = Vec::new();
    let mut i: usize = 0;
    while i < p.segments.len()
        invariant
            i <= p.segments@.len(),
            segments@ == p.segments@.take(i as int),
        decreases p.segments@.len() - i,
    {
        segments.push(p.segments[i].clone());
        proof {
            assert(p.segments@.take(i + 1) =~= p.segments@.take(i as int).push(p.segments@[i as int]));
        }
        i = i + 1;
    }
    proof {
        assert(p.segments@.take(p.segments@.len() as int) =~= p.segments@);
    }
    let mut arguments: Vec<bool> = Vec::new();
    let mut j: usize = 0;
    while j < p.arguments.len()
        invariant
            j <= p.arguments@.len(),
            arguments@ == p.arguments@.take(j as int),
        decreases p.arguments@.len() - j,
    {
        arguments.push(p.arguments[j]);
        proof {
            assert(p.arguments@.take(j + 1) =~= p.arguments@.take(j as int).push(p.arguments@[j as int]));
        }
        j = j + 1;
    }
    proof {
        assert(p.arguments@.take(p.arguments@.len() as int) =~= p.arguments@);
    }
    WrittenPath { leading_colon: p.leading_colon, segments, arguments }
}

impl FromExpr for WrittenPath {
    /// A path expression, every segment kept.
    open spec fn reads_expr(expr: ExprModel, out: Result<Self, syn::Error>) -> bool {
        match expr.kind {
            ExprKind::Path(p) => out matches Ok(q) && q.leading_colon == p.leading_colon
                && q.segments@ == p.segments@ && q.arguments@ == p.arguments@,
            _ => out matches Err(e) && error_messages(e) == seq![not_a_path()],
        }
    }

    fn from_expr(expr: &ExprModel) -> (r: Result<Self, syn::Error>) {
        match &expr.kind {
            ExprKind::Path(path) => Ok(copy_path(path)),
            _ => Err(error_new(expr.span, "expected a path")),
        }
    }
}

/// The kinds of literal a leaf can require.
#[derive(Clone, Copy, PartialEq, Eq, Debug, Structural)]
pub enum LitKind {
    Str,
    Int,
    Float,
    Bool,
    Char,
    ByteStr,
}

/// Whether a literal is of the required kind.
pub open spec fn lit_is(l: LitModel, k: LitKind) -> bool {
    match k {
        LitKind::Str => l is Str,
        LitKind::Int => l is Int,
        LitKind::Float => l is Float,
        LitKind::Bool => l is Bool,
        LitKind::Char => l is Char,
        LitKind::ByteStr => l is ByteStr,
    }
}

/// The complaint about a literal of the wrong kind, or no literal at all.
pub open spec fn expected_lit(k: LitKind) -> Seq<char> {
    match k {
        LitKind::Str => "expected a Str literal"@,
        LitKind::Int => "expected a Int literal"@,
        LitKind::Float => "expected a Float literal"@,
        LitKind::Bool => "expected a Bool literal"@,
        LitKind::Char => "expected a Char literal"@,
        LitKind::ByteStr => "expected a ByteStr literal"@,
    }
}

/// Whether two literals are the same literal.
pub open spec fn lit_eq(a: LitModel, b: LitModel) -> bool {
    match (a, b) {
        (LitModel::ByteStr(x), LitModel::ByteStr(y)) => x@ == y@,
        (LitModel::ByteStr(_), _) => false,
        _ => a == b,
    }
}

/// Whether `r` is the literal `expr` holds when it is of kind `k`, or the complaint otherwise.
pub open spec fn reads_lit(expr: ExprModel, k: LitKind, r: Result<LitModel, syn::Error>) -> bool {
    match expr.kind {
        ExprKind::Lit(l) => if lit_is(l, k) {
            r matches Ok(x) && lit_eq(x, l)
        } else {
            r matches Err(e) && error_messages(e) == seq![expected_lit(k)]
        },
        _ => r matches Err(e) && error_messages(e) == seq![expected_lit(k)],
    }
}

fn expected_lit_text(k: LitKind) -> (r: &'static str)
    ensures
        r@ == expected_lit(k),
{
    match k {
        LitKind::Str => "expected a Str literal",
        LitKind::Int => "expected a Int literal",
        LitKind::Float => "expected a Float literal",
        LitKind::Bool => "expected a Bool literal",
        LitKind::Char => "expected a Char literal",
        LitKind::ByteStr => "expected a ByteStr literal",
    }
}

fn copy_lit(l: &LitModel) -> (r: LitModel)
    ensures
        lit_eq(r, *l),
{
    match l {
        LitModel::Str(s) => LitModel::Str(s.clone()),
        LitModel::Int(s) => LitModel::Int(s.clone()),
        LitModel::Float(s) => LitModel::Float(s.clone()),
        LitModel::Bool(b) => LitModel::Bool(*b),
        LitModel::Char(c) => LitModel::Char(*c),
        LitModel::ByteStr(bytes) => {
            let copy = bytes.clone();
            proof {
                assert(copy@ =~= bytes@);
            }
            LitModel::ByteStr(copy)
        },
        LitModel::Verbatim => LitModel::Verbatim,
    }
}

/// The literal an expression holds, when it is one of kind `k`.
pub fn read_lit(expr: &ExprModel, k: LitKind) -> (r: Result<LitModel, syn::Error>)
    ensures
        reads_lit(*expr, k, r),
{
    let found = match &expr.kind {
        ExprKind::Lit(l) => {
            let matches_kind = match (l, k) {
                (LitModel::Str(_), LitKind::Str) => true,
                (LitModel::Int(_), LitKind::Int) => true,
                (LitModel::Float(_), LitKind::Float) => true,
                (LitModel::Bool(_), LitKind::Bool) => true,
                (LitModel::Char(_), LitKind::Char) => true,
                (LitModel::ByteStr(_), LitKind::ByteStr) => true,
                _ => false,
            };
            if matches_kind {
                Some(copy_lit(l))
            } else {
                None
            }
        },
        _ => None,
    };
    match found {
        Some(l) => Ok(l),
        None => Err(error_new(expr.span, expected_lit_text(k))),
    }
}

/// A string literal's value.
pub struct LitStr(pub String);

impl FromExpr for LitStr {
    open spec fn reads_expr(expr: ExprModel, out: Result<Self, syn::Error>) -> bool {
        match expr.kind {
            ExprKind::Lit(LitModel::Str(s)) => out matches Ok(v) && v.0 == s,
            _ => out matches Err(e) && error_messages(e) == seq![expected_lit(LitKind::Str)],
        }
    }

    fn from_expr(expr: &ExprModel) -> (r: Result<Self, syn::Error>) {
        match read_lit(expr, LitKind::Str)? {
            LitModel::Str(s) => Ok(LitStr(s)),
            _ => Err(error_new(expr.span, "expected a Str literal")),
        }
    }
}

/// An integer literal, as its digits.
pub struct LitInt(pub String);

impl FromExpr for LitInt {
    open spec fn reads_expr(expr: ExprModel, out: Result<Self, syn::Error>) -> bool {
        match expr.kind {
            ExprKind::Lit(LitModel::Int(s)) => out matches Ok(v) && v.0 == s,
            _ => out matches Err(e) && error_messages(e) == seq![expected_lit(LitKind::Int)],
        }
    }

    fn from_expr(expr: &ExprModel) -> (r: Result<Self, syn::Error>) {
        match read_lit(expr, LitKind::Int)? {
            LitModel::Int(s) => Ok(LitInt(s)),
            _ => Err(error_new(expr.span, "expected a Int literal")),
        }
    }
}

/// A float literal, as its digits.
pub struct LitFloat(pub String);

impl FromExpr for LitFloat {
    open spec fn reads_expr(expr: ExprModel, out: Result<Self, syn::Error>) -> bool {
        match expr.kind {
            ExprKind::Lit(LitModel::Float(s)) => out matches Ok(v) && v.0 == s,
            _ => out matches Err(e) && error_messages(e) == seq![expected_lit(LitKind::Float)],
        }
    }

    fn from_expr(expr: &ExprModel) -> (r: Result<Self, syn::Error>) {
        match read_lit(expr, LitKind::Float)? {
            LitModel::Float(s) => Ok(LitFloat(s)),
            _ => Err(error_new(expr.span, "expected a Float literal")),
        }
    }
}

/// A character literal.
pub struct LitChar(pub char);

impl FromExpr for LitChar {
    open spec fn reads_expr(expr: ExprModel, out: Result<Self, syn::Error>) -> bool {
        match expr.kind {
            ExprKind::Lit(LitModel::Char(c)) => out matches Ok(v) && v.0 == c,
            _ => out matches Err(e) && error_messages(e) == seq![expected_lit(LitKind::Char)],
        }
    }

    fn from_expr(expr: &ExprModel) -> (r: Result<Self, syn::Error>) {
        match read_lit(expr, LitKind::Char)? {
            LitModel::Char(c) => Ok(LitChar(c)),
            _ => Err(error_new(expr.span, "expected a Char literal")),
        }
    }
}

/// A byte-string literal.
pub struct LitByteStr(pub Vec<u8>);

impl FromExpr for LitByteStr {
    open spec fn reads_expr(expr: ExprModel, out: Result<Self, syn::Error>) -> bool {
        match expr.kind {
            ExprKind::Lit(LitModel::ByteStr(b)) => out matches Ok(v) && v.0@ == b@,
            _ => out matches Err(e) && error_messages(e) == seq![expected_lit(LitKind::ByteStr)],
        }
    }

    fn from_expr(expr: &ExprModel) -> (r: Result<Self, syn::Error>) {
        match read_lit(expr, LitKind::ByteStr)? {
            LitModel::ByteStr(b) => Ok(LitByteStr(b)),
            _ => Err(error_new(expr.span, "expected a ByteStr literal")),
        }
    }
}

/// A boolean literal.
pub struct LitBool(pub bool);

impl FromExpr for LitBool {
    open spec fn reads_expr(expr: ExprModel, out: Result<Self, syn::Error>) -> bool {
        match expr.kind {
            ExprKind::Lit(LitModel::Bool(b)) => out matches Ok(v) && v.0 == b,
            _ => out matches Err(e) && error_messages(e) == seq![expected_lit(LitKind::Bool)],
        }
    }

    fn from_expr(expr: &ExprModel) -> (r: Result<Self, syn::Error>) {
        match read_lit(expr, LitKind::Bool)? {
            LitModel::Bool(b) => Ok(LitBool(b)),
            _ => Err(error_new(expr.span, "expected a Bool literal")),
        }
    }
}

impl FromExpr for bool {
    /// A boolean is read through its literal.
    open spec fn reads_expr(expr: ExprModel, out: Result<Self, syn::Error>) -> bool {
        match expr.kind {
            ExprKind::Lit(LitModel::Bool(b)) => out == Ok::<bool, syn::Error>(b),
            _ => out matches Err(e) && error_messages(e) == seq![expected_lit(LitKind::Bool)],
        }
    }

    fn from_expr(expr: &ExprModel) -> (r: Result<Self, syn::Error>) {
        let lit = LitBool::from_expr(expr)?;
        Ok(lit.0)
    }
}

impl FromMeta for Ident {
    open spec fn reads_meta(meta: MetaModel, out: Result<Self, syn::Error>) -> bool {
        leaf_meta_reads(meta, out)
    }

    fn from_meta(meta: &MetaModel) -> (r: Result<Self, syn::Error>) {
        leaf_from_meta(meta)
    }
}

impl FromMeta for WrittenPath {
    open spec fn reads_meta(meta: MetaModel, out: Result<Self, syn::Error>) -> bool {
        leaf_meta_reads(meta, out)
    }

    fn from_meta(meta: &MetaModel) -> (r: Result<Self, syn::Error>) {
        leaf_from_meta(meta)
    }
}

impl FromMeta for bool {
    open spec fn reads_meta(meta: MetaModel, out: Result<Self, syn::Error>) -> bool {
        leaf_meta_reads(meta, out)
    }

    fn from_meta(meta: &MetaModel) -> (r: Result<Self, syn::Error>) {
        leaf_from_meta(meta)
    }
}

impl FromMeta for LitStr {
    open spec fn reads_meta(meta: MetaModel, out: Result<Self, syn::Error>) -> bool {
        leaf_meta_reads(meta, out)
    }

    fn from_meta(meta: &MetaModel) -> (r: Result<Self, syn::Error>) {
        leaf_from_meta(meta)
    }
}

impl FromMeta for LitInt {
    open spec fn reads_meta(meta: MetaModel, out: Result<Self, syn::Error>) -> bool {
        leaf_meta_reads(meta, out)
    }

    fn from_meta(meta: &MetaModel) -> (r: Result<Self, syn::Error>) {
        leaf_from_meta(meta)
    }
}

/// The head of one element of a list body, as the walk dispatches on it: its key's spelling
/// when the key is a bare identifier, and the key as written, for spans.
pub fn key_head(meta: &MetaModel) -> (r: KeyHead)
    ensures
        match r.ident {
            Some(s) => path_ident(meta.path) == Some(s@),
            None => path_ident(meta.path) is None,
        },
        r.tokens == meta.path_tokens,
{
    let ident = match meta.path.get_ident() {
        Some(text) => Some(text.to_string()),
        None => None,
    };
    KeyHead { ident, tokens: tokens_clone(&meta.path_tokens) }
}

/// Whether two expressions are the same expression, written at the same place.
pub open spec fn expr_eq(a: ExprModel, b: ExprModel) -> bool {
    &&& a.span == b.span
    &&& match (a.kind, b.kind) {
        (ExprKind::Lit(x), ExprKind::Lit(y)) => lit_eq(x, y),
        (ExprKind::Path(p), ExprKind::Path(q)) => p.leading_colon == q.leading_colon
            && p.segments@ == q.segments@ && p.arguments@ == q.arguments@,
        (ExprKind::Other, ExprKind::Other) => true,
        _ => false,
    }
}

impl FromExpr for ExprModel {
    /// A free-form leaf: any expression is accepted, as written.
    open spec fn reads_expr(expr: ExprModel, out: Result<Self, syn::Error>) -> bool {
        out matches Ok(e) && expr_eq(e, expr)
    }

    fn from_expr(expr: &ExprModel) -> (r: Result<Self, syn::Error>) {
        let kind = match &expr.kind {
            ExprKind::Lit(l) => ExprKind::Lit(copy_lit(l)),
            ExprKind::Path(p) => ExprKind::Path(copy_path(p)),
            ExprKind::Other => ExprKind::Other,
        };
        Ok(ExprModel { kind, span: expr.span })
    }
}

impl FromMeta for ExprModel {
    open spec fn reads_meta(meta: MetaModel, out: Result<Self, syn::Error>) -> bool {
        leaf_meta_reads(meta, out)
    }

    fn from_meta(meta: &MetaModel) -> (r: Result<Self, syn::Error>) {
        leaf_from_meta(meta)
    }
}

/// The positional values of a list written as a tuple: `bounds(0, 64)`. A bare literal is no
/// meta item, so such a body is read as expressions; how many is fixed by the declaration, and
/// any other count is an error on the whole body.
pub fn positional(list: &ListModel, arity: usize, what: &str) -> (r: Result<Vec<ExprModel>, syn::Error>)
    ensures
        match exprs_parse(list.tokens) {
            Err(e) => r matches Err(x) && error_messages(x) == error_messages(e),
            Ok(v) => if v.len() == arity {
                r matches Ok(w) && w@ == exprs_view(v)
            } else {
                r matches Err(x) && error_messages(x) == seq![
                    crate::vocab::variants::arity_message(what@, arity as nat, v.len()),
                ]
            },
        },
{
    let exprs = list_values(&list.tokens)?;
    match crate::vocab::variants::check_arity(what, arity, exprs.len()) {
        Ok(()) => Ok(exprs),
        Err(message) => Err(error_new_spanned(&list.tokens, message.as_str())),
    }
}

impl Named for MetaModel {
    /// The last segment of the item's key, which is how variant names are matched.
    fn last_segment(&self) -> (r: Option<String>)
        ensures
            match r {
                Some(s) => self.path.segments@.len() > 0 && s@ == self.path.segments@.last()@,
                None => self.path.segments@.len() == 0,
            },
    {
        self.path.last_segment()
    }
}

} // verus!
