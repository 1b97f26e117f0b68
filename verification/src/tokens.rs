//! The syntax types this library carries or reads one level deep, `syn::Error`, which it
//! accumulates, and the calls into `syn` and `proc-macro2` it makes.
//!
//! A `syn::Error` is a list of messages, each with a place it points at; `combine` appends one
//! list to another, and `Display` shows the first message. Both are modelled: the messages as
//! text, and each place as the span an error was built at, or the run of tokens whose first and
//! last spans it was built over.

use vstd::prelude::*;
use proc_macro2::{Span, TokenStream};
use quote::ToTokens;
use crate::vocab::leaves::{ExprParts, LitModel, MetaParts};
use crate::vocab::walk::WrittenPath;

verus! {

#[verifier::external_type_specification]
#[verifier::external_body]
pub struct ExSpan(proc_macro2::Span);

#[verifier::external_type_specification]
#[verifier::external_body]
pub struct ExTokenStream(proc_macro2::TokenStream);

#[verifier::external_type_specification]
#[verifier::external_body]
pub struct ExSynError(syn::Error);

/// The messages a `syn::Error` holds, in the order `to_compile_error` emits them.
pub uninterp spec fn error_messages(e: syn::Error) -> Seq<Seq<char>>;

/// Where one message of a `syn::Error` points: at one span, or over the range syn takes from a
/// run of tokens (from the first token's span to the last's).
pub enum ErrorAnchor {
    At(Span),
    Over(TokenStream),
}

/// Where each message of a `syn::Error` points, in the order of `error_messages`.
pub uninterp spec fn error_anchors(e: syn::Error) -> Seq<ErrorAnchor>;

/// What an error says and where: each message, with the place it points at.
pub struct Complaint {
    pub messages: Seq<Seq<char>>,
    pub anchors: Seq<ErrorAnchor>,
}

/// What a `syn::Error` says and where.
pub open spec fn complaint(e: syn::Error) -> Complaint {
    Complaint { messages: error_messages(e), anchors: error_anchors(e) }
}

/// One message, over the range of `tokens` - what `syn::Error::new_spanned` builds.
pub open spec fn one_over(message: Seq<char>, tokens: TokenStream) -> Complaint {
    Complaint { messages: seq![message], anchors: seq![ErrorAnchor::Over(tokens)] }
}

/// One message, at `span` - what `syn::Error::new` builds.
pub open spec fn one_at(message: Seq<char>, span: Span) -> Complaint {
    Complaint { messages: seq![message], anchors: seq![ErrorAnchor::At(span)] }
}

/// `syn::Error::new`: one message, at one span.
#[verifier::external_body]
pub(crate) fn error_new(span: Span, message: &str) -> (e: syn::Error)
    ensures
        error_messages(e) == seq![message@],
        error_anchors(e) == seq![ErrorAnchor::At(span)],
{
    syn::Error::new(span, message)
}

/// `syn::Error::new_spanned`: one message, spanning every token of `tokens`.
#[verifier::external_body]
pub(crate) fn error_new_spanned(tokens: &TokenStream, message: &str) -> (e: syn::Error)
    ensures
        error_messages(e) == seq![message@],
        error_anchors(e) == seq![ErrorAnchor::Over(*tokens)],
{
    syn::Error::new_spanned(tokens, message)
}

/// `syn::Error::combine`: the other error's messages are appended, each keeping its span.
#[verifier::external_body]
pub(crate) fn error_combine(e: &mut syn::Error, other: syn::Error)
    ensures
        error_messages(*final(e)) == error_messages(*old(e)) + error_messages(other),
        error_anchors(*final(e)) == error_anchors(*old(e)) + error_anchors(other),
{
    e.combine(other)
}

/// `Clone for syn::Error`: the same messages, the same spans.
#[verifier::external_body]
pub(crate) fn error_clone(e: &syn::Error) -> (r: syn::Error)
    ensures
        error_messages(r) == error_messages(*e),
        error_anchors(r) == error_anchors(*e),
{
    e.clone()
}

/// What `Display for syn::Error` writes.
pub uninterp spec fn error_display(e: syn::Error) -> Seq<char>;

/// `Display for syn::Error` (through `to_string`): the first message.
///
/// `Display` writes the first message; every constructor of `syn::Error` makes at least one, so
/// the second clause covers every value that can exist.
#[verifier::external_body]
pub(crate) fn error_text(e: &syn::Error) -> (r: String)
    ensures
        r@ == error_display(*e),
        error_messages(*e).len() > 0 ==> r@ == error_messages(*e)[0],
{
    e.to_string()
}

/// `TokenStream::clone`, for a node carried only to be re-emitted or spanned against.
#[verifier::external_body]
pub(crate) fn tokens_clone(t: &TokenStream) -> (r: TokenStream)
    ensures
        r == *t,
{
    t.clone()
}

/// Whether a stream holds no tokens at all.
pub uninterp spec fn stream_is_empty(t: TokenStream) -> bool;

/// `TokenStream::is_empty`.
#[verifier::external_body]
pub(crate) fn tokens_is_empty(t: &TokenStream) -> (r: bool)
    ensures
        r == stream_is_empty(*t),
{
    t.is_empty()
}

#[verifier::external_type_specification]
#[verifier::external_body]
pub struct ExSynType(syn::Type);


/// What `syn::parse2::<syn::Type>` makes of a stream.
pub uninterp spec fn type_parse(t: TokenStream) -> Result<syn::Type, syn::Error>;

/// `syn::parse2::<syn::Type>`, on a copy of the stream.
#[verifier::external_body]
pub(crate) fn parse_type(t: &TokenStream) -> (r: Result<syn::Type, syn::Error>)
    ensures
        r == type_parse(*t),
{
    syn::parse2::<syn::Type>(t.clone())
}

/// What `syn::parse2::<syn::Ident>` makes of a stream, the identifier taken as its text.
pub uninterp spec fn ident_parse(t: TokenStream) -> Result<Seq<char>, syn::Error>;

/// `syn::parse2::<syn::Ident>`, on a copy of the stream, the identifier converted to its text.
#[verifier::external_body]
pub(crate) fn parse_ident(t: &TokenStream) -> (r: Result<String, syn::Error>)
    ensures
        match (r, ident_parse(*t)) {
            (Ok(s), Ok(v)) => s@ == v,
            (Err(e), Err(f)) => e == f,
            _ => false,
        },
{
    match syn::parse2::<syn::Ident>(t.clone()) {
        Ok(ident) => Ok(ident.to_string()),
        Err(error) => Err(error),
    }
}

/// Where `Spanned::span` places a stream.
pub uninterp spec fn stream_span(t: TokenStream) -> Span;

/// `syn::spanned::Spanned::span` on a token stream.
#[verifier::external_body]
pub(crate) fn span_of(t: &TokenStream) -> (r: Span)
    ensures
        r == stream_span(*t),
{
    syn::spanned::Spanned::span(t)
}

/// The text `Display for TokenStream` writes.
pub uninterp spec fn token_text(t: TokenStream) -> Seq<char>;

/// `TokenStream::to_string`.
#[verifier::external_body]
pub(crate) fn tokens_to_string(t: &TokenStream) -> (r: String)
    ensures
        r@ == token_text(*t),
{
    t.to_string()
}

#[verifier::external_type_specification]
#[verifier::external_body]
pub struct ExSynMeta(syn::Meta);

#[verifier::external_type_specification]
#[verifier::external_body]
pub struct ExSynExpr(syn::Expr);

#[verifier::external_type_specification]
#[verifier::external_body]
pub struct ExSynExprPath(syn::ExprPath);

#[verifier::external_type_specification]
#[verifier::external_body]
pub struct ExSynExprLit(syn::ExprLit);

/// What `Punctuated::<syn::Meta, Token![,]>::parse_terminated` makes of a list body.
pub uninterp spec fn metas_parse(body: TokenStream) -> Result<Seq<syn::Meta>, syn::Error>;

/// `Punctuated::<syn::Meta, Token![,]>::parse_terminated` on a copy of a list body: its elements,
/// each read one level deep - its key and how it was written.
#[verifier::external_body]
pub(crate) fn list_metas(body: &TokenStream) -> (r: Result<Vec<syn::Meta>, syn::Error>)
    ensures
        match (r, metas_parse(*body)) {
            (Ok(v), Ok(w)) => v@ == w,
            (Err(e), Err(f)) => e == f,
            _ => false,
        },
{
    let parser = syn::punctuated::Punctuated::<syn::Meta, syn::token::Comma>::parse_terminated;
    syn::parse::Parser::parse2(parser, body.clone()).map(|metas| metas.into_iter().collect())
}

/// What `Punctuated::<syn::Expr, Token![,]>::parse_terminated` makes of a list body.
pub uninterp spec fn exprs_parse(body: TokenStream) -> Result<Seq<syn::Expr>, syn::Error>;

/// `Punctuated::<syn::Expr, Token![,]>::parse_terminated` on a copy of a list body.
#[verifier::external_body]
pub(crate) fn list_exprs(body: &TokenStream) -> (r: Result<Vec<syn::Expr>, syn::Error>)
    ensures
        match (r, exprs_parse(*body)) {
            (Ok(v), Ok(w)) => v@ == w,
            (Err(e), Err(f)) => e == f,
            _ => false,
        },
{
    let parser = syn::punctuated::Punctuated::<syn::Expr, syn::token::Comma>::parse_terminated;
    syn::parse::Parser::parse2(parser, body.clone()).map(|exprs| exprs.into_iter().collect())
}

/// Which of `syn::Meta`'s variants a meta item is, with what that variant carries.
pub uninterp spec fn meta_parts_of(m: syn::Meta) -> MetaParts;

/// The variants of `syn::Meta` told apart: a list keeps its body's tokens unread, a name-value
/// its right-hand expression.
#[verifier::external_body]
pub(crate) fn meta_parts(m: &syn::Meta) -> (r: MetaParts)
    ensures
        r == meta_parts_of(*m),
{
    match m {
        syn::Meta::Path(_) => MetaParts::Path,
        syn::Meta::List(list) => MetaParts::List(list.tokens.clone()),
        syn::Meta::NameValue(nv) => MetaParts::NameValue(nv.value.clone()),
    }
}

/// The key of a meta item as written: its leading `::`, each segment's identifier, and for each
/// segment whether it has arguments.
pub uninterp spec fn meta_key_view(m: syn::Meta) -> WrittenPath;

/// `syn::Meta::path`, its fields converted: `leading_colon`, each segment's `ident` as text, and
/// for each segment whether its `arguments` is other than `PathArguments::None`.
#[verifier::external_body]
pub(crate) fn meta_key(m: &syn::Meta) -> (r: WrittenPath)
    ensures
        r == meta_key_view(*m),
{
    let p = m.path();
    WrittenPath {
        leading_colon: p.leading_colon.is_some(),
        segments: p.segments.iter().map(|s| s.ident.to_string()).collect(),
        arguments: p.segments.iter().map(|s| !s.arguments.is_none()).collect(),
    }
}

/// What `ToTokens::to_token_stream` re-emits a meta item's key as.
pub uninterp spec fn meta_key_token_stream(m: syn::Meta) -> TokenStream;

/// `ToTokens::to_token_stream` on `syn::Meta::path`.
#[verifier::external_body]
pub(crate) fn meta_key_tokens(m: &syn::Meta) -> (r: TokenStream)
    ensures
        r == meta_key_token_stream(*m),
{
    m.path().to_token_stream()
}

/// What `ToTokens::to_token_stream` re-emits a meta item as.
pub uninterp spec fn meta_token_stream(m: syn::Meta) -> TokenStream;

/// `ToTokens::to_token_stream` on a meta item.
#[verifier::external_body]
pub(crate) fn meta_tokens(m: &syn::Meta) -> (r: TokenStream)
    ensures
        r == meta_token_stream(*m),
{
    m.to_token_stream()
}

/// A path expression's path as written, as `meta_key_view` reads a key.
pub uninterp spec fn expr_path_view(p: syn::ExprPath) -> WrittenPath;

/// `syn::ExprPath::path`, its fields converted as `meta_key` converts a key.
#[verifier::external_body]
pub(crate) fn expr_path_model(p: &syn::ExprPath) -> (r: WrittenPath)
    ensures
        r == expr_path_view(*p),
{
    WrittenPath {
        leading_colon: p.path.leading_colon.is_some(),
        segments: p.path.segments.iter().map(|s| s.ident.to_string()).collect(),
        arguments: p.path.segments.iter().map(|s| !s.arguments.is_none()).collect(),
    }
}

/// Which of the expression kinds a leaf reads an expression is, with what it carries.
pub uninterp spec fn expr_parts_of(e: syn::Expr) -> ExprParts;

/// The variants of `syn::Expr` a leaf reads told apart; every other variant is `Other`.
#[verifier::external_body]
pub(crate) fn expr_parts(e: &syn::Expr) -> (r: ExprParts)
    ensures
        r == expr_parts_of(*e),
{
    match e {
        syn::Expr::Lit(lit) => ExprParts::Literal(lit.clone()),
        syn::Expr::Path(path) => ExprParts::Named(path.clone()),
        _ => ExprParts::Other,
    }
}

/// Where `Spanned::span` places an expression.
pub uninterp spec fn expr_span_of(e: syn::Expr) -> Span;

/// `syn::spanned::Spanned::span` on an expression.
#[verifier::external_body]
pub(crate) fn expr_span(e: &syn::Expr) -> (r: Span)
    ensures
        r == expr_span_of(*e),
{
    syn::spanned::Spanned::span(e)
}

/// A literal's value: a string's contents, a number's digits, a boolean, a character, bytes.
pub uninterp spec fn lit_view(l: syn::ExprLit) -> LitModel;

/// The variants of `syn::Lit` told apart, each converted to its value: `LitStr::value`,
/// `base10_digits`, `LitBool::value`, `LitChar::value`, `LitByteStr::value`.
#[verifier::external_body]
pub(crate) fn lit_model(l: &syn::ExprLit) -> (r: LitModel)
    ensures
        r == lit_view(*l),
{
    match &l.lit {
        syn::Lit::Str(v) => LitModel::Str(v.value()),
        syn::Lit::Int(v) => LitModel::Int(v.base10_digits().to_string()),
        syn::Lit::Float(v) => LitModel::Float(v.base10_digits().to_string()),
        syn::Lit::Bool(v) => LitModel::Bool(v.value),
        syn::Lit::Char(v) => LitModel::Char(v.value()),
        syn::Lit::ByteStr(v) => LitModel::ByteStr(v.value()),
        _ => LitModel::Verbatim,
    }
}

#[verifier::external_type_specification]
#[verifier::external_body]
pub struct ExSynAttribute(syn::Attribute);

/// What `syn::Attribute::parse_args::<syn::Expr>` makes of an attribute, the expression re-emitted
/// as tokens.
pub uninterp spec fn attr_expr_parse(a: syn::Attribute) -> Result<TokenStream, syn::Error>;

/// `syn::Attribute::parse_args::<syn::Expr>`, the expression re-emitted as tokens.
#[verifier::external_body]
pub(crate) fn attr_expr(a: &syn::Attribute) -> (r: Result<TokenStream, syn::Error>)
    ensures
        r == attr_expr_parse(*a),
{
    a.parse_args::<syn::Expr>().map(|expr| expr.to_token_stream())
}

/// What `syn::Attribute::parse_args::<syn::Type>` makes of an attribute, the type re-emitted.
pub uninterp spec fn attr_type_parse(a: syn::Attribute) -> Result<TokenStream, syn::Error>;

/// `syn::Attribute::parse_args::<syn::Type>`, the type re-emitted as tokens.
#[verifier::external_body]
pub(crate) fn attr_type(a: &syn::Attribute) -> (r: Result<TokenStream, syn::Error>)
    ensures
        r == attr_type_parse(*a),
{
    a.parse_args::<syn::Type>().map(|ty| ty.to_token_stream())
}

/// What `syn::Attribute::parse_args::<syn::Path>` makes of an attribute, the path re-emitted.
pub uninterp spec fn attr_path_parse(a: syn::Attribute) -> Result<TokenStream, syn::Error>;

/// `syn::Attribute::parse_args::<syn::Path>`, the path re-emitted as tokens.
#[verifier::external_body]
pub(crate) fn attr_path(a: &syn::Attribute) -> (r: Result<TokenStream, syn::Error>)
    ensures
        r == attr_path_parse(*a),
{
    a.parse_args::<syn::Path>().map(|path| path.to_token_stream())
}

/// What `syn::Attribute::parse_args_with(Punctuated::<syn::LitStr, Token![,]>::parse_terminated)`
/// makes of an attribute, each literal taken as its value.
pub uninterp spec fn attr_strings_parse(a: syn::Attribute) -> Result<Seq<Seq<char>>, syn::Error>;

/// `syn::Attribute::parse_args_with(Punctuated::<syn::LitStr, Token![,]>::parse_terminated)`,
/// each literal converted by `LitStr::value`.
#[verifier::external_body]
pub(crate) fn attr_strings(a: &syn::Attribute) -> (r: Result<Vec<String>, syn::Error>)
    ensures
        match (r, attr_strings_parse(*a)) {
            (Ok(v), Ok(w)) => v@.map_values(|s: String| s@) == w,
            (Err(e), Err(f)) => e == f,
            _ => false,
        },
{
    let parser = syn::punctuated::Punctuated::<syn::LitStr, syn::token::Comma>::parse_terminated;
    a.parse_args_with(parser).map(|lits| lits.iter().map(|lit| lit.value()).collect())
}

/// Where the arguments of a list attribute end: the span of its closing delimiter; `None` for an
/// attribute not written as a list.
pub uninterp spec fn args_end_of(a: syn::Attribute) -> Option<Span>;

/// `MacroDelimiter::span().close()` of a list attribute - where syn points a complaint about
/// arguments that ran out.
#[verifier::external_body]
pub(crate) fn args_end(a: &syn::Attribute) -> (r: Option<Span>)
    ensures
        r == args_end_of(*a),
{
    match &a.meta {
        syn::Meta::List(list) => Some(list.delimiter.span().close()),
        _ => None,
    }
}

} // verus!
