//! The framework's own first pipeline: a struct, its fields, and the helper attributes on each
//! field, read by hand-written extractors into a tree whose reasons the render walk collects.

use vstd::prelude::*;
use proc_macro2::{Span, TokenStream};
use crate::extractor::{Extracted, Extraction, Extractor, Reason, ReasonKind, Validate};
use crate::render::{Diagnose, SourceNode};
use crate::resolution::{Resolved, Unresolved};
use crate::tokens::{ident_parse, ErrorAnchor, span_of, stream_span, tokens_clone, type_parse};
use crate::vocab::names::{helper_named, SyntaxHelper};
use crate::vocab::walk::{path_ident, WrittenPath};

pub mod processor;
pub mod generator;

verus! {

/// One attribute written on a field.
pub struct AttributeNode {
    /// Its head.
    pub path: WrittenPath,
    /// Where the head was written.
    pub path_span: Span,
    /// The tokens inside its delimiters, when it was written as a list: `#[head(..)]`.
    pub list: Option<TokenStream>,
    /// The whole attribute.
    pub tokens: TokenStream,
}

/// One field of a struct.
pub struct FieldNode {
    /// Its name; `None` in a tuple struct.
    pub ident: Option<String>,
    pub attrs: Vec<AttributeNode>,
    /// The whole field.
    pub tokens: TokenStream,
}

/// What kind of item a derive was applied to; only a struct has fields to read.
pub enum ItemData {
    Struct(Vec<FieldNode>),
    Enum,
    Union,
}

/// The item a derive was applied to.
pub struct ItemNode {
    pub ident: String,
    /// Where its name was written - what the author can act on.
    pub ident_span: Span,
    pub data: ItemData,
    /// The whole item.
    pub tokens: TokenStream,
    /// Its generics as an impl block declares them, as the type names them, and its `where`
    /// clause - carried for the generated impl and never read.
    pub impl_generics: TokenStream,
    pub type_generics: TokenStream,
    pub where_clause: TokenStream,
}

impl SourceNode for AttributeNode {
    open spec fn spec_node_tokens(&self) -> TokenStream {
        self.tokens
    }

    fn node_tokens(&self) -> (r: TokenStream)
        ensures
            r == self.tokens,
    {
        tokens_clone(&self.tokens)
    }
}

impl SourceNode for FieldNode {
    open spec fn spec_node_tokens(&self) -> TokenStream {
        self.tokens
    }

    fn node_tokens(&self) -> (r: TokenStream)
        ensures
            r == self.tokens,
    {
        tokens_clone(&self.tokens)
    }
}

impl SourceNode for ItemNode {
    open spec fn spec_node_tokens(&self) -> TokenStream {
        self.tokens
    }

    fn node_tokens(&self) -> (r: TokenStream)
        ensures
            r == self.tokens,
    {
        tokens_clone(&self.tokens)
    }
}

/// A helper attribute's argument, carried unread.
pub enum SyntaxFieldAttributeKind<'ast> {
    /// `#[shape(..)]`: a type, re-emitted verbatim where the generator splices it.
    Shape(Unresolved<'ast, syn::Type>),
    /// `#[alias(..)]`: a name the attribute introduces.
    Alias(Unresolved<'ast, String>),
}

/// One helper attribute on a grammar field, with its argument still unread.
pub struct SyntaxFieldAttributeExtraction<'ast> {
    attribute: &'ast AttributeNode,
    kind: SyntaxFieldAttributeKind<'ast>,
}

/// Which helper a kind is.
pub open spec fn kind_helper(k: SyntaxFieldAttributeKind) -> SyntaxHelper {
    match k {
        SyntaxFieldAttributeKind::Shape(_) => SyntaxHelper::Shape,
        SyntaxFieldAttributeKind::Alias(_) => SyntaxHelper::Alias,
    }
}

/// The argument tokens a kind carries.
pub open spec fn kind_tokens<'ast>(k: SyntaxFieldAttributeKind<'ast>) -> &'ast TokenStream {
    match k {
        SyntaxFieldAttributeKind::Shape(u) => u.carried(),
        SyntaxFieldAttributeKind::Alias(u) => u.carried(),
    }
}

impl<'ast> SyntaxFieldAttributeExtraction<'ast> {
    /// The attribute this was read from.
    pub closed spec fn spec_attribute(&self) -> &'ast AttributeNode {
        self.attribute
    }

    /// The argument, unread.
    pub closed spec fn spec_kind(&self) -> SyntaxFieldAttributeKind<'ast> {
        self.kind
    }

    /// Which helper this is.
    pub open spec fn spec_helper(&self) -> SyntaxHelper {
        kind_helper(self.spec_kind())
    }

    /// The argument tokens, unread.
    pub open spec fn spec_tokens(&self) -> &'ast TokenStream {
        kind_tokens(self.spec_kind())
    }

    pub fn kind(&self) -> (r: &SyntaxFieldAttributeKind<'ast>)
        ensures
            *r == self.spec_kind(),
    {
        &self.kind
    }
}

/// The helper an attribute's head names, when its head is one of ours.
pub open spec fn attribute_helper(a: AttributeNode) -> Option<SyntaxHelper> {
    match path_ident(a.path) {
        Some(text) => helper_named(text),
        None => None,
    }
}

impl<'ast> Validate for SyntaxFieldAttributeExtraction<'ast> {
    type Source = &'ast AttributeNode;

    /// The head resolved to the helper it names, so no later stage repeats the comparison.
    type Valid = (&'ast AttributeNode, SyntaxHelper);

    /// Is this attribute one of ours? No token inside it is interpreted to answer.
    fn validate(input: &'ast AttributeNode) -> (r: Result<(&'ast AttributeNode, SyntaxHelper), Reason>)
        ensures
            match r {
                Ok((a, h)) => a == input && attribute_helper(*input) == Some(h),
                Err(reason) => attribute_helper(*input) is None && reason.spec_kind()
                    == ReasonKind::UnknownKey && reason.spec_span() == Some(input.path_span),
            },
    {
        let helper = match input.path.get_ident() {
            Some(text) => SyntaxHelper::from_spelling(text),
            None => None,
        };
        match helper {
            Some(h) => Ok((input, h)),
            None => Err(Reason::at(ReasonKind::UnknownKey, input.path_span)),
        }
    }
}

/// What reading one attribute produces: nothing at all for a head that is not ours (it belongs
/// to another macro, and is rustc's to check), a wrong-shape complaint for one of ours not
/// written as a list, and otherwise the helper with its argument carried unread.
pub open spec fn reads_attribute<'ast>(
    node: &'ast AttributeNode,
    out: Extraction<SyntaxFieldAttributeExtraction<'ast>>,
) -> bool {
    match attribute_helper(*node) {
        None => out.value is None && out.reasons@.len() == 0,
        Some(h) => match node.list {
            None => out.value is None && out.reasons@.len() == 1 && out.reasons@[0].spec_kind()
                == ReasonKind::WrongShape && out.reasons@[0].spec_span() is None,
            Some(t) => out.reasons@.len() == 0 && (out.value matches Some(v) && v.spec_helper() == h
                && *v.spec_tokens() == t && v.spec_attribute() == node),
        },
    }
}

fn read_attribute<'ast>(node: &'ast AttributeNode) -> (r: Extraction<
    SyntaxFieldAttributeExtraction<'ast>,
>)
    ensures
        reads_attribute(node, r),
{
    let (attribute, helper) = match SyntaxFieldAttributeExtraction::validate(node) {
        Ok(valid) => valid,
        Err(_) => {
            return Extraction::empty();
        },
    };
    let list = match &attribute.list {
        Some(tokens) => tokens,
        None => {
            return Extraction::failed(Reason::new(ReasonKind::WrongShape));
        },
    };
    let kind = match helper {
        SyntaxHelper::Shape => SyntaxFieldAttributeKind::Shape(Unresolved::new(list)),
        SyntaxHelper::Alias => SyntaxFieldAttributeKind::Alias(Unresolved::new(list)),
    };
    Extraction::value(SyntaxFieldAttributeExtraction { attribute, kind })
}

impl<'ast> Extractor for SyntaxFieldAttributeExtraction<'ast> {
    type Output = Extracted<Self, &'ast AttributeNode>;

    open spec fn extracts(node: &'ast AttributeNode, out: Self::Output) -> bool {
        *out.spec_source() == node && reads_attribute(node, *out.spec_extraction())
    }

    fn extract_from(node: &'ast AttributeNode) -> (out: Self::Output) {
        Extracted::new(read_attribute(node), node)
    }
}

impl<'ast> Diagnose for SyntaxFieldAttributeExtraction<'ast> {
    /// A leaf: its argument is carried, not read, so nothing below it has reasons of its own.
    open spec fn diagnostics(&self) -> Seq<Seq<Seq<char>>> {
        Seq::empty()
    }

    open spec fn placements(&self) -> Seq<Seq<ErrorAnchor>> {
        Seq::empty()
    }

    /// A leaf adds nothing: `out` is left exactly as it was.
    fn diagnose(&self, out: &mut Vec<syn::Error>)
        ensures
            final(out)@ == old(out)@,
    {
        proof {
            assert(crate::render::errors_view(out@) =~= crate::render::errors_view(old(out)@)
                + self.diagnostics());
            assert(crate::render::anchors_view(out@) =~= crate::render::anchors_view(old(out)@)
                + self.placements());
        }
    }
}

/// A helper attribute whose argument has been read.
pub enum ParsedAttributeKind<'ast> {
    Shape(Resolved<'ast, syn::Type>),
    Alias(Resolved<'ast, String>),
}

/// One helper attribute, its argument read.
pub struct ParsedFieldAttribute<'ast> {
    attribute: &'ast AttributeNode,
    kind: ParsedAttributeKind<'ast>,
}

impl<'ast> ParsedFieldAttribute<'ast> {
    pub closed spec fn spec_attribute(&self) -> &'ast AttributeNode {
        self.attribute
    }

    pub closed spec fn spec_kind(&self) -> ParsedAttributeKind<'ast> {
        self.kind
    }

    pub fn kind(&self) -> (r: &ParsedAttributeKind<'ast>)
        ensures
            *r == self.spec_kind(),
    {
        &self.kind
    }
}

impl<'ast> SyntaxFieldAttributeExtraction<'ast> {
    /// The typestate transition: read the argument. A failure points at the argument tokens -
    /// what failed to resolve - rather than at the whole attribute.
    pub fn resolve(self) -> (r: Extraction<ParsedFieldAttribute<'ast>>)
        ensures
            match self.spec_kind() {
                SyntaxFieldAttributeKind::Shape(u) => match type_parse(*u.carried()) {
                    Ok(t) => r.reasons@.len() == 0 && (r.value matches Some(p)
                        && p.spec_attribute() == self.spec_attribute() && (p.spec_kind() matches ParsedAttributeKind::Shape(res)
                        && res.spec_value() == t && res.carried() == u.carried())),
                    Err(_) => r.value is None && r.reasons@.len() == 1 && r.reasons@[0].spec_kind()
                        == ReasonKind::WrongShape && r.reasons@[0].spec_span() == Some(
                        stream_span(*u.carried()),
                    ),
                },
                SyntaxFieldAttributeKind::Alias(u) => match ident_parse(*u.carried()) {
                    Ok(t) => r.reasons@.len() == 0 && (r.value matches Some(p)
                        && p.spec_attribute() == self.spec_attribute() && (p.spec_kind() matches ParsedAttributeKind::Alias(res)
                        && res.spec_value()@ == t && res.carried() == u.carried())),
                    Err(_) => r.value is None && r.reasons@.len() == 1 && r.reasons@[0].spec_kind()
                        == ReasonKind::WrongShape && r.reasons@[0].spec_span() == Some(
                        stream_span(*u.carried()),
                    ),
                },
            },
    {
        let attribute = self.attribute;
        let kind = match self.kind {
            SyntaxFieldAttributeKind::Shape(shape) => {
                let tokens = shape.source_tokens();
                match shape.resolve() {
                    Ok(resolved) => ParsedAttributeKind::Shape(resolved),
                    Err(_) => {
                        return Extraction::failed(
                            Reason::at(ReasonKind::WrongShape, span_of(tokens)),
                        );
                    },
                }
            },
            SyntaxFieldAttributeKind::Alias(alias) => {
                let tokens = alias.source_tokens();
                match alias.resolve() {
                    Ok(resolved) => ParsedAttributeKind::Alias(resolved),
                    Err(_) => {
                        return Extraction::failed(
                            Reason::at(ReasonKind::WrongShape, span_of(tokens)),
                        );
                    },
                }
            },
        };
        Extraction::value(ParsedFieldAttribute { attribute, kind })
    }
}

/// The references to each of `nodes`, in order - what `extract_each` walks.
fn each_ref<'ast, T>(nodes: &'ast Vec<T>) -> (r: Vec<&'ast T>)
    ensures
        r@.len() == nodes@.len(),
        forall|i: int| 0 <= i < nodes@.len() ==> *r@[i] == nodes@[i],
{
    let mut out: Vec<&'ast T> = Vec::new();
    let mut i: usize = 0;
    while i < nodes.len()
        invariant
            i <= nodes@.len(),
            out@.len() == i,
            forall|j: int| 0 <= j < i ==> *out@[j] == nodes@[j],
        decreases nodes@.len() - i,
    {
        out.push(&nodes[i]);
        i = i + 1;
    }
    out
}

/// A field. Its children are its attributes, one extraction each - ours or not: an attribute
/// that is not ours extracts to an empty child that renders nothing.
pub struct FieldExtraction<'ast> {
    pub attrs: Vec<Extracted<SyntaxFieldAttributeExtraction<'ast>, &'ast AttributeNode>>,
}

impl<'ast> Validate for FieldExtraction<'ast> {
    type Source = &'ast FieldNode;

    type Valid = &'ast FieldNode;

    /// Every field is accepted: what there is to check lives in its attributes, each its own child.
    fn validate(input: &'ast FieldNode) -> (r: Result<&'ast FieldNode, Reason>)
        ensures
            r == Ok::<&'ast FieldNode, Reason>(input),
    {
        Ok(input)
    }
}

impl<'ast> Extractor for FieldExtraction<'ast> {
    type Output = Extracted<Self, &'ast FieldNode>;

    open spec fn extracts(node: &'ast FieldNode, out: Self::Output) -> bool {
        &&& *out.spec_source() == node
        &&& out.spec_extraction().reasons@.len() == 0
        &&& out.spec_extraction().value matches Some(v) && v.attrs@.len() == node.attrs@.len()
            && forall|i: int|
            0 <= i < node.attrs@.len() ==> SyntaxFieldAttributeExtraction::extracts(
                &node.attrs@[i],
                #[trigger] v.attrs@[i],
            )
    }

    fn extract_from(node: &'ast FieldNode) -> (out: Self::Output) {
        let extraction = match Self::validate(node) {
            Ok(field) => {
                let refs = each_ref(&field.attrs);
                let attrs = SyntaxFieldAttributeExtraction::extract_each(refs);
                Extraction::value(FieldExtraction { attrs })
            },
            Err(reason) => Extraction::failed(reason),
        };
        Extracted::new(extraction, node)
    }
}

impl<'ast> Diagnose for FieldExtraction<'ast> {
    /// Where the children are; each one renders its own reasons against its own attribute.
    open spec fn diagnostics(&self) -> Seq<Seq<Seq<char>>> {
        self.attrs.diagnostics()
    }

    open spec fn placements(&self) -> Seq<Seq<ErrorAnchor>> {
        self.attrs.placements()
    }

    fn diagnose(&self, out: &mut Vec<syn::Error>) {
        self.attrs.diagnose(out);
    }
}

/// A struct. Its children are its fields; an enum or a union is the wrong shape.
pub struct StructExtraction<'ast> {
    pub fields: Vec<Extracted<FieldExtraction<'ast>, &'ast FieldNode>>,
}

impl<'ast> Validate for StructExtraction<'ast> {
    type Source = &'ast ItemNode;

    type Valid = &'ast Vec<FieldNode>;

    /// A struct narrows to its fields; anything else is the wrong shape, pointed at its name.
    fn validate(input: &'ast ItemNode) -> (r: Result<&'ast Vec<FieldNode>, Reason>)
        ensures
            match input.data {
                ItemData::Struct(fs) => r matches Ok(v) && *v == fs,
                _ => r matches Err(reason) && reason.spec_kind() == ReasonKind::WrongShape
                    && reason.spec_span() == Some(input.ident_span),
            },
    {
        match &input.data {
            ItemData::Struct(fields) => Ok(fields),
            _ => Err(Reason::at(ReasonKind::WrongShape, input.ident_span)),
        }
    }
}

impl<'ast> Extractor for StructExtraction<'ast> {
    type Output = Extracted<Self, &'ast ItemNode>;

    open spec fn extracts(node: &'ast ItemNode, out: Self::Output) -> bool {
        &&& *out.spec_source() == node
        &&& match node.data {
            ItemData::Struct(fs) => out.spec_extraction().reasons@.len() == 0 && (
            out.spec_extraction().value matches Some(v) && v.fields@.len() == fs@.len() && forall|
                i: int,
            |
                0 <= i < fs@.len() ==> FieldExtraction::extracts(&fs@[i], #[trigger] v.fields@[i])),
            _ => out.spec_extraction().value is None && out.spec_extraction().reasons@.len() == 1
                && out.spec_extraction().reasons@[0].spec_kind() == ReasonKind::WrongShape
                && out.spec_extraction().reasons@[0].spec_span() == Some(node.ident_span),
        }
    }

    fn extract_from(node: &'ast ItemNode) -> (out: Self::Output) {
        let extraction = match Self::validate(node) {
            Ok(fields) => {
                let refs = each_ref(fields);
                let fields = FieldExtraction::extract_each(refs);
                Extraction::value(StructExtraction { fields })
            },
            Err(reason) => Extraction::failed(reason),
        };
        Extracted::new(extraction, node)
    }
}

impl<'ast> Diagnose for StructExtraction<'ast> {
    /// Where the children are.
    open spec fn diagnostics(&self) -> Seq<Seq<Seq<char>>> {
        self.fields.diagnostics()
    }

    open spec fn placements(&self) -> Seq<Seq<ErrorAnchor>> {
        self.fields.placements()
    }

    fn diagnose(&self, out: &mut Vec<syn::Error>) {
        self.fields.diagnose(out);
    }
}

} // verus!
