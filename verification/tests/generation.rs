use std::marker::PhantomData;

use proc_macro2::{Literal, Span, TokenStream};
use proc_macro_flow::base::generator::{field_names, field_shapes, generate_block};
use proc_macro_flow::base::processor::ProcessedStruct;
use proc_macro_flow::base::{AttributeNode, FieldNode, ItemData, ItemNode, StructExtraction};
use proc_macro_flow::extractor::{Extraction, Extractor, Reason, ReasonKind};
use proc_macro_flow::generator::{
    conclude, fail_upward, generate_many, generate_one, leaf, Emission, Generator, Pipeline,
};
use proc_macro_flow::processor::Processor;
use quote::ToTokens;
use syn::spanned::Spanned;
use syn::{ImplItem, ItemImpl};

// ---- a typed generator --------------------------------------------------------------------

/// A generator whose vacant form is the same type as its full one.
struct Tiny;

impl Generator for Tiny {
    type Input = &'static str;
    type Subject = &'static str;
    type Output = ItemImpl;

    fn generate(input: &'static str) -> Extraction<ItemImpl> {
        let body = Literal::string(input);
        leaf(syn::parse_str(&format!("impl Thing for T {{ const NAME: &'static str = {body}; }}")))
    }

    fn stub(_: &'static str) -> syn::Result<ItemImpl> {
        syn::parse_str("impl Thing for T { const NAME: &'static str = \"\"; }")
    }
}

#[test]
fn a_generator_builds_a_typed_item() {
    let item = Tiny::generate("thing").value.expect("well formed");
    assert_eq!(item.items.len(), 1);
}

#[test]
fn the_stub_is_the_same_shape_and_the_type_says_so() {
    let full = Tiny::generate("thing").value.expect("well formed");
    let vacant = Tiny::stub("thing").expect("well formed");
    assert_eq!(full.items.len(), vacant.items.len());
    assert_eq!(full.self_ty.to_token_stream().to_string(), vacant.self_ty.to_token_stream().to_string());
}

#[test]
fn nothing_malformed_can_leave_a_generator() {
    let item = Tiny::generate("thing").value.expect("well formed");
    assert!(item.trait_.is_some(), "the impl lost its trait");
}

// ---- the first pipeline's leaves ----------------------------------------------------------

struct Fields(ImplItem);
struct Shapes(ImplItem);
struct Block(ItemImpl);

impl ToTokens for Fields {
    fn to_tokens(&self, tokens: &mut TokenStream) {
        self.0.to_tokens(tokens);
    }
}

impl ToTokens for Shapes {
    fn to_tokens(&self, tokens: &mut TokenStream) {
        self.0.to_tokens(tokens);
    }
}

impl ToTokens for Block {
    fn to_tokens(&self, tokens: &mut TokenStream) {
        self.0.to_tokens(tokens);
    }
}

fn string_list(items: &[String]) -> String {
    items.iter().map(|s| Literal::string(s).to_string()).collect::<Vec<_>>().join(", ")
}

impl Generator for Fields {
    type Input = Vec<String>;
    type Subject = ();
    type Output = Self;

    fn generate(names: Vec<String>) -> Extraction<Self> {
        leaf(
            syn::parse_str::<ImplItem>(&format!(
                "pub const FIELDS: &'static [&'static str] = &[{}];",
                string_list(&names)
            ))
            .map(Fields),
        )
    }

    fn stub(_: ()) -> syn::Result<Self> {
        syn::parse_str("pub const FIELDS: &'static [&'static str] = &[];").map(Fields)
    }
}

impl Generator for Shapes {
    type Input = Vec<String>;
    type Subject = ();
    type Output = Self;

    fn generate(shapes: Vec<String>) -> Extraction<Self> {
        leaf(
            syn::parse_str::<ImplItem>(&format!(
                "pub const SHAPES: &'static [&'static str] = &[{}];",
                string_list(&shapes)
            ))
            .map(Shapes),
        )
    }

    fn stub(_: ()) -> syn::Result<Self> {
        syn::parse_str("pub const SHAPES: &'static [&'static str] = &[];").map(Shapes)
    }
}

fn assemble(item: &ItemNode, fields: Fields, shapes: Shapes) -> syn::Result<Block> {
    let source = format!(
        "impl {} {} {} {} {{ {} {} }}",
        item.impl_generics,
        item.ident,
        item.type_generics,
        item.where_clause,
        fields.to_token_stream(),
        shapes.to_token_stream()
    );
    syn::parse_str::<ItemImpl>(&source).map(Block)
}

struct BlockGenerator<'ast>(PhantomData<&'ast ItemNode>);

impl<'ast> Generator for BlockGenerator<'ast> {
    type Input = ProcessedStruct<'ast>;
    type Subject = &'ast ItemNode;
    type Output = Block;

    fn generate(input: ProcessedStruct<'ast>) -> Extraction<Block> {
        let item = input.item;
        generate_block::<Fields, Shapes, Block, _>(&input, |f, s| assemble(item, f, s))
    }

    fn stub(subject: &'ast ItemNode) -> syn::Result<Block> {
        assemble(subject, Fields::stub(())?, Shapes::stub(())?)
    }
}

struct ExtractorPipeline<'ast>(PhantomData<&'ast ItemNode>);

impl<'ast> Pipeline for ExtractorPipeline<'ast> {
    type Extractor = StructExtraction<'ast>;
    type Processor = StructExtraction<'ast>;
    type Generator = BlockGenerator<'ast>;
}

// ---- reading the item ---------------------------------------------------------------------

fn item(source: &str) -> ItemNode {
    let input: syn::DeriveInput = syn::parse_str(source).expect("the item parses");
    let (impl_generics, type_generics, where_clause) = input.generics.split_for_impl();
    ItemNode {
        ident: input.ident.to_string(),
        ident_span: input.ident.span(),
        data: match &input.data {
            syn::Data::Struct(data) => ItemData::Struct(
                data.fields
                    .iter()
                    .map(|field| FieldNode {
                        ident: field.ident.as_ref().map(|i| i.to_string()),
                        attrs: field
                            .attrs
                            .iter()
                            .map(|attr| AttributeNode {
                                path: proc_macro_flow::vocab::leaves::meta_model(&attr.meta).path,
                                path_span: attr.path().span(),
                                list: match &attr.meta {
                                    syn::Meta::List(list) => Some(list.tokens.clone()),
                                    _ => None,
                                },
                                tokens: attr.to_token_stream(),
                            })
                            .collect(),
                        tokens: field.to_token_stream(),
                    })
                    .collect(),
            ),
            syn::Data::Enum(_) => ItemData::Enum,
            syn::Data::Union(_) => ItemData::Union,
        },
        tokens: input.to_token_stream(),
        impl_generics: impl_generics.to_token_stream(),
        type_generics: type_generics.to_token_stream(),
        where_clause: where_clause.to_token_stream(),
    }
}

fn lower<O: ToTokens>(emission: Emission<O>) -> String {
    let mut out = match emission.item {
        Some(item) => item.into_token_stream(),
        None => TokenStream::new(),
    };
    out.extend(emission.errors.iter().map(syn::Error::to_compile_error));
    out.to_string()
}

/// The whole pipeline, exactly as `FieldNames` runs it.
fn pipeline(source: &str) -> String {
    let node: &'static ItemNode = Box::leak(Box::new(item(source)));
    lower(ExtractorPipeline::run(node))
}

fn processed(source: &str) -> ProcessedStruct<'static> {
    let node: &'static ItemNode = Box::leak(Box::new(item(source)));
    StructExtraction::process(StructExtraction::extract_from(node)).value.expect("a struct processes")
}

#[test]
fn a_struct_generates_its_field_names() {
    let out = pipeline("pub struct Thing { a: u8, b: String }");
    assert!(out.contains("impl Thing"), "{out}");
    assert!(out.contains(r#""a""#), "{out}");
    assert!(out.contains(r#""b""#), "{out}");
    assert!(!out.contains("compile_error"), "{out}");
}

#[test]
fn a_tuple_struct_names_its_fields_positionally() {
    let out = pipeline("pub struct Thing(u8, String);");
    assert!(out.contains(r#""0""#), "{out}");
    assert!(out.contains(r#""1""#), "{out}");
}

#[test]
fn generics_are_carried_through() {
    let out = pipeline("pub struct Thing<T: Clone> { a: T }");
    assert!(out.contains("impl < T : Clone > Thing < T >"), "{out}");
}

#[test]
fn a_failed_extraction_still_emits_the_impl() {
    let out = pipeline("pub enum Thing { A, B }");
    assert!(out.contains("impl Thing"), "the stub is missing: {out}");
    assert!(out.contains("FIELDS"), "the stub is vacant of items: {out}");
    assert!(out.contains("compile_error"), "the reason is missing: {out}");
}

#[test]
fn the_stub_precedes_the_error() {
    let out = pipeline("pub enum Thing { A, B }");
    assert!(out.find("impl").unwrap() < out.find("compile_error").unwrap(), "{out}");
}

#[test]
fn a_shape_attribute_reaches_generation() {
    let out = pipeline("pub struct Thing { #[shape(AttributeKind::MetaList)] a: u8 }");
    assert!(out.contains("SHAPES"), "{out}");
    assert!(out.contains("AttributeKind :: MetaList"), "{out}");
    assert!(!out.contains("compile_error"), "{out}");
}

#[test]
fn a_doc_comment_does_not_become_a_shape_or_an_error() {
    let out = pipeline("pub struct Thing { /// documented\n a: u8 }");
    assert!(!out.contains("compile_error"), "{out}");
}

#[test]
fn a_malformed_attribute_is_reported_beside_the_impl() {
    let out = pipeline("pub struct Thing { #[shape] a: u8 }");
    assert!(out.contains("FIELDS"), "{out}");
    assert!(out.contains("written in the wrong shape"), "{out}");
    assert!(out.find("impl").unwrap() < out.find("compile_error").unwrap(), "{out}");
}

#[test]
fn names_and_shapes_are_read_per_field() {
    let value = processed(
        "pub struct Thing { #[alias(x)] #[shape(AttributeKind::Path)] #[shape(Other)] a: u8, b: u8 }",
    );
    assert_eq!(field_names(&value), ["a", "b"]);
    assert_eq!(field_shapes(&value), ["AttributeKind :: Path", ""]);
    let tuple = processed("pub struct Pair(u8, u8, u8, u8, u8, u8, u8, u8, u8, u8, u8, u8);");
    assert_eq!(field_names(&tuple)[11], "11");
}

#[test]
fn a_leaf_cannot_fail_on_its_typed_input() {
    let hostile = Fields::generate(vec!["not an ident \" oops".into(), String::new(), "}{".into()]);
    assert!(hostile.value.is_some(), "typed input should be unfailable");
    assert!(hostile.reasons.is_empty());
}

#[test]
fn a_malformed_leaf_is_our_fault_and_says_so() {
    let broken = leaf(syn::parse_str::<ImplItem>("this is not an impl item").map(Fields));
    assert!(broken.value.is_none(), "the leaf should have failed");
    assert_eq!(broken.reasons.len(), 1);
    assert!(broken.reasons[0].is_internal(), "tokens WE assembled are our fault, never the author's");
}

#[test]
fn a_leaf_stub_is_the_same_shape_as_its_success() {
    let full = Fields::generate(vec!["a".into()]).value.expect("well formed");
    let vacant = Fields::stub(()).expect("the stub is well formed");
    assert!(full.to_token_stream().to_string().contains("FIELDS"));
    assert!(vacant.to_token_stream().to_string().contains("FIELDS"));
}

#[test]
fn the_parent_assembles_both_children() {
    let value = processed("pub struct Thing { a: u8, b: u8 }");
    let generated = BlockGenerator::generate(value);
    assert!(generated.reasons.is_empty(), "nothing should have failed");
    let out = generated.value.expect("a block").to_token_stream().to_string();
    assert!(out.contains("FIELDS"), "{out}");
    assert!(out.contains("SHAPES"), "{out}");
}

// ---- per-child isolation ------------------------------------------------------------------

/// A leaf that always succeeds.
struct Good(ImplItem);
/// A leaf that always fails, so per-child isolation is observable.
struct Bad(ImplItem);

impl ToTokens for Good {
    fn to_tokens(&self, t: &mut TokenStream) {
        self.0.to_tokens(t)
    }
}

impl ToTokens for Bad {
    fn to_tokens(&self, t: &mut TokenStream) {
        self.0.to_tokens(t)
    }
}

impl Generator for Good {
    type Input = ();
    type Subject = ();
    type Output = Self;

    fn generate(_: ()) -> Extraction<Self> {
        leaf(syn::parse_str("const GOOD: u8 = 1;").map(Good))
    }

    fn stub(_: ()) -> syn::Result<Self> {
        syn::parse_str("const GOOD: u8 = 0;").map(Good)
    }
}

impl Generator for Bad {
    type Input = ();
    type Subject = ();
    type Output = Self;

    fn generate(_: ()) -> Extraction<Self> {
        leaf(syn::parse_str::<ImplItem>("this is not an impl item").map(Bad))
    }

    fn stub(_: ()) -> syn::Result<Self> {
        syn::parse_str("const BAD: u8 = 0;").map(Bad)
    }
}

/// The parent, composed the way the generator derive writes it.
struct Parent(ItemImpl);

impl Parent {
    fn assemble(_: &(), good: Good, bad: Bad) -> syn::Result<Self> {
        let source = format!("impl Thing {{ {} {} }}", good.to_token_stream(), bad.to_token_stream());
        syn::parse_str(&source).map(Parent)
    }
}

impl Generator for Parent {
    type Input = ();
    type Subject = ();
    type Output = Self;

    fn generate(input: ()) -> Extraction<Self> {
        let mut out = Extraction::empty();
        let good = match generate_one::<Good, _>(&mut out, (), ()) {
            Some(item) => item,
            None => return out,
        };
        let bad = match generate_one::<Bad, _>(&mut out, (), ()) {
            Some(item) => item,
            None => return out,
        };
        conclude(out, Self::assemble(&input, good, bad))
    }

    fn stub(_: ()) -> syn::Result<Self> {
        let good = Good::stub(())?;
        let bad = Bad::stub(())?;
        Self::assemble(&(), good, bad)
    }
}

#[test]
fn a_failed_child_does_not_cost_its_siblings() {
    let generated = Parent::generate(());
    let block = generated.value.expect("the block is still assembled");
    let out = block.0.to_token_stream().to_string();
    assert!(out.contains("GOOD"), "the good child was lost: {out}");
    assert!(out.contains("BAD"), "the failed child was not stubbed: {out}");
}

#[test]
fn the_failure_is_kept_and_attributed() {
    let generated = Parent::generate(());
    assert_eq!(generated.reasons.len(), 1, "exactly one child failed");
    assert!(generated.reasons[0].is_internal(), "tokens WE assembled are ours, never the author's");
}

#[test]
fn a_stub_uses_every_childs_vacant_form() {
    let block = Parent::stub(()).expect("the stub assembles");
    let out = block.0.to_token_stream().to_string();
    assert!(out.contains("GOOD"), "{out}");
    assert!(out.contains("BAD"), "{out}");
}

/// A leaf that fails on odd input with an author's reason, and succeeds on even input.
struct Even(u8);

impl Generator for Even {
    type Input = u8;
    type Subject = ();
    type Output = Self;

    fn generate(n: u8) -> Extraction<Self> {
        if n % 2 == 0 {
            Extraction::value(Even(n))
        } else {
            Extraction::failed(Reason::new(ReasonKind::WrongShape))
        }
    }

    fn stub(_: ()) -> syn::Result<Self> {
        Ok(Even(0))
    }
}

#[test]
fn a_repeated_child_isolates_each_element() {
    let mut out: Extraction<()> = Extraction::empty();
    let here = Span::call_site();
    let items = generate_many::<Even, _>(&mut out, vec![(2, here), (3, here), (4, here), (5, here)]);
    let values: Vec<u8> = items.iter().map(|e| e.0).collect();
    assert_eq!(values, [2, 4], "every element that generated is kept, in order");
    assert_eq!(out.reasons.len(), 2, "each failed element's reason is kept");
    assert!(out.reasons.iter().all(|r| r.span().is_some()), "an author's reason fails upward to its element");
}

#[test]
fn fail_upward_leaves_our_own_failures_where_they_are() {
    let here = Span::call_site();
    let ours = fail_upward(Reason::new(ReasonKind::Internal(syn::Error::new(here, "ours"))), here);
    assert!(ours.span().is_none());
    let theirs = fail_upward(Reason::new(ReasonKind::Missing), here);
    assert!(theirs.span().is_some());
}

#[test]
fn conclude_keeps_the_childrens_reasons_beside_an_assembly_failure() {
    let children: Extraction<u8> = Extraction::failed(Reason::new(ReasonKind::Missing));
    let failed = conclude(children, Err(syn::Error::new(Span::call_site(), "could not assemble")));
    assert!(failed.value.is_none());
    assert_eq!(failed.reasons.len(), 2);
    assert!(failed.reasons[1].is_internal());
    let made = conclude(Extraction::empty(), Ok(7u8));
    assert_eq!(made.value, Some(7));
}
