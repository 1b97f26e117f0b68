use proc_macro_flow::base::processor::{ProcessedStruct, ProcessedAttribute};
use proc_macro_flow::base::{
    AttributeNode, FieldExtraction, FieldNode, ItemData, ItemNode, StructExtraction,
    SyntaxFieldAttributeExtraction,
};
use proc_macro_flow::base::{ParsedAttributeKind, SyntaxFieldAttributeKind};
use proc_macro_flow::extractor::{Extracted, Extraction, Extractor, Reason, ReasonKind, Validate};
use proc_macro_flow::resolution::Deferred;
use proc_macro_flow::processor::Processor;
use proc_macro_flow::render::Diagnose;
use proc_macro_flow::vocab::names::SyntaxHelper;
use quote::ToTokens;
use syn::spanned::Spanned;

fn attribute_node(attr: &syn::Attribute) -> AttributeNode {
    AttributeNode {
        path: proc_macro_flow::vocab::leaves::meta_model(&attr.meta).path,
        path_span: attr.path().span(),
        list: match &attr.meta {
            syn::Meta::List(list) => Some(list.tokens.clone()),
            _ => None,
        },
        tokens: attr.to_token_stream(),
    }
}

fn field_node(field: &syn::Field) -> FieldNode {
    FieldNode {
        ident: field.ident.as_ref().map(|i| i.to_string()),
        attrs: field.attrs.iter().map(attribute_node).collect(),
        tokens: field.to_token_stream(),
    }
}

fn item(source: &str) -> ItemNode {
    let input: syn::DeriveInput = syn::parse_str(source).expect("the item parses");
    ItemNode {
        ident: input.ident.to_string(),
        ident_span: input.ident.span(),
        data: match &input.data {
            syn::Data::Struct(data) => ItemData::Struct(data.fields.iter().map(field_node).collect()),
            syn::Data::Enum(_) => ItemData::Enum,
            syn::Data::Union(_) => ItemData::Union,
        },
        tokens: input.to_token_stream(),
        impl_generics: {
            let (i, _, _) = input.generics.split_for_impl();
            i.to_token_stream()
        },
        type_generics: {
            let (_, t, _) = input.generics.split_for_impl();
            t.to_token_stream()
        },
        where_clause: input.generics.where_clause.to_token_stream(),
    }
}

fn leak(node: ItemNode) -> &'static ItemNode {
    Box::leak(Box::new(node))
}

fn processed(source: &str) -> Extraction<ProcessedStruct<'static>> {
    let input = leak(item(source));
    StructExtraction::process(StructExtraction::extract_from(input))
}

fn first_field(node: &ItemNode) -> &FieldNode {
    match &node.data {
        ItemData::Struct(fields) => &fields[0],
        _ => unreachable!(),
    }
}

fn with_a_complaining_field<'a>(
    node: &'a ItemNode,
    field: &'a FieldNode,
) -> Extracted<StructExtraction<'a>, &'a ItemNode> {
    let child = Extracted::new(
        FieldExtraction::extract_from(field)
            .into_extraction()
            .with_reason(Reason::new(ReasonKind::UnknownKey)),
        field,
    );
    Extracted::new(Extraction::value(StructExtraction { fields: vec![child] }), node)
}

#[test]
fn a_clean_struct_renders_nothing() {
    let input = item("pub struct Thing { a: u8, b: String }");
    assert!(StructExtraction::extract_from(&input).render().is_empty());
}

#[test]
fn a_failed_validate_renders_the_roots_own_reason() {
    let input = item("pub enum Thing { A }");
    let errors = StructExtraction::extract_from(&input).render();
    assert_eq!(errors.len(), 1);
    assert_eq!(errors[0].to_string(), "written in the wrong shape");
}

#[test]
fn a_fields_reason_reaches_the_walk() {
    let input = item("pub struct Thing { a: u8 }");
    let field = first_field(&input);
    let errors = with_a_complaining_field(&input, field).render();
    assert_eq!(errors.len(), 1);
    assert_eq!(errors[0].to_string(), "not a key this node accepts");
}

#[test]
fn the_reason_is_spanned_against_the_field_not_the_item() {
    let input = item("pub struct Thing { a: u8 }");
    let field = first_field(&input);
    let errors = with_a_complaining_field(&input, field).render();
    let rendered = errors[0].to_compile_error().to_string();
    assert!(rendered.contains("compile_error"), "{rendered}");
    assert!(rendered.contains("not a key"), "{rendered}");
}

#[test]
fn a_source_that_pins_nothing_still_resolves() {
    assert!(FieldExtraction::extract_maybe(None).is_none());
    assert!(FieldExtraction::extract_each(Vec::new()).is_empty());
}

#[test]
fn a_fields_attributes_are_its_children() {
    let input = item("pub struct Thing { #[shape(AttributeKind::MetaList)] a: u8 }");
    let extracted = StructExtraction::extract_from(&input);
    let field = &extracted.value().unwrap().fields[0];
    assert_eq!(field.value().unwrap().attrs.len(), 1);
}

#[test]
fn a_grammar_attribute_extracts_a_value() {
    let input = item("pub struct Thing { #[shape(AttributeKind::MetaList)] a: u8 }");
    let extracted = StructExtraction::extract_from(&input);
    let field = &extracted.value().unwrap().fields[0];
    let attr = &field.value().unwrap().attrs[0];
    assert!(attr.value().is_some(), "the shape attribute did not extract");
    assert!(attr.reasons().is_empty());
}

#[test]
fn a_doc_comment_is_not_an_error() {
    let input = item("pub struct Thing { /// documented\n a: u8 }");
    let extracted = StructExtraction::extract_from(&input);
    let field = &extracted.value().unwrap().fields[0];
    let attrs = &field.value().unwrap().attrs;
    assert_eq!(attrs.len(), 1, "the doc attribute was dropped, not carried");
    assert!(attrs[0].value().is_none());
    assert!(attrs[0].reasons().is_empty(), "a doc comment was complained about");
    assert!(extracted.render().is_empty(), "a documented field emitted an error");
}

#[test]
fn a_malformed_grammar_attribute_does_complain() {
    let input = item("pub struct Thing { #[shape] a: u8 }");
    let extracted = StructExtraction::extract_from(&input);
    let errors = extracted.render();
    assert_eq!(errors.len(), 1, "a bare `shape` head went unreported");
    assert_eq!(errors[0].to_string(), "written in the wrong shape");
}

#[test]
fn a_childs_reason_climbs_two_levels_to_the_walk() {
    let input = item("pub struct Thing { #[shape] a: u8, #[shape] b: u8 }");
    assert_eq!(StructExtraction::extract_from(&input).render().len(), 2);
}

#[test]
fn a_struct_narrows_to_what_generation_needs() {
    let out = processed("pub struct Thing { a: u8, b: String }");
    let value = out.value.expect("a struct extracts");
    assert_eq!(value.item.ident, "Thing");
    assert_eq!(value.fields.len(), 2);
    assert_eq!(value.fields[0].field.ident.as_ref().unwrap(), "a");
}

#[test]
fn a_field_knows_only_what_its_source_told_it() {
    let out = processed("pub struct Thing { named: u8 }");
    let value = out.value.unwrap();
    assert_eq!(value.fields[0].field.ident.as_ref().unwrap(), "named");
}

#[test]
fn a_tuple_struct_has_unnamed_fields_and_still_processes() {
    let out = processed("pub struct Thing(u8, String);");
    let value = out.value.expect("tuple structs extract");
    assert_eq!(value.fields.len(), 2);
    assert!(value.fields[0].field.ident.is_none());
}

#[test]
fn an_enum_fails_extraction_and_the_reason_survives_processing() {
    let out = processed("pub enum Thing { A, B }");
    assert!(out.value.is_none());
    assert_eq!(out.reasons.len(), 1);
}

#[test]
fn a_struct_with_no_fields_processes_to_an_empty_list() {
    let out = processed("pub struct Thing;");
    assert!(out.value.unwrap().fields.is_empty());
}

#[test]
fn a_fields_attributes_survive_processing() {
    let out = processed("pub struct Thing { #[shape(AttributeKind::MetaList)] a: u8 }");
    let value = out.value.expect("a struct extracts");
    let attrs: &Vec<ProcessedAttribute> = &value.fields[0].attrs;
    assert_eq!(attrs.len(), 1, "the attribute was dropped by the processor");
    assert!(attrs[0].helper == SyntaxHelper::Shape);
    assert_eq!(attrs[0].tokens.to_string(), "AttributeKind :: MetaList");
}

#[test]
fn processing_narrows_and_does_not_resolve() {
    let out = processed("pub struct Thing { #[alias(colours)] a: u8 }");
    let value = out.value.unwrap();
    assert!(value.fields[0].attrs[0].helper == SyntaxHelper::Alias);
    assert_eq!(value.fields[0].attrs[0].tokens.to_string(), "colours");
}

#[test]
fn a_doc_comment_processes_to_nothing_and_says_nothing() {
    let out = processed("pub struct Thing { /// documented\n a: u8 }");
    let value = out.value.unwrap();
    assert!(value.fields[0].attrs.is_empty());
    assert!(out.reasons.is_empty(), "a doc comment was complained about");
}

#[test]
fn an_attribute_that_is_not_ours_extracts_to_nothing() {
    let input = item("pub struct Thing { #[serde(rename = \"b\")] a: u8 }");
    let field = first_field(&input);
    let attr = SyntaxFieldAttributeExtraction::extract_from(&field.attrs[0]);
    assert!(attr.value().is_none());
    assert!(attr.reasons().is_empty());
}

// ---- the syntax stage, one attribute at a time --------------------------------------------


fn grammar_field(source: &str) -> FieldNode {
    let item: syn::ItemStruct = syn::parse_str(source).expect("the grammar declaration parses");
    field_node(item.fields.iter().next().expect("one field"))
}

#[test]
fn a_field_carries_its_helper_attributes_into_the_syntax_stage() {
    let field = grammar_field(
        "pub struct Configuration { #[shape(AttributeKind::MetaList)] #[alias(colours)] colour: Vec<ColourSetting> }",
    );
    let extractions: Vec<_> = field.attrs.iter().map(SyntaxFieldAttributeExtraction::extract_from).collect();
    assert_eq!(extractions.len(), 2);
    assert!(extractions.iter().all(|e| e.value().is_some()));
    assert!(extractions.iter().all(|e| e.reasons().is_empty()));
    assert!(extractions[0].source().tokens.to_string().contains("shape"));
}

#[test]
fn a_shape_is_carried_verbatim_and_never_interpreted() {
    let field = grammar_field(
        "pub struct Configuration { #[shape(AttributeKind::MetaList)] colour: Vec<ColourSetting> }",
    );
    let extraction = SyntaxFieldAttributeExtraction::extract_from(&field.attrs[0]);
    let node = extraction.value().unwrap();
    let SyntaxFieldAttributeKind::Shape(shape) = node.kind() else {
        panic!("the `shape` head selects the Shape arm");
    };
    assert_eq!(shape.tokens().to_string(), "AttributeKind :: MetaList");
}

#[test]
fn resolving_moves_the_whole_node_from_raw_to_parsed() {
    let field = grammar_field("pub struct Configuration { #[alias(colours)] colour: Vec<ColourSetting> }");
    let raw = SyntaxFieldAttributeExtraction::extract_from(&field.attrs[0])
        .into_extraction()
        .value
        .expect("extraction succeeds");
    let parsed = raw.resolve().value.expect("`colours` is an ident");
    let ParsedAttributeKind::Alias(alias) = parsed.kind() else {
        panic!("the `alias` head selects the Alias arm");
    };
    assert_eq!(alias.value(), "colours");
    assert_eq!(alias.tokens().to_string(), "colours");
}

#[test]
fn a_selector_that_is_not_even_syntactically_a_type_fails_at_resolution() {
    let field = grammar_field("pub struct Configuration { #[shape(!!)] colour: Vec<ColourSetting> }");
    let raw = SyntaxFieldAttributeExtraction::extract_from(&field.attrs[0])
        .into_extraction()
        .value
        .expect("carrying tokens cannot fail");
    let resolved = raw.resolve();
    assert!(resolved.value.is_none());
    assert!(matches!(resolved.reasons[0].kind(), ReasonKind::WrongShape));
    assert!(resolved.reasons[0].span().is_some());
    assert!(!resolved.reasons[0].to_error(&field.attrs[0].tokens, "not a shape").to_compile_error().is_empty());
}

#[test]
fn an_unrecognised_head_is_rustcs_complaint_and_not_ours() {
    let field = grammar_field(
        "pub struct Configuration { #[shpae(AttributeKind::MetaList)] colour: Vec<ColourSetting> }",
    );
    let extraction = SyntaxFieldAttributeExtraction::extract_from(&field.attrs[0]);
    assert!(extraction.value().is_none());
    assert!(extraction.reasons().is_empty(), "an unowned head is not ours to complain about");
}

#[test]
fn every_field_attribute_is_visited_and_no_complaint_is_lost() {
    let field = grammar_field("pub struct Configuration { #[shape] #[alias] colour: Vec<ColourSetting> }");
    let reasons: Vec<Reason> = field
        .attrs
        .iter()
        .map(SyntaxFieldAttributeExtraction::extract_from)
        .flat_map(|extracted| extracted.into_extraction().reasons)
        .collect();
    assert_eq!(reasons.len(), 2);
    assert!(reasons.iter().all(|r| matches!(r.kind(), ReasonKind::WrongShape)));
}

#[test]
fn a_failed_extraction_still_says_where_it_came_from() {
    let field = grammar_field(
        "pub struct Configuration { #[shpae(AttributeKind::MetaList)] colour: Vec<ColourSetting> }",
    );
    let extracted = SyntaxFieldAttributeExtraction::extract_from(&field.attrs[0]);
    assert!(extracted.value().is_none());
    assert!(extracted.source().tokens.to_string().contains("shpae"));
    assert!(!extracted.to_error("unknown helper attribute").to_compile_error().is_empty());
}

#[test]
fn attributes_belonging_to_other_macros_are_not_our_complaint() {
    let field = grammar_field(
        "pub struct Configuration { #[shape(AttributeKind::MetaList)] colour: Vec<ColourSetting> }",
    );
    let reasons: Vec<Reason> = field
        .attrs
        .iter()
        .map(SyntaxFieldAttributeExtraction::extract_from)
        .flat_map(|extracted| extracted.into_extraction().reasons)
        .collect();
    assert!(reasons.is_empty(), "a doc comment is not an unknown key");
}

#[test]
fn a_validated_head_names_its_helper() {
    let field = grammar_field("pub struct Configuration { #[alias(x)] #[serde(y)] colour: u8 }");
    let ok = SyntaxFieldAttributeExtraction::validate(&field.attrs[0]).ok().unwrap();
    assert!(ok.1 == SyntaxHelper::Alias);
    let refused = SyntaxFieldAttributeExtraction::validate(&field.attrs[1]).err().unwrap();
    assert!(matches!(refused.kind(), ReasonKind::UnknownKey));
    assert!(refused.span().is_some());
}

#[test]
fn processing_carries_exactly_the_complaints_the_walk_renders() {
    let input = leak(item("pub struct Thing { #[shape] a: u8, #[alias] #[shape(X)] b: u8, c: u8 }"));
    let extracted = StructExtraction::extract_from(input);
    let rendered: Vec<String> = extracted.render().iter().map(|e| e.to_string()).collect();
    let processed = StructExtraction::process(extracted);
    let carried: Vec<String> = processed.reasons.iter().map(|r| r.message()).collect();
    assert_eq!(rendered, ["written in the wrong shape", "written in the wrong shape"]);
    assert_eq!(carried, rendered);
}
