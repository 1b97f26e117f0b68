use proc_macro_flow::derive::extractor::{plan_extractor, Reach};
use proc_macro_flow::derive::generator::plan_generator;
use proc_macro_flow::derive::passthrough::plan_passthrough;
use proc_macro_flow::derive::syntax::{distinct_cases, plan_syntax, standard_cases, table_arity};
use proc_macro_flow::derive::{
    find_one, Arity, AssignModel, AttrModel, ChildDecl, ChildOf, DataModel, DeriveModel,
    FieldModel, FieldsModel, GenericArg, TypeModel,
};
use proc_macro_flow::node;
use quote::ToTokens;
use syn::parse::{Parse, ParseStream};
use syn::punctuated::Punctuated;
use syn::token::Comma;

// ---- reading syn's parse into the models ---------------------------------------------------

fn type_model(ty: &syn::Type) -> TypeModel {
    let (last, args) = match ty {
        syn::Type::Path(path) => match path.path.segments.last() {
            Some(segment) => {
                let args = match &segment.arguments {
                    syn::PathArguments::AngleBracketed(bracketed) => Some(
                        bracketed
                            .args
                            .iter()
                            .map(|arg| match arg {
                                syn::GenericArgument::Type(inner) => GenericArg::Type(type_model(inner)),
                                _ => GenericArg::Other,
                            })
                            .collect(),
                    ),
                    _ => None,
                };
                (Some(segment.ident.to_string()), args)
            }
            None => (None, None),
        },
        _ => (None, None),
    };
    TypeModel { last, args, tokens: ty.to_token_stream() }
}

fn ty(source: &str) -> TypeModel {
    type_model(&syn::parse_str(source).expect("a type"))
}

struct Assign {
    key: syn::Ident,
    value: syn::Type,
}

impl Parse for Assign {
    fn parse(input: ParseStream) -> syn::Result<Self> {
        let key = input.parse()?;
        input.parse::<syn::token::Eq>()?;
        Ok(Assign { key, value: input.parse()? })
    }
}

struct ChildSyntax {
    name: syn::Ident,
    declared: syn::Type,
    feed: syn::Expr,
}

impl Parse for ChildSyntax {
    fn parse(input: ParseStream) -> syn::Result<Self> {
        let name = input.parse()?;
        input.parse::<syn::token::Colon>()?;
        let declared = input.parse()?;
        input.parse::<syn::token::Eq>()?;
        let feed = input.parse()?;
        Ok(ChildSyntax { name, declared, feed })
    }
}

fn attr_model(attr: &syn::Attribute) -> AttrModel {
    AttrModel {
        head: attr.path().get_ident().map(|i| i.to_string()),
        is_path: matches!(attr.meta, syn::Meta::Path(_)),
        tokens: attr.to_token_stream(),
        attr: attr.clone(),
        assigns: attr.parse_args_with(Punctuated::<Assign, Comma>::parse_terminated).map(|pairs| {
            pairs
                .into_iter()
                .map(|p| AssignModel {
                    key: p.key.to_string(),
                    key_tokens: p.key.to_token_stream(),
                    value: p.value.to_token_stream(),
                })
                .collect()
        }),
        children: attr.parse_args_with(Punctuated::<ChildSyntax, Comma>::parse_terminated).map(|cs| {
            cs.into_iter()
                .map(|c| ChildDecl {
                    name: c.name.to_string(),
                    declared: type_model(&c.declared),
                    feed: c.feed.to_token_stream(),
                })
                .collect()
        }),
    }
}

fn field_model(field: &syn::Field) -> FieldModel {
    FieldModel {
        ident: field.ident.as_ref().map(|i| i.to_string()),
        ty: type_model(&field.ty),
        attrs: field.attrs.iter().map(attr_model).collect(),
        tokens: field.to_token_stream(),
    }
}

fn model(source: &str) -> DeriveModel {
    let input: syn::DeriveInput = syn::parse_str(source).expect("the item parses");
    DeriveModel {
        ident: input.ident.to_string(),
        ident_tokens: input.ident.to_token_stream(),
        attrs: input.attrs.iter().map(attr_model).collect(),
        data: match &input.data {
            syn::Data::Struct(data) => DataModel::Struct(match &data.fields {
                syn::Fields::Named(n) => FieldsModel::Named(n.named.iter().map(field_model).collect()),
                syn::Fields::Unnamed(u) => FieldsModel::Unnamed(u.unnamed.iter().map(field_model).collect()),
                syn::Fields::Unit => FieldsModel::Unit,
            }),
            syn::Data::Enum(_) => DataModel::Enum,
            syn::Data::Union(_) => DataModel::Union,
        },
        lifetime: input.generics.lifetimes().next().map(|def| def.lifetime.to_token_stream()),
    }
}

fn text(tokens: &proc_macro2::TokenStream) -> String {
    tokens.to_string()
}

// ---- reading declared types ---------------------------------------------------------------

#[test]
fn arity_comes_off_the_field_type() {
    assert!(ty("Vec<Extracted<A, B>>").arity() == Arity::Many);
    assert!(ty("Option<Extracted<A, B>>").arity() == Arity::Maybe);
    assert!(ty("std::option::Option<u8>").arity() == Arity::Maybe);
    assert!(ty("Extracted<A, B>").arity() == Arity::One);
    assert!(ty("(u8, u8)").arity() == Arity::One);
}

#[test]
fn the_inner_type_is_what_a_field_reads() {
    assert_eq!(text(&ty("Option<LitStr>").inner().tokens), "LitStr");
    assert_eq!(text(&ty("Vec<ColourSetting>").inner().tokens), "ColourSetting");
    assert_eq!(text(&ty("LitInt").inner().tokens), "LitInt");
}

#[test]
fn a_lifetime_argument_is_skipped_for_the_first_type() {
    let t = ty("Extracted<'ast, FieldExtraction, Source>");
    assert_eq!(text(&t.unwrap_generic("Extracted").unwrap().tokens), "FieldExtraction");
    assert!(t.unwrap_generic("Vec").is_none());
}

#[test]
fn a_child_names_its_extractor() {
    let many = ty("Vec<Extracted<FieldExtraction<'ast>, &'ast Field>>");
    let child = ChildOf::of(&many).ok().unwrap();
    assert!(child.arity == Arity::Many);
    assert_eq!(text(&child.extractor.tokens), "FieldExtraction < 'ast >");

    let wrong = ty("Vec<u8>");
    let error = ChildOf::of(&wrong).err().unwrap();
    assert!(error.to_string().starts_with("expected `Extracted<T, I>`"), "{error}");
}

#[test]
fn a_helper_written_twice_is_an_error_on_the_second() {
    let m = model("#[source(A)] #[source(B)] struct Thing<'a> { }");
    let error = find_one(&m.attrs, "source").err().unwrap();
    assert_eq!(error.to_string(), "`source` is written more than once");
    assert_eq!(find_one(&m.attrs, "from").ok().unwrap(), None);
}

// ---- #[derive(Extractor)] -----------------------------------------------------------------

#[test]
fn a_derived_extractor_walks_to_its_children() {
    let m = model(
        "#[source(DeriveInput)]
         struct Derived<'ast> {
             #[from(source.fields.iter())] fields: Vec<Extracted<FieldExtraction<'ast>, &'ast Field>>,
             #[with(first_attr)] head: Extracted<AttrExtraction<'ast>, &'ast Attribute>,
             #[from(source.attrs.first())] maybe: Option<Extracted<AttrExtraction<'ast>, &'ast Attribute>>,
         }",
    );
    let plan = plan_extractor(&m).ok().expect("a well formed extraction");
    assert_eq!(text(&plan.source), "DeriveInput");
    assert_eq!(text(&plan.lifetime), "'ast");
    assert_eq!(plan.fields.len(), 3);
    assert!(plan.fields[0].arity == Arity::Many);
    assert!(plan.fields[1].arity == Arity::One);
    assert!(plan.fields[2].arity == Arity::Maybe);
    assert!(matches!(&plan.fields[0].reach, Reach::From(e) if text(e) == "source . fields . iter ()"));
    assert!(matches!(&plan.fields[1].reach, Reach::With(e) if text(e) == "first_attr"));
    assert_eq!(text(&plan.fields[0].extractor), "FieldExtraction < 'ast >");
}

#[test]
fn an_extractor_needs_its_source() {
    let error = plan_extractor(&model("struct Thing<'a> { }")).err().unwrap();
    assert!(error.to_string().contains("needs `#[source(Ty)]`"), "{error}");
}

#[test]
fn an_extractor_is_a_struct_of_named_children() {
    let error = plan_extractor(&model("#[source(A)] enum Thing { A }")).err().unwrap();
    assert_eq!(error.to_string(), "`#[derive(Extractor)]` describes a struct of extracted children");
    let error = plan_extractor(&model("#[source(A)] struct Thing(u8);")).err().unwrap();
    assert!(error.to_string().contains("needs named fields"), "{error}");
}

#[test]
fn from_and_with_are_alternatives() {
    let error = plan_extractor(&model(
        "#[source(A)] struct Thing<'a> { #[from(x)] #[with(y)] a: Extracted<B, C> }",
    ))
    .err()
    .unwrap();
    assert!(error.to_string().contains("are alternatives"), "{error}");
    let error = plan_extractor(&model("#[source(A)] struct Thing<'a> { a: Extracted<B, C> }")).err().unwrap();
    assert!(error.to_string().starts_with("every field needs"), "{error}");
}

#[test]
fn an_extraction_borrows_so_it_needs_a_lifetime() {
    let error = plan_extractor(&model("#[source(A)] struct Thing { #[from(x)] a: Extracted<B, C> }")).err().unwrap();
    assert_eq!(error.to_string(), "an extraction borrows from the AST, so it needs a lifetime parameter");
}

#[test]
fn the_derived_processor_is_the_identity() {
    let (source, lifetime) = plan_passthrough(&model("#[source(Attribute)] struct Thing<'ast> { }")).ok().unwrap();
    assert_eq!(text(&source), "Attribute");
    assert_eq!(text(&lifetime), "'ast");
    let error = plan_passthrough(&model("#[source(Attribute)] struct Thing { }")).err().unwrap();
    assert_eq!(error.to_string(), "expected a lifetime parameter");
    let error = plan_passthrough(&model("struct Thing<'a> { }")).err().unwrap();
    assert!(error.to_string().starts_with("`#[source(Ty)]` names the syn node"), "{error}");
}

// ---- #[derive(Syntax)] --------------------------------------------------------------------

const RETRY: &str = "pub struct Retry { times: LitInt, #[alias] back_off: Option<LitStr> }";

#[test]
fn the_node_table_is_emitted_with_arity() {
    let plan = plan_syntax(&model(RETRY)).ok().unwrap();
    assert_eq!(plan.entry, "retry", "the entry name is the type in snake_case");
    assert!(table_arity(plan.fields[0].arity) == node::Arity::Required);
    assert!(table_arity(plan.fields[1].arity) == node::Arity::Optional);
    assert_eq!(plan.required(), vec![0]);
}

#[test]
fn alias_generates_the_standard_case_set() {
    let plan = plan_syntax(&model(RETRY)).ok().unwrap();
    let aliases = &plan.fields[1].aliases;
    assert!(aliases.contains(&"backOff".to_string()), "{aliases:?}");
    assert!(aliases.contains(&"back-off".to_string()), "{aliases:?}");
    assert!(!aliases.contains(&"back_off".to_string()), "canonical is not repeated");
    assert_eq!(standard_cases("times"), Vec::<String>::new());
}

#[test]
fn a_field_with_no_alias_attribute_has_none() {
    let plan = plan_syntax(&model(RETRY)).ok().unwrap();
    assert!(plan.fields[0].aliases.is_empty());
}

#[test]
fn explicit_aliases_are_taken_as_written() {
    let plan = plan_syntax(&model(r#"struct Config { #[alias("label", "title")] name: LitStr }"#)).ok().unwrap();
    assert_eq!(plan.fields[0].aliases, vec!["label".to_string(), "title".to_string()]);
}

#[test]
fn a_qualified_option_is_still_optional() {
    let plan = plan_syntax(&model("pub struct Qualified { maybe: std::option::Option<LitStr> }")).ok().unwrap();
    assert!(table_arity(plan.fields[0].arity) == node::Arity::Optional);
    assert_eq!(text(&plan.fields[0].inner), "LitStr");
}

#[test]
fn a_shape_selector_reaches_the_node_table() {
    let plan = plan_syntax(&model(
        "pub struct Narrowed { #[shape(AttributeKind::MetaList)] nested: Retry, plain: Retry }",
    ))
    .ok()
    .unwrap();
    assert_eq!(text(plan.fields[0].shape.as_ref().unwrap()), "AttributeKind :: MetaList");
    assert!(plan.fields[1].shape.is_none());
    assert_eq!(plan.bounds(), vec![0]);
}

#[test]
fn a_grammar_is_a_struct_of_named_fields() {
    let error = plan_syntax(&model("pub struct Bounds(LitInt, LitInt);")).err().unwrap();
    assert!(error.to_string().contains("needs named fields"), "{error}");
    let error = plan_syntax(&model("pub enum ColourSetting { Red }")).err().unwrap();
    assert!(error.to_string().contains("describes a struct of grammar fields"), "{error}");
}

#[test]
fn keys_are_spelled_in_snake_case() {
    assert_eq!(standard_cases("back_off"), ["backOff", "back-off"]);
    let plan = plan_syntax(&model("pub struct ConfigName { value: LitStr }")).ok().unwrap();
    assert_eq!(plan.entry, "config_name");
}

// ---- #[derive(Generator)] -----------------------------------------------------------------

#[test]
fn a_generator_reads_its_wiring_and_children() {
    let plan = plan_generator(&model(
        "#[generator(from = ProcessedStruct, subject = ())]
         #[generates(good: Good = (), many: Vec<Leaf> = input.items.iter(), maybe: Option<Other> = x)]
         pub struct Block(ItemImpl);",
    ))
    .ok()
    .expect("a well formed generator");
    assert_eq!(text(&plan.from), "ProcessedStruct");
    assert_eq!(text(&plan.subject), "()");
    assert_eq!(plan.children.len(), 3);
    assert_eq!(plan.children[0].name, "good");
    assert!(plan.children[0].arity == Arity::One);
    assert!(plan.children[1].arity == Arity::Many);
    assert_eq!(text(&plan.children[1].leaf), "Leaf");
    assert_eq!(text(&plan.children[1].feed), "input . items . iter ()");
    assert!(plan.children[2].arity == Arity::Maybe);
    assert_eq!(text(&plan.children[2].leaf), "Other");
}

#[test]
fn a_generator_without_children_has_none() {
    let plan = plan_generator(&model("#[generator(from = A, subject = B)] pub struct Leafy(ImplItem);")).ok().unwrap();
    assert!(plan.children.is_empty());
}

#[test]
fn a_generator_is_a_newtype() {
    let error = plan_generator(&model("#[generator(from = A, subject = B)] pub struct Two(A, B);")).err().unwrap();
    assert!(error.to_string().contains("describes a NEWTYPE"), "{error}");
    let error = plan_generator(&model("#[generator(from = A, subject = B)] pub struct Named { a: A }")).err().unwrap();
    assert!(error.to_string().contains("describes a NEWTYPE"), "{error}");
}

#[test]
fn a_generator_needs_its_wiring() {
    let error = plan_generator(&model("pub struct Block(ItemImpl);")).err().unwrap();
    assert!(error.to_string().starts_with("`#[generator(from = Ty, subject = Ty)]`"), "{error}");
    let error = plan_generator(&model("#[generator(subject = B)] pub struct Block(ItemImpl);")).err().unwrap();
    assert_eq!(error.to_string(), "unexpected end of input, `from = Ty` names what this generator consumes");
    let error = plan_generator(&model("#[generator(from = A)] pub struct Block(ItemImpl);")).err().unwrap();
    assert_eq!(error.to_string(), "unexpected end of input, `subject = Ty` names what a stub is written against");
}

#[test]
fn an_unknown_wiring_key_is_named() {
    let error = plan_generator(&model("#[generator(from = A, subjet = B)] pub struct Block(ItemImpl);")).err().unwrap();
    assert_eq!(error.to_string(), "`subjet` is not one of `from`, `subject`");
}

#[test]
fn a_wiring_key_written_again_replaces_the_first() {
    let plan = plan_generator(&model("#[generator(from = A, subject = B, from = C)] pub struct Block(ItemImpl);"))
        .ok()
        .unwrap();
    assert_eq!(text(&plan.from), "C");
}

#[test]
fn only_spellings_that_differ_become_aliases() {
    assert_eq!(distinct_cases("times", "times".into(), "times".into()), Vec::<String>::new());
    assert_eq!(distinct_cases("back_off", "backOff".into(), "back-off".into()), ["backOff", "back-off"]);
    assert_eq!(distinct_cases("a_b", "aB".into(), "a_b".into()), ["aB"]);
}
