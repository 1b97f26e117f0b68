use proc_macro2::{Span, TokenStream};
use proc_macro_flow::extractor::{AuthorReason, Extracted, Extraction, Reason, ReasonKind};
use proc_macro_flow::meta::ShapeKind;
use proc_macro_flow::node::{Arity, Child, Node};
use proc_macro_flow::processor::{process_each, process_maybe, Processor};
use proc_macro_flow::render::Diagnose;
use proc_macro_flow::resolution::{Deferred, Unresolved};

fn tokens(source: &str) -> TokenStream {
    source.parse().expect("the tokens lex")
}

fn ident_span(name: &str) -> Span {
    let ident: syn::Ident = syn::parse_str(name).expect("an ident");
    ident.span()
}

// ---- reasons and extractions --------------------------------------------------------------

#[test]
fn a_reason_points_at_a_token_and_falls_back_to_the_node() {
    let node = tokens("configuration(colur(Red), name = \"thing\")");

    let precise = Reason::at(ReasonKind::UnknownKey, ident_span("colur"));
    assert!(precise.span().is_some());

    let coarse = Reason::new(ReasonKind::WrongShape);
    assert!(coarse.span().is_none());

    assert!(!precise.to_error(&node, "unknown key").to_compile_error().is_empty());
    assert!(!coarse.to_error(&node, "wrong shape").to_compile_error().is_empty());
}

#[test]
fn a_reason_cannot_render_itself_without_the_chain() {
    let node = tokens("colour(ColourSetting::Red)");
    let reason = Reason::new(ReasonKind::Missing);
    assert!(!reason.to_error(&node, "missing required key").to_compile_error().is_empty());
}

#[test]
fn absorb_takes_every_reason_even_from_a_child_that_produced_nothing() {
    let mut parent = Extraction::value("parent");

    let good: Extraction<u8> =
        Extraction::value(1).with_reason(Reason::at(ReasonKind::UnknownKey, ident_span("colur")));
    let bad: Extraction<u8> = Extraction::failed(Reason::new(ReasonKind::Missing));

    assert_eq!(parent.absorb(good), Some(1));
    assert_eq!(parent.absorb(bad), None);

    assert_eq!(parent.reasons.len(), 2);
    assert!(parent.value.is_some());
}

#[test]
fn a_node_can_extract_fine_and_still_carry_a_complaint() {
    let extraction =
        Extraction::value(()).with_reason(Reason::at(ReasonKind::UnknownKey, ident_span("colur")));
    assert!(!extraction.is_failure());
    assert_eq!(extraction.reasons.len(), 1);
}

#[test]
fn an_extraction_keeps_its_source_when_nothing_was_extracted() {
    let node = tokens("colour(Red)");
    let extracted: Extracted<u8, TokenStream> =
        Extracted::new(Extraction::failed(Reason::new(ReasonKind::WrongShape)), node.clone());
    assert!(extracted.value().is_none());
    assert_eq!(extracted.source().to_string(), node.to_string());
    assert_eq!(extracted.to_error("whole node").to_string(), "whole node");
}

// ---- the render walk ----------------------------------------------------------------------

struct Parent {
    children: Vec<Extracted<Leaf, TokenStream>>,
}

struct Leaf;

impl Diagnose for Parent {
    fn diagnose(&self, out: &mut Vec<syn::Error>) {
        self.children.diagnose(out);
    }
}

impl Diagnose for Leaf {
    fn diagnose(&self, _: &mut Vec<syn::Error>) {}
}

fn child(name: &str, reasons: Vec<Reason>) -> Extracted<Leaf, TokenStream> {
    Extracted::new(Extraction { value: Some(Leaf), reasons }, tokens(name))
}

fn tree(children: Vec<Extracted<Leaf, TokenStream>>) -> Extracted<Parent, TokenStream> {
    Extracted::new(Extraction::value(Parent { children }), tokens("root"))
}

fn combined_error() -> syn::Error {
    let mut first = syn::Error::new(Span::call_site(), "first complaint");
    first.combine(syn::Error::new(Span::call_site(), "second complaint"));
    first
}

#[test]
fn a_childs_reason_reaches_the_output() {
    let errors = tree(vec![child("a", vec![Reason::new(ReasonKind::Missing)])]).render();
    assert_eq!(errors.len(), 1);
    assert_eq!(errors[0].to_string(), "required, and not written");
}

#[test]
fn every_sibling_is_reported_not_just_the_first() {
    let errors = tree(vec![
        child("a", vec![Reason::new(ReasonKind::Missing)]),
        child("b", vec![Reason::new(ReasonKind::UnknownKey)]),
        child("c", vec![Reason::new(ReasonKind::Duplicate)]),
    ])
    .render();
    assert_eq!(errors.len(), 3);
}

#[test]
fn the_root_is_reported_before_its_children() {
    let root = Extracted::new(
        Extraction::value(Parent {
            children: vec![child("a", vec![Reason::new(ReasonKind::UnknownKey)])],
        })
        .with_reason(Reason::new(ReasonKind::WrongShape)),
        tokens("root"),
    );
    let errors = root.render();
    assert_eq!(errors[0].to_string(), "written in the wrong shape");
    assert_eq!(errors[1].to_string(), "not a key this node accepts");
}

#[test]
fn a_node_with_no_value_still_yields_its_reasons() {
    let root: Extracted<Parent, TokenStream> = Extracted::new(
        Extraction { value: None, reasons: vec![Reason::new(ReasonKind::WrongShape)] },
        tokens("root"),
    );
    assert_eq!(root.render().len(), 1);
}

#[test]
fn a_reasons_own_span_wins_over_the_nodes() {
    let errors =
        tree(vec![child("a", vec![Reason::at(ReasonKind::UnknownKey, ident_span("colur"))])]).render();
    assert!(!errors[0].to_compile_error().is_empty());
}

#[test]
fn combined_folds_the_walk_into_one_error() {
    let all = tree(vec![
        child("a", vec![Reason::new(ReasonKind::Missing)]),
        child("b", vec![Reason::new(ReasonKind::Missing)]),
    ])
    .rendered()
    .expect("two reasons");
    assert_eq!(all.into_iter().count(), 2);
}

#[test]
fn a_clean_tree_renders_nothing() {
    let clean = tree(vec![child("a", vec![])]);
    assert!(clean.render().is_empty());
    assert!(clean.rendered().is_none());
}

#[test]
fn a_carried_error_is_not_flattened() {
    let errors =
        tree(vec![child("a", vec![Reason::new(ReasonKind::Syntax(combined_error()))])]).render();
    assert_eq!(errors.len(), 1, "one reason");
    assert_eq!(errors[0].clone().into_iter().count(), 2);
    assert_eq!(errors[0].to_compile_error().to_string().matches("compile_error").count(), 2);
}

#[test]
fn a_reasons_own_span_still_wins_over_a_carried_error() {
    let reason = Reason::at(ReasonKind::Syntax(combined_error()), ident_span("colur"));
    assert!(reason.span().is_some(), "the finer pointer is kept");
}

#[test]
fn a_reasons_own_span_keeps_every_held_message() {
    let reason = Reason::at(ReasonKind::Syntax(combined_error()), ident_span("colur"));
    let error = reason.to_error(&tokens("node"), "unused");
    let messages: Vec<String> = error.into_iter().map(|e| e.to_string()).collect();
    assert_eq!(messages, ["first complaint", "first complaint", "second complaint"]);
}

#[test]
fn internal_is_distinguishable_from_the_authors_fault() {
    let ours = Reason::new(ReasonKind::Internal(combined_error()));
    let theirs = Reason::new(ReasonKind::Syntax(combined_error()));
    assert!(ours.is_internal());
    assert!(!theirs.is_internal());
    assert!(!Reason::new(ReasonKind::WrongShape).is_internal());
}

#[test]
fn an_internal_reason_says_so_in_its_wording() {
    let ours =
        Reason::new(ReasonKind::Internal(syn::Error::new(Span::call_site(), "assembled badly")));
    assert!(ours.message().starts_with("internal:"), "{}", ours.message());
    assert_eq!(ours.message(), "internal: assembled badly");
}

#[test]
fn or_span_adopts_only_when_there_is_nothing_finer() {
    let token = ident_span("finer");
    let coarse = ident_span("coarse");

    let adopted = Reason::new(ReasonKind::Missing).or_span(coarse);
    assert!(adopted.span().is_some());

    let kept = Reason::at(ReasonKind::Missing, token).or_span(coarse);
    assert_eq!(
        format!("{:?}", kept.span().unwrap()),
        format!("{:?}", token),
        "a parent must not overwrite a child that already knew",
    );
}

enum ColourReason {
    NotAColour { written: String },
    TooManyChannels,
}

impl AuthorReason for ColourReason {
    fn message(&self) -> String {
        match self {
            ColourReason::NotAColour { written } => format!("`{written}` is not a colour"),
            ColourReason::TooManyChannels => "a colour takes three channels".to_owned(),
        }
    }
}

#[test]
fn an_author_reason_renders_through_the_framework() {
    let reason = Reason::custom(ColourReason::NotAColour { written: "chartreuse".into() });
    assert_eq!(reason.message(), "`chartreuse` is not a colour");
    assert!(reason.span().is_none());
}

#[test]
fn an_author_reason_falls_back_to_the_node_it_sits_on() {
    let errors = tree(vec![child("a", vec![Reason::custom(ColourReason::TooManyChannels)])]).render();
    assert_eq!(errors.len(), 1);
    assert_eq!(errors[0].to_string(), "a colour takes three channels");
}

#[test]
fn an_author_may_still_point_at_one_token() {
    struct Precise(Span);
    impl AuthorReason for Precise {
        fn message(&self) -> String {
            "here".to_owned()
        }
        fn span(&self) -> Option<Span> {
            Some(self.0)
        }
    }
    let reason = Reason::custom(Precise(ident_span("chartreuse")));
    assert!(reason.span().is_some(), "an author with something finer keeps it");
}

#[test]
fn every_kind_has_its_default_wording() {
    assert_eq!(ReasonKind::WrongShape.message(), "written in the wrong shape");
    assert_eq!(ReasonKind::UnknownKey.message(), "not a key this node accepts");
    assert_eq!(ReasonKind::Missing.message(), "required, and not written");
    assert_eq!(ReasonKind::Duplicate.message(), "written more than once");
    assert_eq!(ReasonKind::Ambiguous.message(), "ambiguous - qualify it");
    assert_eq!(ReasonKind::Custom("mine".into()).message(), "mine");
}

// ---- processing ---------------------------------------------------------------------------

struct Item(u8);
struct ItemProcessed(u8);

impl Processor for Item {
    type Input = Extracted<Item, ()>;
    type Output = ItemProcessed;

    fn process(input: Self::Input) -> Extraction<Self::Output> {
        match input.into_extraction().value {
            Some(item) => Extraction::value(ItemProcessed(item.0 * 2)),
            None => Extraction::default(),
        }
    }
}

struct CollectionProcessed(u8);

fn extracted(n: u8) -> Extracted<Item, ()> {
    Extracted::new(Extraction::value(Item(n)), ())
}

/// Where each processing step writes that it ran, so the order can be read back.
type Log = std::rc::Rc<std::cell::RefCell<Vec<&'static str>>>;

struct LoggedChild(u8);

impl Processor for LoggedChild {
    type Input = Extracted<LoggedChild, Log>;
    type Output = ItemProcessed;

    fn process(input: Self::Input) -> Extraction<Self::Output> {
        input.source().borrow_mut().push("child");
        match input.into_extraction().value {
            Some(child) => Extraction::value(ItemProcessed(child.0 * 2)),
            None => Extraction::default(),
        }
    }
}

struct LoggedParent;

impl Processor for LoggedParent {
    type Input = (Log, Vec<Extracted<LoggedChild, Log>>);
    type Output = CollectionProcessed;

    fn process(input: Self::Input) -> Extraction<Self::Output> {
        let (log, children) = input;
        let children = process_each::<LoggedChild>(children);
        log.borrow_mut().push("parent");
        let total = children.into_iter().filter_map(|c| c.value).map(|c| c.0).sum();
        Extraction::value(CollectionProcessed(total))
    }
}

#[test]
fn the_cascade_runs_bottom_up() {
    let log: Log = Default::default();
    let child = |n: u8| Extracted::new(Extraction::value(LoggedChild(n)), log.clone());
    let out = LoggedParent::process((log.clone(), vec![child(1), child(2)]));
    // every child before the parent, and the parent saw their outputs (doubled), not inputs
    assert_eq!(*log.borrow(), ["child", "child", "parent"]);
    assert_eq!(out.value.unwrap().0, 6);
}

#[test]
fn process_each_keeps_one_result_per_child() {
    let out = process_each::<Item>(vec![extracted(3), extracted(4)]);
    let values: Vec<_> = out.into_iter().filter_map(|c| c.value).map(|c| c.0).collect();
    assert_eq!(values, [6, 8]);
}

#[test]
fn a_child_that_produced_nothing_still_occupies_its_place() {
    let empty: Extracted<Item, ()> = Extracted::new(Extraction::default(), ());
    let out = process_each::<Item>(vec![extracted(1), empty]);
    assert_eq!(out.len(), 2);
    assert!(out[1].value.is_none());
}

#[test]
fn process_maybe_passes_absence_through() {
    assert!(process_maybe::<Item>(None).is_none());
    assert!(process_maybe::<Item>(Some(extracted(5))).is_some());
}

// ---- deferred tokens ----------------------------------------------------------------------

#[test]
fn resolve_transitions_and_keeps_the_tokens() {
    let carried = tokens("AttributeKind::MetaList");
    let unresolved = Unresolved::<syn::Type>::new(&carried);
    assert_eq!(unresolved.tokens().to_string(), carried.to_string());

    let resolved = unresolved.resolve().expect("a path is a type");
    assert_eq!(resolved.tokens().to_string(), carried.to_string());
    assert!(matches!(resolved.value(), syn::Type::Path(_)));
}

#[test]
fn resolving_garbage_is_an_error_that_can_be_emitted() {
    let carried = tokens("!!");
    let error = Unresolved::<syn::Type>::new(&carried)
        .resolve()
        .err()
        .expect("`!!` is not a type");
    assert!(!error.to_compile_error().is_empty());
}

#[test]
fn resolve_with_does_not_require_parse() {
    let carried = tokens("anything");
    let resolved = Unresolved::<u8>::new(&carried)
        .resolve_with(|_| Ok::<_, ()>(7u8))
        .expect("the supplied reader succeeds");
    assert_eq!(*resolved.value(), 7);
    assert_eq!(resolved.tokens().to_string(), carried.to_string());
}

#[test]
fn an_identifier_resolves_to_its_text() {
    let carried = tokens("label");
    let resolved = Unresolved::<String>::new(&carried).resolve().expect("an identifier");
    assert_eq!(resolved.value(), "label");
    assert!(Unresolved::<String>::new(&tokens("a b")).resolve().is_err());
}

// ---- the node table -----------------------------------------------------------------------

const RETRY: Node = Node {
    name: "retry",
    children: &[
        Child { key: "times", aliases: &[], arity: Arity::Required, shapes: &[ShapeKind::NameValue] },
        Child { key: "backoff", aliases: &["delay"], arity: Arity::Optional, shapes: &[] },
    ],
};

#[test]
fn candidates_include_aliases() {
    let list = RETRY.candidates();
    assert!(list.contains("`times`"), "{list}");
    assert!(list.contains("`backoff`"), "{list}");
    assert!(list.contains("`delay`"), "{list}");
}

#[test]
fn a_child_is_found_by_canonical_or_alias() {
    assert_eq!(RETRY.child("backoff").unwrap().key, "backoff");
    assert_eq!(RETRY.child("delay").unwrap().key, "backoff");
    assert!(RETRY.child("nope").is_none());
}

#[test]
fn missing_reports_only_required_children() {
    let missing: Vec<&str> = RETRY.missing(&[]).into_iter().map(|child| child.key).collect();
    assert_eq!(missing, ["times"], "an optional child is never missing");
    assert_eq!(RETRY.missing(&["times"]).len(), 0);
}
