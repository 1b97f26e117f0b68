//! The generation stage: building an item, and building its vacant form when something went wrong.

use vstd::prelude::*;
use proc_macro2::{Span, TokenStream};
use crate::extractor::{Extraction, Extractor, Reason, ReasonKind, Validate};
use crate::processor::Processor;
use crate::render::{
    anchors_view, errors_view, reason_error, reason_placement, reasons_errors, reasons_placements,
    Diagnose, SourceNode,
};
use crate::tokens::{error_anchors, error_messages, ErrorAnchor};

verus! {

/// Build an item from a processed value - or, when there is none, the same item vacant.
pub trait Generator: Sized {
    /// A processor's `Output`.
    type Input;

    /// What a stub is written against - the node the output is generated about.
    type Subject;

    /// The item this generator produces.
    type Output;

    /// Whether `out` is what this generator builds from `input`. Unless an implementation says
    /// more, any output is possible.
    open spec fn generates(input: Self::Input, out: Extraction<Self::Output>) -> bool {
        true
    }

    /// Whether `out` is this generator's vacant form for `subject`. Unless an implementation says
    /// more, any outcome is possible.
    open spec fn stubs(subject: Self::Subject, out: Result<Self::Output, syn::Error>) -> bool {
        true
    }

    fn generate(input: Self::Input) -> (out: Extraction<Self::Output>)
        ensures
            Self::generates(input, out),
    ;

    /// The same output, vacant: the same items as a success, none of the content.
    fn stub(subject: Self::Subject) -> (out: Result<Self::Output, syn::Error>)
        ensures
            Self::stubs(subject, out),
    ;
}

/// Whether `r` is a single reason of our own, carrying `e`, with no finer span.
pub open spec fn is_internal_failure(r: Reason, e: syn::Error) -> bool {
    r.spec_kind() == ReasonKind::Internal(e) && r.spec_span() is None
}

/// A leaf generator's result: the item its tokens parsed as, or our own failure.
pub fn leaf<T>(parsed: Result<T, syn::Error>) -> (r: Extraction<T>)
    ensures
        match parsed {
            Ok(v) => r.value == Some(v) && r.reasons@ == Seq::<Reason>::empty(),
            Err(e) => r.value is None && r.reasons@.len() == 1 && is_internal_failure(
                r.reasons@[0],
                e,
            ),
        },
{
    match parsed {
        Ok(item) => Extraction::value(item),
        Err(error) => Extraction::failed(Reason::new(ReasonKind::Internal(error))),
    }
}

/// The end of a parent's generation: the assembled item, or - when assembly failed - our own
/// failure beside every reason the children already gave.
pub fn conclude<O>(out: Extraction<O>, assembled: Result<O, syn::Error>) -> (r: Extraction<O>)
    ensures
        match assembled {
            Ok(item) => r.value == Some(item) && r.reasons@ == out.reasons@,
            Err(e) => r.value == out.value && r.reasons@.len() == out.reasons@.len() + 1
                && r.reasons@.drop_last() == out.reasons@ && is_internal_failure(
                r.reasons@.last(),
                e,
            ),
        },
{
    let mut out = out;
    match assembled {
        Ok(item) => {
            out.value = Some(item);
            out
        },
        Err(error) => {
            let ghost before = out.reasons@;
            out.reasons.push(Reason::new(ReasonKind::Internal(error)));
            proof {
                assert(out.reasons@.drop_last() =~= before);
            }
            out
        },
    }
}

/// The reason as a parent reports it: one of ours keeps its own placement, one of the author's
/// adopts `span` - the source an element came from - unless it already points somewhere finer.
pub open spec fn upward_span(r: Reason, span: Span) -> Option<Span> {
    if r.spec_kind() is Internal || r.spec_span() is Some {
        r.spec_span()
    } else {
        Some(span)
    }
}

/// Fail upward: an author's reason adopts the span of the element it came from.
pub fn fail_upward(reason: Reason, span: Span) -> (r: Reason)
    ensures
        r.spec_kind() == reason.spec_kind(),
        r.spec_span() == upward_span(reason, span),
{
    if reason.is_internal() {
        reason
    } else {
        reason.or_span(span)
    }
}

/// Every reason failed upward to `span`.
pub fn fail_all_upward(reasons: Vec<Reason>, span: Span) -> (r: Vec<Reason>)
    ensures
        r@.len() == reasons@.len(),
        forall|i: int|
            0 <= i < reasons@.len() ==> (#[trigger] r@[i]).spec_kind() == reasons@[i].spec_kind()
                && r@[i].spec_span() == upward_span(reasons@[i], span),
{
    let ghost all = reasons@;
    let mut out: Vec<Reason> = Vec::new();
    let mut rest = reasons;
    while rest.len() > 0
        invariant
            out@.len() <= all.len(),
            rest@ == all.skip(out@.len() as int),
            forall|i: int|
                0 <= i < out@.len() ==> (#[trigger] out@[i]).spec_kind() == all[i].spec_kind()
                    && out@[i].spec_span() == upward_span(all[i], span),
        decreases rest@.len(),
    {
        let reason = rest.remove(0);
        proof {
            assert(reason == all[out@.len() as int]);
        }
        out.push(fail_upward(reason, span));
        proof {
            assert(rest@ =~= all.skip(out@.len() as int));
        }
    }
    out
}

/// One child that must be there: its item, or - when it produced none - its vacant form, so its
/// siblings still reach the output. `None` means even the stub failed; `out` then holds that
/// failure and the parent stops.
pub fn generate_one<C: Generator, T>(
    out: &mut Extraction<T>,
    fed: C::Input,
    subject: C::Subject,
) -> (r: Option<C::Output>)
    ensures
        final(out).value == old(out).value,
        exists|g: Extraction<C::Output>|
            #![trigger C::generates(fed, g)]
            C::generates(fed, g) && final(out).reasons@.len() >= old(out).reasons@.len()
                + g.reasons@.len() && final(out).reasons@.take(
                (old(out).reasons@.len() + g.reasons@.len()) as int,
            ) == old(out).reasons@ + g.reasons@ && match g.value {
                Some(item) => r == Some(item) && final(out).reasons@ == old(out).reasons@
                    + g.reasons@,
                None => exists|s: Result<C::Output, syn::Error>|
                    #![trigger C::stubs(subject, s)]
                    C::stubs(subject, s) && match s {
                        Ok(vacant) => r == Some(vacant) && final(out).reasons@ == old(
                            out,
                        ).reasons@ + g.reasons@,
                        Err(e) => r is None && final(out).reasons@.len() == old(
                            out,
                        ).reasons@.len() + g.reasons@.len() + 1 && is_internal_failure(
                            final(out).reasons@.last(),
                            e,
                        ),
                    },
            },
{
    let produced = C::generate(fed);
    let ghost g = produced;
    let ghost before = out.reasons@;
    let value = out.absorb(produced);
    proof {
        assert(out.reasons@.take((before.len() + g.reasons@.len()) as int) =~= out.reasons@);
    }
    match value {
        Some(item) => Some(item),
        None => {
            let vacant = C::stub(subject);
            match vacant {
                Ok(item) => Some(item),
                Err(error) => {
                    let ghost mid = out.reasons@;
                    out.reasons.push(Reason::new(ReasonKind::Internal(error)));
                    proof {
                        assert(out.reasons@.take(mid.len() as int) =~= mid);
                        assert(mid.take(mid.len() as int) =~= mid);
                    }
                    None
                },
            }
        },
    }
}

/// A reason as it is reported: what kind it is, and where it points.
pub open spec fn reason_view(r: Reason) -> (ReasonKind, Option<Span>) {
    (r.spec_kind(), r.spec_span())
}

/// The reported view of each reason.
pub open spec fn reasons_view(rs: Seq<Reason>) -> Seq<(ReasonKind, Option<Span>)> {
    rs.map_values(|r: Reason| reason_view(r))
}

/// Each reason of one element, failed upward to that element's span.
pub open spec fn upward_view(rs: Seq<Reason>, span: Span) -> Seq<(ReasonKind, Option<Span>)> {
    rs.map_values(|r: Reason| (r.spec_kind(), upward_span(r, span)))
}

/// The reasons of every element in turn, each failed upward to its own element's span.
pub open spec fn upward_all<O>(gs: Seq<Extraction<O>>, spans: Seq<Span>) -> Seq<
    (ReasonKind, Option<Span>),
>
    decreases gs.len(),
{
    if gs.len() == 0 {
        Seq::empty()
    } else {
        upward_all(gs.drop_last(), spans) + upward_view(gs.last().reasons@, spans[gs.len() - 1])
    }
}

/// The items that were produced, in order; the failed elements leave no gap.
pub open spec fn present<O>(gs: Seq<Extraction<O>>) -> Seq<O>
    decreases gs.len(),
{
    if gs.len() == 0 {
        Seq::empty()
    } else {
        present(gs.drop_last()) + match gs.last().value {
            Some(v) => seq![v],
            None => Seq::empty(),
        }
    }
}

/// Whether `gs` holds, for each fed element, what the child generator built from it.
pub open spec fn generated_each<C: Generator>(
    fed: Seq<(C::Input, Span)>,
    gs: Seq<Extraction<C::Output>>,
) -> bool {
    gs.len() == fed.len() && forall|i: int|
        0 <= i < fed.len() ==> C::generates(#[trigger] fed[i].0, gs[i])
}

/// A repeated child: one generation per fed element. A failure isolates to its element - it
/// produces no item, and its reasons, failed upward to the element's span, join the parent's.
pub fn generate_many<C: Generator, T>(out: &mut Extraction<T>, fed: Vec<(C::Input, Span)>) -> (r:
    Vec<C::Output>)
    ensures
        final(out).value == old(out).value,
        exists|gs: Seq<Extraction<C::Output>>|
            #![trigger generated_each::<C>(fed@, gs)]
            generated_each::<C>(fed@, gs) && r@ == present(gs) && reasons_view(final(out).reasons@)
                == reasons_view(old(out).reasons@) + upward_all(
                gs,
                fed@.map_values(|p: (C::Input, Span)| p.1),
            ),
{
    let ghost all = fed@;
    let ghost spans = fed@.map_values(|p: (C::Input, Span)| p.1);
    let ghost start = out.reasons@;
    let ghost mut gs: Seq<Extraction<C::Output>> = Seq::empty();
    let mut items: Vec<C::Output> = Vec::new();
    let mut rest = fed;
    while rest.len() > 0
        invariant
            gs.len() <= all.len(),
            rest@ == all.skip(gs.len() as int),
            spans == all.map_values(|p: (C::Input, Span)| p.1),
            forall|i: int| 0 <= i < gs.len() ==> C::generates(#[trigger] all[i].0, gs[i]),
            items@ == present(gs),
            out.value == old(out).value,
            reasons_view(out.reasons@) == reasons_view(start) + upward_all(gs, spans),
            start == old(out).reasons@,
        decreases rest@.len(),
    {
        let (input, span) = rest.remove(0);
        let ghost k = gs.len() as int;
        proof {
            assert((input, span) == all[k]);
            assert(spans[k] == span);
        }
        let produced = C::generate(input);
        let ghost g = produced;
        let Extraction { value, reasons } = produced;
        let lifted = fail_all_upward(reasons, span);
        let ghost before = out.reasons@;
        let value = out.absorb(Extraction { value, reasons: lifted });
        proof {
            assert(reasons_view(lifted@) =~= upward_view(g.reasons@, span));
            let prev = gs;
            gs = gs.push(g);
            assert(gs.drop_last() =~= prev);
            assert(gs.last() == g);
        }
        match value {
            Some(item) => items.push(item),
            None => {},
        }
        proof {
            assert(reasons_view(out.reasons@) =~= reasons_view(before) + reasons_view(lifted@));
            assert(rest@ =~= all.skip(gs.len() as int));
        }
    }
    proof {
        assert(generated_each::<C>(all, gs));
    }
    items
}

/// Render each reason against `node`, after what `out` already holds.
pub fn push_reasons(out: &mut Vec<syn::Error>, node: &TokenStream, reasons: &[Reason])
    ensures
        errors_view(final(out)@) == errors_view(old(out)@) + reasons_errors(reasons@),
        anchors_view(final(out)@) == anchors_view(old(out)@) + reasons_placements(reasons@, *node),
{
    let ghost start = errors_view(out@);
    let ghost start_at = anchors_view(out@);
    let mut i: usize = 0;
    while i < reasons.len()
        invariant
            i <= reasons@.len(),
            errors_view(out@) == start + reasons_errors(reasons@.take(i as int)),
            anchors_view(out@) == start_at + reasons_placements(reasons@.take(i as int), *node),
        decreases reasons@.len() - i,
    {
        let reason = &reasons[i];
        let message = reason.message();
        let error = reason.to_error(node, message.as_str());
        let ghost before = out@;
        out.push(error);
        proof {
            assert(errors_view(out@) =~= errors_view(before).push(error_messages(error)));
            assert(reasons_errors(reasons@.take(i + 1)) =~= reasons_errors(reasons@.take(i as int)).push(
                reason_error(reasons@[i as int]),
            ));
            assert(anchors_view(out@) =~= anchors_view(before).push(error_anchors(error)));
            assert(reasons_placements(reasons@.take(i + 1), *node) =~= reasons_placements(
                reasons@.take(i as int),
                *node,
            ).push(reason_placement(reasons@[i as int], *node)));
        }
        i = i + 1;
    }
    proof {
        assert(reasons@.take(reasons@.len() as int) =~= reasons@);
    }
}

/// What a macro emits: the item - generated, or its vacant form - and every error beside it.
pub struct Emission<O> {
    pub item: Option<O>,
    pub errors: Vec<syn::Error>,
}

/// The item that goes out: the generated one, else the stub, else - only when even the stub
/// failed - nothing.
pub open spec fn chosen<O>(generated: Option<O>, vacant: Result<O, syn::Error>) -> Option<O> {
    match generated {
        Some(v) => Some(v),
        None => match vacant {
            Ok(v) => Some(v),
            Err(_) => None,
        },
    }
}

/// The stub's own failure, when the stub was needed and could not be built.
pub open spec fn stub_failure<O>(generated: Option<O>, vacant: Result<O, syn::Error>) -> Seq<
    Seq<Seq<char>>,
> {
    match generated {
        Some(_) => Seq::empty(),
        None => match vacant {
            Ok(_) => Seq::empty(),
            Err(e) => seq![error_messages(e)],
        },
    }
}

/// Where the stub's own failure points, when the stub was needed and could not be built.
pub open spec fn stub_placement<O>(generated: Option<O>, vacant: Result<O, syn::Error>) -> Seq<
    Seq<ErrorAnchor>,
> {
    match generated {
        Some(_) => Seq::empty(),
        None => match vacant {
            Ok(_) => Seq::empty(),
            Err(e) => seq![error_anchors(e)],
        },
    }
}

/// Whether the three stages, run on `node`, could have produced `x`, `p`, `g` and - when it was
/// needed - the stub `v`.
pub open spec fn ran<E, P, G>(
    node: E::Source,
    x: E::Output,
    p: Extraction<P::Output>,
    g: Extraction<G::Output>,
    v: Result<G::Output, syn::Error>,
) -> bool where
    E: Extractor,
    P: Processor<Input = E::Output>,
    G: Generator<Input = P::Output, Subject = E::Source>,
 {
    &&& E::extracts(node, x)
    &&& P::processes(x, p)
    &&& match p.value {
        Some(i) => G::generates(i, g),
        None => g.value is None && g.reasons@.len() == 0,
    }
    &&& (g.value is None ==> G::stubs(node, v))
}

/// Run every stage on one node and normalise the result.
///
/// The tree's reasons are collected before processing consumes it; the processor's and the
/// generator's reasons follow, rendered against the node; and the item goes out whatever
/// happened - generated, or vacant - unless even its vacant form could not be built, in which
/// case that failure is reported too.
pub fn run<E, P, G>(node: E::Source) -> (r: Emission<G::Output>) where
    E: Extractor,
    E::Output: Diagnose,
    E::Source: Copy + SourceNode,
    P: Processor<Input = E::Output>,
    G: Generator<Input = P::Output, Subject = E::Source>,

    ensures
        exists|
            x: E::Output,
            p: Extraction<P::Output>,
            g: Extraction<G::Output>,
            v: Result<G::Output, syn::Error>,
        |
            #![trigger ran::<E, P, G>(node, x, p, g, v)]
            ran::<E, P, G>(node, x, p, g, v) && r.item == chosen(g.value, v) && errors_view(
                r.errors@,
            ) == x.diagnostics() + reasons_errors(p.reasons@) + reasons_errors(g.reasons@)
                + stub_failure(g.value, v) && anchors_view(r.errors@) == x.placements()
                + reasons_placements(p.reasons@, node.spec_node_tokens()) + reasons_placements(
                g.reasons@,
                node.spec_node_tokens(),
            ) + stub_placement(g.value, v),
{
    let extracted = E::extract_from(node);
    let ghost x = extracted;
    let mut errors = extracted.render();
    let processed = P::process(extracted);
    let ghost p = processed;
    let tokens = node.node_tokens();
    push_reasons(&mut errors, &tokens, processed.reasons.as_slice());
    let Extraction { value, reasons: _ } = processed;
    let generated = match value {
        Some(v) => G::generate(v),
        None => Extraction::empty(),
    };
    let ghost g = generated;
    push_reasons(&mut errors, &tokens, generated.reasons.as_slice());
    let Extraction { value, reasons: _ } = generated;
    match value {
        Some(item) => {
            let ghost v = Ok::<G::Output, syn::Error>(item);
            proof {
                assert(ran::<E, P, G>(node, x, p, g, v));
                assert(errors_view(errors@) =~= x.diagnostics() + reasons_errors(p.reasons@)
                    + reasons_errors(g.reasons@) + stub_failure(g.value, v));
                assert(anchors_view(errors@) =~= x.placements() + reasons_placements(p.reasons@, tokens)
                    + reasons_placements(g.reasons@, tokens) + stub_placement(g.value, v));
            }
            Emission { item: Some(item), errors }
        },
        None => {
            let vacant = G::stub(node);
            let ghost v = vacant;
            match vacant {
                Ok(item) => {
                    proof {
                        assert(ran::<E, P, G>(node, x, p, g, v));
                        assert(errors_view(errors@) =~= x.diagnostics() + reasons_errors(p.reasons@)
                            + reasons_errors(g.reasons@) + stub_failure(g.value, v));
                        assert(anchors_view(errors@) =~= x.placements() + reasons_placements(
                            p.reasons@,
                            tokens,
                        ) + reasons_placements(g.reasons@, tokens) + stub_placement(g.value, v));
                    }
                    Emission { item: Some(item), errors }
                },
                Err(error) => {
                    let ghost m = error_messages(error);
                    let ghost at = error_anchors(error);
                    let ghost prior = errors@;
                    errors.push(error);
                    proof {
                        assert(ran::<E, P, G>(node, x, p, g, v));
                        assert(errors_view(errors@) =~= errors_view(prior).push(m));
                        assert(anchors_view(errors@) =~= anchors_view(prior).push(at));
                        assert(anchors_view(errors@) =~= x.placements() + reasons_placements(
                            p.reasons@,
                            tokens,
                        ) + reasons_placements(g.reasons@, tokens) + stub_placement(g.value, v));
                        assert(errors_view(errors@) =~= x.diagnostics() + reasons_errors(p.reasons@)
                            + reasons_errors(g.reasons@) + stub_failure(g.value, v));
                    }
                    Emission { item: None, errors }
                },
            }
        },
    }
}

/// The item goes out whatever happened: it is missing only when there was nothing generated and
/// even the vacant form could not be built - and then exactly that failure is reported.
pub proof fn lemma_item_always_out<O>(generated: Option<O>, vacant: Result<O, syn::Error>)
    ensures
        chosen(generated, vacant) is None <==> (generated is None && vacant is Err),
        chosen(generated, vacant) is None ==> stub_failure(generated, vacant).len() == 1,
        generated is Some ==> chosen(generated, vacant) == generated,
{
}

/// A failed element costs only itself: every item an element did produce is in the output, at
/// a place that counts only the successes before it.
pub proof fn lemma_failure_isolated<O>(gs: Seq<Extraction<O>>, i: int)
    requires
        0 <= i < gs.len(),
        gs[i].value is Some,
    ensures
        present(gs).contains(gs[i].value->0),
        present(gs.take(i)).len() < present(gs).len(),
        present(gs)[present(gs.take(i)).len() as int] == gs[i].value->0,
    decreases gs.len(),
{
    lemma_present_prefix(gs, i + 1);
    assert(gs.take(i + 1).drop_last() =~= gs.take(i));
    assert(gs.take(i + 1).last() == gs[i]);
    let p = present(gs.take(i));
    assert(present(gs.take(i + 1)) == p + seq![gs[i].value->0]);
    let k = p.len() as int;
    assert(present(gs)[k] == present(gs.take(i + 1))[k]);
}

/// What a prefix of the elements produced is a prefix of what they all produced.
pub proof fn lemma_present_prefix<O>(gs: Seq<Extraction<O>>, n: int)
    requires
        0 <= n <= gs.len(),
    ensures
        present(gs.take(n)).len() <= present(gs).len(),
        forall|k: int| 0 <= k < present(gs.take(n)).len() ==> present(gs)[k] == present(gs.take(n))[k],
    decreases gs.len(),
{
    if n < gs.len() {
        assert(gs.drop_last().take(n) =~= gs.take(n));
        lemma_present_prefix(gs.drop_last(), n);
    } else {
        assert(gs.take(n) =~= gs);
    }
}

/// The three stages, named together so their types must agree, and run as one.
pub trait Pipeline {
    /// Reads the node.
    type Extractor: Extractor;

    /// Understands the extraction. A pipeline with nothing to process names its extractor here.
    type Processor: Processor<Input = <Self::Extractor as Extractor>::Output>;

    /// Builds the output, and its vacant form against the same node.
    type Generator: Generator<
        Input = <Self::Processor as Processor>::Output,
        Subject = <Self::Extractor as Validate>::Source,
    >;

    /// Run every stage on one node and normalise the result; see [`run`].
    fn run(node: <Self::Extractor as Validate>::Source) -> (r: Emission<
        <Self::Generator as Generator>::Output,
    >) where
        <Self::Extractor as Extractor>::Output: Diagnose,
        <Self::Extractor as Validate>::Source: Copy + SourceNode,

        ensures
            exists|
                x: <Self::Extractor as Extractor>::Output,
                p: Extraction<<Self::Processor as Processor>::Output>,
                g: Extraction<<Self::Generator as Generator>::Output>,
                v: Result<<Self::Generator as Generator>::Output, syn::Error>,
            |
                #![trigger ran::<Self::Extractor, Self::Processor, Self::Generator>(node, x, p, g, v)]
                ran::<Self::Extractor, Self::Processor, Self::Generator>(node, x, p, g, v) && r.item
                    == chosen(g.value, v) && errors_view(r.errors@) == x.diagnostics()
                    + reasons_errors(p.reasons@) + reasons_errors(g.reasons@) + stub_failure(g.value, v)
                    && anchors_view(r.errors@) == x.placements() + reasons_placements(
                    p.reasons@,
                    node.spec_node_tokens(),
                ) + reasons_placements(g.reasons@, node.spec_node_tokens()) + stub_placement(g.value, v),
    {
        run::<Self::Extractor, Self::Processor, Self::Generator>(node)
    }
}

} // verus!
