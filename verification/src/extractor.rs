//! `Extraction<T>` - a value, the complaints attached to it, or both - and the extraction contract.

use vstd::prelude::*;
use proc_macro2::{Span, TokenStream};
use crate::render::SourceNode;
use crate::tokens::{error_anchors, error_clone, error_combine, ErrorAnchor, error_display, error_messages, error_new, error_new_spanned, error_text};

verus! {

/// A value, the reasons recorded against it, or both.
pub struct Extraction<T> {
    pub value: Option<T>,
    pub reasons: Vec<Reason>,
}

/// Why a node is unhappy, and - when it can be more precise than the node - where.
pub struct Reason {
    pub kind: ReasonKind,
    span: Option<Span>,
}

/// The closed set of reasons, with `Custom` so an exotic grammar is never blocked outright.
pub enum ReasonKind {
    WrongShape,
    UnknownKey,
    Missing,
    Duplicate,
    Ambiguous,
    /// Ours: a framework failure - malformed tokens we assembled, a contract we broke.
    Internal(syn::Error),
    /// A real syn failure attributable to what the author wrote.
    Syntax(syn::Error),
    /// A grammar author's own reason, already worded.
    Custom(String),
}

impl<T> Extraction<T> {
    /// A value with nothing to complain about.
    pub fn value(value: T) -> (r: Self)
        ensures
            r.value == Some(value),
            r.reasons@ == Seq::<Reason>::empty(),
    {
        Extraction { value: Some(value), reasons: Vec::new() }
    }

    /// No value, and the one reason why.
    pub fn failed(reason: Reason) -> (r: Self)
        ensures
            r.value is None,
            r.reasons@ == seq![reason],
    {
        Extraction { value: None, reasons: vec![reason] }
    }

    /// The same extraction, with one more reason after the others.
    pub fn with_reason(self, reason: Reason) -> (r: Self)
        ensures
            r.value == self.value,
            r.reasons@ == self.reasons@.push(reason),
    {
        let mut out = self;
        out.reasons.push(reason);
        out
    }

    /// Whether no value was produced.
    pub fn is_failure(&self) -> (r: bool)
        ensures
            r == self.value is None,
    {
        self.value.is_none()
    }

    /// Take another extraction's reasons and hand back its value.
    ///
    /// The reasons always come across, whether or not the child produced anything.
    pub fn absorb<U>(&mut self, other: Extraction<U>) -> (r: Option<U>)
        ensures
            final(self).value == old(self).value,
            final(self).reasons@ == old(self).reasons@ + other.reasons@,
            r == other.value,
    {
        let Extraction { value, reasons } = other;
        let mut reasons = reasons;
        self.reasons.append(&mut reasons);
        value
    }

    /// No value and no reasons.
    pub fn empty() -> (r: Self)
        ensures
            r.value is None,
            r.reasons@ == Seq::<Reason>::empty(),
    {
        Extraction { value: None, reasons: Vec::new() }
    }
}

impl<T> Default for Extraction<T> {
    fn default() -> (r: Self)
        ensures
            r.value is None,
            r.reasons@ == Seq::<Reason>::empty(),
    {
        Extraction::empty()
    }
}

/// A grammar author's own reason, rendered by the framework.
pub trait AuthorReason {
    /// What this reason says. Unless an implementation says what it is, nothing is known of it.
    open spec fn spec_message(&self) -> Seq<char> {
        arbitrary()
    }

    /// What went wrong, in the author's words.
    fn message(&self) -> (r: String)
        ensures
            r@ == self.spec_message(),
    ;

    /// A finer span than the node this reason will sit on, when the author has one. Unless an
    /// implementation says otherwise, there is none.
    fn span(&self) -> (r: Option<Span>)
        default_ensures
            r is None,
    {
        None
    }
}

/// The messages a reason renders to: a held error is returned whole; when the reason has a finer
/// span of its own, a pointer there, worded as the held error's first message, comes first and
/// every message of the held error follows it, each keeping its own span.
pub open spec fn reason_messages(kind: ReasonKind, span: Option<Span>, message: Seq<char>) -> Seq<
    Seq<char>,
> {
    match kind {
        ReasonKind::Internal(e) => if span is Some {
            seq![error_display(e)] + error_messages(e)
        } else {
            error_messages(e)
        },
        ReasonKind::Syntax(e) => if span is Some {
            seq![error_display(e)] + error_messages(e)
        } else {
            error_messages(e)
        },
        _ => seq![message],
    }
}

/// A held error pointed at `span`: a pointer there worded as its first message, then the held
/// error itself, never rebuilt, so every sub-error keeps its message and its span.
fn pointed(span: Span, held: &syn::Error) -> (e: syn::Error)
    ensures
        error_messages(e) == seq![error_display(*held)] + error_messages(*held),
        error_anchors(e) == seq![ErrorAnchor::At(span)] + error_anchors(*held),
{
    let text = error_text(held);
    let mut pointer = error_new(span, text.as_str());
    error_combine(&mut pointer, error_clone(held));
    pointer
}

/// Where the messages of a reason point: a held error's own places, after a pointer at the
/// reason's span when it has one; any other reason at its span, or over its node.
pub open spec fn reason_anchors(kind: ReasonKind, span: Option<Span>, node: TokenStream) -> Seq<
    ErrorAnchor,
> {
    match kind {
        ReasonKind::Internal(e) => match span {
            Some(s) => seq![ErrorAnchor::At(s)] + error_anchors(e),
            None => error_anchors(e),
        },
        ReasonKind::Syntax(e) => match span {
            Some(s) => seq![ErrorAnchor::At(s)] + error_anchors(e),
            None => error_anchors(e),
        },
        _ => match span {
            Some(s) => seq![ErrorAnchor::At(s)],
            None => seq![ErrorAnchor::Over(node)],
        },
    }
}

impl Reason {
    /// What kind of reason this is.
    pub closed spec fn spec_kind(&self) -> ReasonKind {
        self.kind
    }

    /// This reason's own span, if it has one finer than its node.
    pub closed spec fn spec_span(&self) -> Option<Span> {
        self.span
    }

    /// A complaint about the node this reason will sit on.
    pub fn new(kind: ReasonKind) -> (r: Self)
        ensures
            r.spec_kind() == kind,
            r.spec_span() is None,
    {
        Reason { kind, span: None }
    }

    /// An author's own reason, converted.
    pub fn custom<A: AuthorReason>(reason: A) -> (r: Self)
        ensures
            r.spec_kind() matches ReasonKind::Custom(m) && m@ == reason.spec_message(),
    {
        let message = reason.message();
        let span = reason.span();
        Reason { kind: ReasonKind::Custom(message), span }
    }

    /// A complaint about one specific token, which is finer than the node can point at.
    pub fn at(kind: ReasonKind, token: Span) -> (r: Self)
        ensures
            r.spec_kind() == kind,
            r.spec_span() == Some(token),
    {
        Reason { kind, span: Some(token) }
    }

    /// What kind of reason this is.
    pub fn kind(&self) -> (r: &ReasonKind)
        ensures
            *r == self.spec_kind(),
    {
        &self.kind
    }

    /// This reason's own span.
    pub fn span(&self) -> (r: Option<Span>)
        ensures
            r == self.spec_span(),
    {
        self.span
    }

    /// Whether this is our failure rather than the author's.
    pub fn is_internal(&self) -> (r: bool)
        ensures
            r == self.spec_kind() is Internal,
    {
        match &self.kind {
            ReasonKind::Internal(_) => true,
            _ => false,
        }
    }

    /// Adopt `span` only if this reason has nothing finer of its own.
    pub fn or_span(self, span: Span) -> (r: Self)
        ensures
            r.spec_kind() == self.spec_kind(),
            r.spec_span() == (if self.spec_span() is Some {
                self.spec_span()
            } else {
                Some(span)
            }),
    {
        let own = self.span;
        match own {
            Some(_) => self,
            None => Reason { kind: self.kind, span: Some(span) },
        }
    }

    /// Render, falling back to `node` when this reason has nothing finer to point at.
    pub fn to_error(&self, node: &TokenStream, message: &str) -> (e: syn::Error)
        ensures
            error_messages(e) == reason_messages(
                self.spec_kind(),
                self.spec_span(),
                message@,
            ),
            error_anchors(e) == reason_anchors(self.spec_kind(), self.spec_span(), *node),
    {
        match &self.kind {
            ReasonKind::Internal(error) => match self.span {
                Some(span) => pointed(span, error),
                None => error_clone(error),
            },
            ReasonKind::Syntax(error) => match self.span {
                Some(span) => pointed(span, error),
                None => error_clone(error),
            },
            _ => match self.span {
                Some(span) => error_new(span, message),
                None => error_new_spanned(node, message),
            },
        }
    }
}

/// An extraction together with the node it was read from.
pub struct Extracted<T, I> {
    extraction: Extraction<T>,
    source: I,
}

impl<T, I> Extracted<T, I> {
    /// The extraction this holds.
    pub closed spec fn spec_extraction(&self) -> &Extraction<T> {
        &self.extraction
    }

    /// The node this was read from.
    pub closed spec fn spec_source(&self) -> &I {
        &self.source
    }

    pub fn new(extraction: Extraction<T>, source: I) -> (r: Self)
        ensures
            r.spec_extraction() == extraction,
            r.spec_source() == source,
    {
        Extracted { extraction, source }
    }

    /// The node this was read from, for a renderer that wants to span something.
    pub fn source(&self) -> (r: &I)
        ensures
            r == self.spec_source(),
    {
        &self.source
    }

    pub fn extraction(&self) -> (r: &Extraction<T>)
        ensures
            r == self.spec_extraction(),
    {
        &self.extraction
    }

    pub fn into_extraction(self) -> (r: Extraction<T>)
        ensures
            r == self.spec_extraction(),
    {
        self.extraction
    }

    pub fn value(&self) -> (r: Option<&T>)
        ensures
            r == match self.spec_extraction().value {
                Some(v) => Some(&v),
                None => None::<&T>,
            },
    {
        self.extraction.value.as_ref()
    }

    pub fn reasons(&self) -> (r: &[Reason])
        ensures
            r@ == self.spec_extraction().reasons@,
    {
        self.extraction.reasons.as_slice()
    }
}

impl<T, I: SourceNode> Extracted<T, I> {
    /// Span a message under the whole source node - available even when nothing was extracted.
    pub fn to_error(&self, message: &str) -> (e: syn::Error)
        ensures
            error_messages(e) == seq![message@],
            error_anchors(e) == seq![ErrorAnchor::Over(self.spec_source().spec_node_tokens())],
    {
        let node = self.source.node_tokens();
        error_new_spanned(&node, message)
    }
}

/// Narrow a source node to what an extraction needs, or say why it could not be.
pub trait Validate {
    /// The node this extraction reads.
    type Source;

    /// What the node narrows to.
    type Valid;

    fn validate(input: Self::Source) -> Result<Self::Valid, Reason>;
}

/// Read a node into its extraction.
pub trait Extractor: Sized + Validate {
    /// What the processor receives.
    type Output;

    /// Whether `out` is what this extractor makes of `node`. Unless an implementation says more,
    /// any output is possible.
    open spec fn extracts(node: Self::Source, out: Self::Output) -> bool {
        true
    }

    fn extract_from(node: Self::Source) -> (out: Self::Output)
        ensures
            Self::extracts(node, out),
    ;

    /// Many children, one output each, in order.
    fn extract_each(nodes: Vec<Self::Source>) -> (r: Vec<Self::Output>)
        ensures
            r@.len() == nodes@.len(),
            forall|i: int| 0 <= i < nodes@.len() ==> Self::extracts(#[trigger] nodes@[i], r@[i]),
    {
        let ghost all = nodes@;
        let mut out: Vec<Self::Output> = Vec::new();
        let mut rest = nodes;
        while rest.len() > 0
            invariant
                out@.len() <= all.len(),
                rest@ == all.skip(out@.len() as int),
                forall|i: int| 0 <= i < out@.len() ==> Self::extracts(#[trigger] all[i], out@[i]),
            decreases rest@.len(),
        {
            let node = rest.remove(0);
            proof {
                assert(node == all[out@.len() as int]);
            }
            out.push(Self::extract_from(node));
            proof {
                assert(rest@ =~= all.skip(out@.len() as int));
            }
        }
        out
    }

    /// A child that may not be there. Absence records nothing.
    fn extract_maybe(node: Option<Self::Source>) -> (r: Option<Self::Output>)
        ensures
            match node {
                Some(n) => r matches Some(o) && Self::extracts(n, o),
                None => r is None,
            },
    {
        match node {
            Some(n) => Some(Self::extract_from(n)),
            None => None,
        }
    }
}

} // verus!
