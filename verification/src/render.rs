//! The render walk: one pass over a finished extraction tree, emitting every reason it finds.

use vstd::prelude::*;
use vstd::string::*;
use proc_macro2::TokenStream;
use crate::extractor::{reason_anchors, reason_messages, Extracted, Reason, ReasonKind};
use crate::tokens::{
    error_anchors, error_combine, error_display, error_messages, error_text, tokens_clone, ErrorAnchor,
};

verus! {

/// The messages of each error, one entry per error.
pub open spec fn errors_view(s: Seq<syn::Error>) -> Seq<Seq<Seq<char>>> {
    s.map_values(|e: syn::Error| error_messages(e))
}

/// Where each message of each error points, one entry per error.
pub open spec fn anchors_view(s: Seq<syn::Error>) -> Seq<Seq<ErrorAnchor>> {
    s.map_values(|e: syn::Error| error_anchors(e))
}

/// Every entry of every part, in order.
pub open spec fn flatten<T>(s: Seq<Seq<T>>) -> Seq<T>
    decreases s.len(),
{
    if s.len() == 0 {
        Seq::empty()
    } else {
        flatten(s.drop_last()) + s.last()
    }
}

/// The default wording for each kind of reason.
pub open spec fn kind_message(kind: ReasonKind) -> Seq<char> {
    match kind {
        ReasonKind::WrongShape => "written in the wrong shape"@,
        ReasonKind::UnknownKey => "not a key this node accepts"@,
        ReasonKind::Missing => "required, and not written"@,
        ReasonKind::Duplicate => "written more than once"@,
        ReasonKind::Ambiguous => "ambiguous - qualify it"@,
        ReasonKind::Internal(e) => "internal: "@ + error_display(e),
        ReasonKind::Syntax(e) => error_display(e),
        ReasonKind::Custom(m) => m@,
    }
}

/// The error one reason renders to, against the node it sits on.
pub open spec fn reason_error(r: Reason) -> Seq<Seq<char>> {
    reason_messages(r.spec_kind(), r.spec_span(), kind_message(r.spec_kind()))
}

/// The errors a list of reasons renders to, one per reason.
pub open spec fn reasons_errors(rs: Seq<Reason>) -> Seq<Seq<Seq<char>>> {
    rs.map_values(|r: Reason| reason_error(r))
}

/// Where the error one reason renders to points, rendered against `node`.
pub open spec fn reason_placement(r: Reason, node: TokenStream) -> Seq<ErrorAnchor> {
    reason_anchors(r.spec_kind(), r.spec_span(), node)
}

/// Where the errors a list of reasons renders to point, each rendered against `node`.
pub open spec fn reasons_placements(rs: Seq<Reason>, node: TokenStream) -> Seq<Seq<ErrorAnchor>> {
    rs.map_values(|r: Reason| reason_placement(r, node))
}

impl ReasonKind {
    /// The default wording for this kind of reason.
    pub fn message(&self) -> (r: String)
        ensures
            r@ == kind_message(*self),
    {
        match self {
            ReasonKind::WrongShape => "written in the wrong shape".to_string(),
            ReasonKind::UnknownKey => "not a key this node accepts".to_string(),
            ReasonKind::Missing => "required, and not written".to_string(),
            ReasonKind::Duplicate => "written more than once".to_string(),
            ReasonKind::Ambiguous => "ambiguous - qualify it".to_string(),
            ReasonKind::Internal(error) => {
                let mut out = "internal: ".to_string();
                let text = error_text(error);
                out.append(text.as_str());
                out
            },
            ReasonKind::Syntax(error) => error_text(error),
            ReasonKind::Custom(message) => message.clone(),
        }
    }
}

impl Reason {
    /// The default wording for this reason.
    pub fn message(&self) -> (r: String)
        ensures
            r@ == kind_message(self.spec_kind()),
    {
        self.kind().message()
    }
}

/// A node an extraction was read from, re-emitted so a reason can be spanned against all of it.
pub trait SourceNode {
    /// The tokens this node re-emits as. Unless an implementation says what they are, nothing is
    /// known of them.
    open spec fn spec_node_tokens(&self) -> TokenStream {
        arbitrary()
    }

    fn node_tokens(&self) -> (r: TokenStream)
        ensures
            r == self.spec_node_tokens(),
    ;
}

impl SourceNode for TokenStream {
    open spec fn spec_node_tokens(&self) -> TokenStream {
        *self
    }

    fn node_tokens(&self) -> (r: TokenStream) {
        tokens_clone(self)
    }
}

impl<'a, S: SourceNode> SourceNode for &'a S {
    /// The tokens of the node a reference points at.
    open spec fn spec_node_tokens(&self) -> TokenStream {
        (**self).spec_node_tokens()
    }

    /// The node a reference points at, re-emitted.
    fn node_tokens(&self) -> (r: TokenStream) {
        (**self).node_tokens()
    }
}

/// Say where a node's children are, so the walk can reach them.
pub trait Diagnose {
    /// The errors this tree renders to, one entry per error, in source order. Unless an
    /// implementation says what they are, nothing is known of them.
    open spec fn diagnostics(&self) -> Seq<Seq<Seq<char>>> {
        arbitrary()
    }

    /// Where each of those errors points, one entry per error, in the same order. Unless an
    /// implementation says what they are, nothing is known of them.
    open spec fn placements(&self) -> Seq<Seq<ErrorAnchor>> {
        arbitrary()
    }

    /// Append this tree's errors to `out`.
    fn diagnose(&self, out: &mut Vec<syn::Error>)
        ensures
            errors_view(final(out)@) == errors_view(old(out)@) + self.diagnostics(),
            anchors_view(final(out)@) == anchors_view(old(out)@) + self.placements(),
    ;

    /// Walk this tree and collect every reason in it, in source order.
    fn render(&self) -> (r: Vec<syn::Error>)
        ensures
            errors_view(r@) == self.diagnostics(),
            anchors_view(r@) == self.placements(),
    {
        let mut out: Vec<syn::Error> = Vec::new();
        proof {
            assert(errors_view(out@) =~= Seq::<Seq<Seq<char>>>::empty());
            assert(anchors_view(out@) =~= Seq::<Seq<ErrorAnchor>>::empty());
        }
        self.diagnose(&mut out);
        proof {
            assert(errors_view(out@) =~= self.diagnostics());
            assert(anchors_view(out@) =~= self.placements());
        }
        out
    }

    /// The same walk, folded into one error; `None` means a clean tree.
    fn rendered(&self) -> (r: Option<syn::Error>)
        ensures
            r is None <==> self.diagnostics().len() == 0,
            r matches Some(e) ==> error_messages(e) == flatten(self.diagnostics()),
            r matches Some(e) ==> error_anchors(e) == flatten(self.placements()),
    {
        let mut all = self.render();
        let ghost d = errors_view(all@);
        let ghost da = anchors_view(all@);
        if all.len() == 0 {
            return None;
        }
        let ghost first = all@;
        let mut acc = all.remove(0);
        let mut i: usize = 1;
        proof {
            assert(errors_view(first)[0] == error_messages(acc));
            assert(d.take(1).drop_last() =~= Seq::<Seq<Seq<char>>>::empty());
            assert(d.take(1).last() == d[0]);
            assert(flatten(d.take(1)) =~= flatten(d.take(1).drop_last()) + d.take(1).last());
            assert(errors_view(all@) =~= d.skip(1));
            assert(error_messages(acc) =~= flatten(d.take(1)));
            assert(anchors_view(first)[0] == error_anchors(acc));
            assert(da.take(1).drop_last() =~= Seq::<Seq<ErrorAnchor>>::empty());
            assert(da.take(1).last() == da[0]);
            assert(flatten(da.take(1)) =~= flatten(da.take(1).drop_last()) + da.take(1).last());
            assert(anchors_view(all@) =~= da.skip(1));
            assert(error_anchors(acc) =~= flatten(da.take(1)));
        }
        while all.len() > 0
            invariant
                1 <= i <= d.len(),
                d.len() == i + all@.len(),
                d.len() <= usize::MAX,
                errors_view(all@) == d.skip(i as int),
                error_messages(acc) == flatten(d.take(i as int)),
                da.len() == d.len(),
                anchors_view(all@) == da.skip(i as int),
                error_anchors(acc) == flatten(da.take(i as int)),
            decreases all@.len(),
        {
            let ghost before = all@;
            let next = all.remove(0);
            proof {
                assert(errors_view(before)[0] == error_messages(next));
                assert(errors_view(before) == d.skip(i as int));
                assert(errors_view(before).len() == before.len());
                assert(i < d.len());
                assert(d.skip(i as int)[0] == d[i as int]);
                assert(error_messages(next) == d[i as int]);
                assert(d.take(i + 1).drop_last() =~= d.take(i as int));
                assert(d.take(i + 1).last() == d[i as int]);
                assert(anchors_view(before)[0] == error_anchors(next));
                assert(anchors_view(before) == da.skip(i as int));
                assert(da.skip(i as int)[0] == da[i as int]);
                assert(error_anchors(next) == da[i as int]);
                assert(da.take(i + 1).drop_last() =~= da.take(i as int));
                assert(da.take(i + 1).last() == da[i as int]);
            }
            error_combine(&mut acc, next);
            proof {
                assert(all@ =~= before.skip(1));
                assert(errors_view(all@) =~= errors_view(before).skip(1));
                assert(d.skip(i as int).skip(1) =~= d.skip(i + 1));
                assert(anchors_view(all@) =~= anchors_view(before).skip(1));
                assert(da.skip(i as int).skip(1) =~= da.skip(i + 1));
            }
            i = i + 1;
        }
        proof {
            assert(d.take(d.len() as int) =~= d);
            assert(da.take(da.len() as int) =~= da);
        }
        Some(acc)
    }
}

/// The errors of each element in turn.
pub open spec fn each_diagnostics<T: Diagnose>(s: Seq<T>) -> Seq<Seq<Seq<char>>>
    decreases s.len(),
{
    if s.len() == 0 {
        Seq::empty()
    } else {
        each_diagnostics(s.drop_last()) + s.last().diagnostics()
    }
}

/// Where the errors of each element point, in turn.
pub open spec fn each_placements<T: Diagnose>(s: Seq<T>) -> Seq<Seq<ErrorAnchor>>
    decreases s.len(),
{
    if s.len() == 0 {
        Seq::empty()
    } else {
        each_placements(s.drop_last()) + s.last().placements()
    }
}

impl<T: Diagnose, I: SourceNode> Diagnose for Extracted<T, I> {
    /// This node's own reasons first, spanned against it, then its value's children.
    open spec fn diagnostics(&self) -> Seq<Seq<Seq<char>>> {
        reasons_errors(self.spec_extraction().reasons@) + match self.spec_extraction().value {
            Some(v) => v.diagnostics(),
            None => Seq::empty(),
        }
    }

    /// Each own reason at its own span, or over this node; then where its value's children point.
    open spec fn placements(&self) -> Seq<Seq<ErrorAnchor>> {
        reasons_placements(self.spec_extraction().reasons@, self.spec_source().spec_node_tokens())
            + match self.spec_extraction().value {
            Some(v) => v.placements(),
            None => Seq::empty(),
        }
    }

    fn diagnose(&self, out: &mut Vec<syn::Error>) {
        let node = self.source().node_tokens();
        let reasons = self.reasons();
        let ghost start = errors_view(out@);
        let ghost start_at = anchors_view(out@);
        let mut i: usize = 0;
        while i < reasons.len()
            invariant
                i <= reasons@.len(),
                reasons@ == self.spec_extraction().reasons@,
                node == self.spec_source().spec_node_tokens(),
                errors_view(out@) == start + reasons_errors(reasons@.take(i as int)),
                anchors_view(out@) == start_at + reasons_placements(reasons@.take(i as int), node),
            decreases reasons@.len() - i,
        {
            let reason = &reasons[i];
            let message = reason.message();
            let error = reason.to_error(&node, message.as_str());
            let ghost before = out@;
            proof {
                assert(error_messages(error) == reason_error(reasons@[i as int]));
                assert(error_anchors(error) == reason_placement(reasons@[i as int], node));
            }
            out.push(error);
            proof {
                assert(errors_view(out@) =~= errors_view(before).push(error_messages(error)));
                assert(reasons_errors(reasons@.take(i + 1)) =~= reasons_errors(
                    reasons@.take(i as int),
                ).push(reason_error(reasons@[i as int])));
                assert(errors_view(out@) =~= start + reasons_errors(reasons@.take(i + 1)));
                assert(anchors_view(out@) =~= anchors_view(before).push(error_anchors(error)));
                assert(reasons_placements(reasons@.take(i + 1), node) =~= reasons_placements(
                    reasons@.take(i as int),
                    node,
                ).push(reason_placement(reasons@[i as int], node)));
                assert(anchors_view(out@) =~= start_at + reasons_placements(reasons@.take(i + 1), node));
            }
            i = i + 1;
        }
        proof {
            assert(reasons@.take(reasons@.len() as int) =~= reasons@);
        }
        match self.value() {
            Some(value) => value.diagnose(out),
            None => {},
        }
        proof {
            assert(errors_view(out@) =~= start + self.diagnostics());
            assert(anchors_view(out@) =~= start_at + self.placements());
        }
    }
}

impl<T: Diagnose> Diagnose for Vec<T> {
    /// Every child's errors, in order.
    open spec fn diagnostics(&self) -> Seq<Seq<Seq<char>>> {
        each_diagnostics(self@)
    }

    /// Where every child's errors point, in order.
    open spec fn placements(&self) -> Seq<Seq<ErrorAnchor>> {
        each_placements(self@)
    }

    fn diagnose(&self, out: &mut Vec<syn::Error>) {
        let ghost start = errors_view(out@);
        let ghost start_at = anchors_view(out@);
        let mut i: usize = 0;
        while i < self.len()
            invariant
                i <= self@.len(),
                errors_view(out@) == start + each_diagnostics(self@.take(i as int)),
                anchors_view(out@) == start_at + each_placements(self@.take(i as int)),
            decreases self@.len() - i,
        {
            self[i].diagnose(out);
            proof {
                assert(self@.take(i + 1).drop_last() =~= self@.take(i as int));
                assert(errors_view(out@) =~= start + each_diagnostics(self@.take(i + 1)));
                assert(anchors_view(out@) =~= start_at + each_placements(self@.take(i + 1)));
            }
            i = i + 1;
        }
        proof {
            assert(self@.take(self@.len() as int) =~= self@);
        }
    }
}

impl<T: Diagnose> Diagnose for Option<T> {
    /// The child's errors, if there is a child.
    open spec fn diagnostics(&self) -> Seq<Seq<Seq<char>>> {
        match self {
            Some(c) => c.diagnostics(),
            None => Seq::empty(),
        }
    }

    /// Where the child's errors point, if there is a child.
    open spec fn placements(&self) -> Seq<Seq<ErrorAnchor>> {
        match self {
            Some(c) => c.placements(),
            None => Seq::empty(),
        }
    }

    fn diagnose(&self, out: &mut Vec<syn::Error>) {
        match self {
            Some(child) => child.diagnose(out),
            None => {
                proof {
                    assert(errors_view(out@) =~= errors_view(old(out)@) + self.diagnostics());
                    assert(anchors_view(out@) =~= anchors_view(old(out)@) + self.placements());
                }
            },
        }
    }
}

} // verus!
