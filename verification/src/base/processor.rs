//! The first pipeline's processors: narrowing each extraction into what generation consumes.
//!
//! A processor validates nothing and transforms only: every reason arrives already recorded, and
//! each one is carried upward - a parent keeps its own reasons first, then every child's, in
//! order, whether or not the child produced a value.

use vstd::prelude::*;
use proc_macro2::TokenStream;
use crate::base::{
    AttributeNode, FieldExtraction, FieldNode, ItemNode, StructExtraction,
    SyntaxFieldAttributeExtraction, SyntaxFieldAttributeKind,
};
use crate::extractor::{Extracted, Extraction, Reason};
use crate::processor::Processor;
use crate::render::{each_diagnostics, reasons_errors, Diagnose};
use crate::vocab::names::SyntaxHelper;

verus! {

/// What generation consumes per helper attribute: which helper, and its argument still unread.
pub struct ProcessedAttribute<'ast> {
    pub helper: SyntaxHelper,
    pub tokens: &'ast TokenStream,
}

/// What generation consumes per field.
pub struct ProcessedField<'ast> {
    pub field: &'ast FieldNode,
    pub attrs: Vec<ProcessedAttribute<'ast>>,
}

/// What generation consumes for a whole struct.
pub struct ProcessedStruct<'ast> {
    /// The item being derived on - what generation needs to name the impl.
    pub item: &'ast ItemNode,
    pub fields: Vec<ProcessedField<'ast>>,
}

/// Every reason of every extraction in turn.
pub open spec fn all_reasons<T, I>(xs: Seq<Extracted<T, I>>) -> Seq<Reason>
    decreases xs.len(),
{
    if xs.len() == 0 {
        Seq::empty()
    } else {
        all_reasons(xs.drop_last()) + xs.last().spec_extraction().reasons@
    }
}

/// What one attribute narrows to, when it produced a value.
pub open spec fn attribute_output<'ast>(
    x: Extracted<SyntaxFieldAttributeExtraction<'ast>, &'ast AttributeNode>,
) -> Option<ProcessedAttribute<'ast>> {
    match x.spec_extraction().value {
        Some(v) => Some(ProcessedAttribute { helper: v.spec_helper(), tokens: v.spec_tokens() }),
        None => None,
    }
}

/// What the attributes that produced a value narrow to, in order.
pub open spec fn attributes_output<'ast>(
    xs: Seq<Extracted<SyntaxFieldAttributeExtraction<'ast>, &'ast AttributeNode>>,
) -> Seq<ProcessedAttribute<'ast>>
    decreases xs.len(),
{
    if xs.len() == 0 {
        Seq::empty()
    } else {
        attributes_output(xs.drop_last()) + match attribute_output(xs.last()) {
            Some(a) => seq![a],
            None => Seq::empty(),
        }
    }
}

/// A processed field, as a plain value.
pub open spec fn field_view<'ast>(f: ProcessedField<'ast>) -> (&'ast FieldNode, Seq<ProcessedAttribute<'ast>>) {
    (f.field, f.attrs@)
}

/// Every reason a field carries upward: its own, then its attributes'.
pub open spec fn field_reasons<'ast>(x: Extracted<FieldExtraction<'ast>, &'ast FieldNode>) -> Seq<Reason> {
    x.spec_extraction().reasons@ + match x.spec_extraction().value {
        Some(v) => all_reasons(v.attrs@),
        None => Seq::empty(),
    }
}

/// What a field narrows to, when it produced a value.
pub open spec fn field_output<'ast>(x: Extracted<FieldExtraction<'ast>, &'ast FieldNode>) -> Option<
    (&'ast FieldNode, Seq<ProcessedAttribute<'ast>>),
> {
    match x.spec_extraction().value {
        Some(v) => Some((*x.spec_source(), attributes_output(v.attrs@))),
        None => None,
    }
}

/// Every reason the fields carry upward, field by field.
pub open spec fn fields_reasons<'ast>(xs: Seq<Extracted<FieldExtraction<'ast>, &'ast FieldNode>>) -> Seq<
    Reason,
>
    decreases xs.len(),
{
    if xs.len() == 0 {
        Seq::empty()
    } else {
        fields_reasons(xs.drop_last()) + field_reasons(xs.last())
    }
}

/// What the fields that produced a value narrow to, in order.
pub open spec fn fields_output<'ast>(xs: Seq<Extracted<FieldExtraction<'ast>, &'ast FieldNode>>) -> Seq<
    (&'ast FieldNode, Seq<ProcessedAttribute<'ast>>),
>
    decreases xs.len(),
{
    if xs.len() == 0 {
        Seq::empty()
    } else {
        fields_output(xs.drop_last()) + match field_output(xs.last()) {
            Some(f) => seq![f],
            None => Seq::empty(),
        }
    }
}

/// Processing an attribute narrows and does not resolve: its reasons pass through unchanged; it
/// has a value exactly when its extraction did, and that value is the helper it names with its
/// argument tokens, still unread.
pub proof fn lemma_attribute_processing_narrows<'ast>(
    input: Extracted<SyntaxFieldAttributeExtraction<'ast>, &'ast AttributeNode>,
    out: Extraction<ProcessedAttribute<'ast>>,
)
    requires
        SyntaxFieldAttributeExtraction::processes(input, out),
    ensures
        out.reasons@ == input.spec_extraction().reasons@,
        out.value is None <==> input.spec_extraction().value is None,
        input.spec_extraction().value matches Some(v) ==> out.value == Some(
            ProcessedAttribute { helper: v.spec_helper(), tokens: v.spec_tokens() },
        ),
{
}

impl<'ast> Processor for SyntaxFieldAttributeExtraction<'ast> {
    type Input = Extracted<Self, &'ast AttributeNode>;

    type Output = ProcessedAttribute<'ast>;

    open spec fn processes(input: Self::Input, out: Extraction<Self::Output>) -> bool {
        out.reasons@ == input.spec_extraction().reasons@ && out.value == attribute_output(input)
    }

    fn process(input: Self::Input) -> (out: Extraction<Self::Output>) {
        let Extraction { value, reasons } = input.into_extraction();
        let value = match value {
            Some(node) => {
                let (helper, tokens) = match node.kind() {
                    SyntaxFieldAttributeKind::Shape(shape) => (SyntaxHelper::Shape, shape.source_tokens()),
                    SyntaxFieldAttributeKind::Alias(alias) => (SyntaxHelper::Alias, alias.source_tokens()),
                };
                Some(ProcessedAttribute { helper, tokens })
            },
            None => None,
        };
        Extraction { value, reasons }
    }
}

impl<'ast> Processor for FieldExtraction<'ast> {
    type Input = Extracted<FieldExtraction<'ast>, &'ast FieldNode>;

    type Output = ProcessedField<'ast>;

    open spec fn processes(input: Self::Input, out: Extraction<Self::Output>) -> bool {
        &&& out.reasons@ == field_reasons(input)
        &&& match field_output(input) {
            Some(f) => out.value matches Some(pf) && field_view(pf) == f,
            None => out.value is None,
        }
    }

    fn process(input: Self::Input) -> (out: Extraction<Self::Output>) {
        let field: &'ast FieldNode = *input.source();
        let ghost x = input;
        let Extraction { value, reasons } = input.into_extraction();
        let mut out: Extraction<ProcessedField<'ast>> = Extraction { value: None, reasons };
        let value = match value {
            Some(v) => v,
            None => {
                return out;
            },
        };
        let ghost children = value.attrs@;
        let mut processed = SyntaxFieldAttributeExtraction::process_each(value.attrs);
        let ghost own = out.reasons@;
        let mut attrs: Vec<ProcessedAttribute<'ast>> = Vec::new();
        let mut k: usize = 0;
        proof {
            assert(children.take(0) =~= Seq::<
                Extracted<SyntaxFieldAttributeExtraction<'ast>, &'ast AttributeNode>,
            >::empty());
            assert(out.reasons@ =~= own + all_reasons(children.take(0)));
        }
        let ghost all_processed = processed@;
        let total = processed.len();
        while processed.len() > 0
            invariant
                k <= children.len(),
                total == children.len(),
                all_processed.len() == children.len(),
                processed@ == all_processed.skip(k as int),
                forall|i: int|
                    0 <= i < children.len() ==> SyntaxFieldAttributeExtraction::processes(
                        #[trigger] children[i],
                        all_processed[i],
                    ),
                out.value is None,
                out.reasons@ == own + all_reasons(children.take(k as int)),
                attrs@ == attributes_output(children.take(k as int)),
            decreases processed@.len(),
        {
            let child = processed.remove(0);
            proof {
                assert(child == all_processed[k as int]);
                assert(SyntaxFieldAttributeExtraction::processes(children[k as int], child));
                assert(children.take(k + 1).drop_last() =~= children.take(k as int));
                assert(children.take(k + 1).last() == children[k as int]);
            }
            let ghost before = out.reasons@;
            let got = out.absorb(child);
            match got {
                Some(a) => attrs.push(a),
                None => {},
            }
            proof {
                assert(out.reasons@ =~= own + all_reasons(children.take(k + 1)));
                assert(attrs@ =~= attributes_output(children.take(k + 1)));
            }
            k = k + 1;
            proof {
                assert(processed@ =~= all_processed.skip(k as int));
            }
        }
        proof {
            assert(children.take(children.len() as int) =~= children);
        }
        out.value = Some(ProcessedField { field, attrs });
        out
    }
}

impl<'ast> Processor for StructExtraction<'ast> {
    type Input = Extracted<StructExtraction<'ast>, &'ast ItemNode>;

    type Output = ProcessedStruct<'ast>;

    /// A failed extraction still carries its reasons upward; a struct narrows to the fields that
    /// produced a value, after every field's reasons.
    open spec fn processes(input: Self::Input, out: Extraction<Self::Output>) -> bool {
        match input.spec_extraction().value {
            None => out.value is None && out.reasons@ == input.spec_extraction().reasons@,
            Some(v) => out.reasons@ == input.spec_extraction().reasons@ + fields_reasons(v.fields@)
                && (out.value matches Some(ps) && ps.item == *input.spec_source()
                && ps.fields@.map_values(|f: ProcessedField<'ast>| field_view(f)) == fields_output(
                v.fields@,
            )),
        }
    }

    fn process(input: Self::Input) -> (out: Extraction<Self::Output>) {
        let item: &'ast ItemNode = *input.source();
        let Extraction { value, reasons } = input.into_extraction();
        let mut out: Extraction<ProcessedStruct<'ast>> = Extraction { value: None, reasons };
        let value = match value {
            Some(v) => v,
            None => {
                return out;
            },
        };
        let ghost children = value.fields@;
        let mut processed = FieldExtraction::process_each(value.fields);
        let ghost own = out.reasons@;
        let ghost all_processed = processed@;
        let mut fields: Vec<ProcessedField<'ast>> = Vec::new();
        let mut k: usize = 0;
        let total = processed.len();
        proof {
            assert(out.reasons@ =~= own + fields_reasons(children.take(0)));
            assert(fields@.map_values(|f: ProcessedField<'ast>| field_view(f)) =~= fields_output(
                children.take(0),
            ));
        }
        while processed.len() > 0
            invariant
                k <= children.len(),
                total == children.len(),
                all_processed.len() == children.len(),
                processed@ == all_processed.skip(k as int),
                forall|i: int|
                    0 <= i < children.len() ==> FieldExtraction::processes(
                        #[trigger] children[i],
                        all_processed[i],
                    ),
                out.value is None,
                out.reasons@ == own + fields_reasons(children.take(k as int)),
                fields@.map_values(|f: ProcessedField<'ast>| field_view(f)) == fields_output(
                    children.take(k as int),
                ),
            decreases processed@.len(),
        {
            let child = processed.remove(0);
            proof {
                assert(child == all_processed[k as int]);
                assert(FieldExtraction::processes(children[k as int], child));
                assert(children.take(k + 1).drop_last() =~= children.take(k as int));
                assert(children.take(k + 1).last() == children[k as int]);
            }
            let ghost before = fields@;
            let got = out.absorb(child);
            match got {
                Some(f) => fields.push(f),
                None => {},
            }
            proof {
                assert(out.reasons@ =~= own + fields_reasons(children.take(k + 1)));
                assert(fields@.map_values(|f: ProcessedField<'ast>| field_view(f)) =~= fields_output(
                    children.take(k + 1),
                ));
            }
            k = k + 1;
            proof {
                assert(processed@ =~= all_processed.skip(k as int));
            }
        }
        proof {
            assert(children.take(children.len() as int) =~= children);
        }
        out.value = Some(ProcessedStruct { item, fields });
        out
    }
}

/// Rendering distributes over concatenation.
proof fn lemma_reasons_errors_concat(a: Seq<Reason>, b: Seq<Reason>)
    ensures
        reasons_errors(a + b) == reasons_errors(a) + reasons_errors(b),
{
    assert(reasons_errors(a + b) =~= reasons_errors(a) + reasons_errors(b));
}

/// The attributes' diagnostics are their reasons, rendered.
proof fn lemma_attributes_diagnostics<'ast>(
    xs: Seq<Extracted<SyntaxFieldAttributeExtraction<'ast>, &'ast AttributeNode>>,
)
    ensures
        each_diagnostics(xs) == reasons_errors(all_reasons(xs)),
    decreases xs.len(),
{
    if xs.len() > 0 {
        lemma_attributes_diagnostics(xs.drop_last());
        lemma_reasons_errors_concat(all_reasons(xs.drop_last()), xs.last().spec_extraction().reasons@);
        let last = xs.last();
        assert(last.diagnostics() == reasons_errors(last.spec_extraction().reasons@) + match last.spec_extraction().value {
            Some(v) => v.diagnostics(),
            None => Seq::<Seq<Seq<char>>>::empty(),
        });
        assert(last.diagnostics() =~= reasons_errors(last.spec_extraction().reasons@));
    }
}

/// The fields' diagnostics are every reason they carry upward, rendered.
proof fn lemma_fields_diagnostics<'ast>(xs: Seq<Extracted<FieldExtraction<'ast>, &'ast FieldNode>>)
    ensures
        each_diagnostics(xs) == reasons_errors(fields_reasons(xs)),
    decreases xs.len(),
{
    if xs.len() > 0 {
        lemma_fields_diagnostics(xs.drop_last());
        let last = xs.last();
        lemma_reasons_errors_concat(fields_reasons(xs.drop_last()), field_reasons(last));
        match last.spec_extraction().value {
            Some(v) => {
                lemma_attributes_diagnostics(v.attrs@);
                lemma_reasons_errors_concat(last.spec_extraction().reasons@, all_reasons(v.attrs@));
            },
            None => {
                assert(field_reasons(last) =~= last.spec_extraction().reasons@);
                assert(last.diagnostics() =~= reasons_errors(last.spec_extraction().reasons@));
            },
        }
    }
}

/// Processing the first pipeline's tree carries upward exactly the complaints the render walk
/// collects from it, in the same order - whether or not each node produced a value.
pub proof fn lemma_processing_keeps_every_reason<'ast>(
    x: Extracted<StructExtraction<'ast>, &'ast ItemNode>,
    p: Extraction<ProcessedStruct<'ast>>,
)
    requires
        StructExtraction::processes(x, p),
    ensures
        reasons_errors(p.reasons@) == x.diagnostics(),
{
    match x.spec_extraction().value {
        Some(v) => {
            lemma_fields_diagnostics(v.fields@);
            lemma_reasons_errors_concat(x.spec_extraction().reasons@, fields_reasons(v.fields@));
        },
        None => {
            assert(x.diagnostics() =~= reasons_errors(x.spec_extraction().reasons@));
        },
    }
}

} // verus!
