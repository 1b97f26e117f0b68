//! The processing stage: making an extraction mean something.

use vstd::prelude::*;
use crate::extractor::Extraction;

verus! {

/// Turn an extraction into whatever the generator wants to consume. It validates nothing: by the
/// time an extraction arrives its reasons are already recorded.
pub trait Processor: Sized {
    /// An extractor's `Output`, whole.
    type Input;

    /// What the generator receives.
    type Output;

    /// Whether `out` is what this processor makes of `input`. Unless an implementation says more,
    /// any output is possible.
    open spec fn processes(input: Self::Input, out: Extraction<Self::Output>) -> bool {
        true
    }

    fn process(input: Self::Input) -> (out: Extraction<Self::Output>)
        ensures
            Self::processes(input, out),
    ;

    /// Process many children, one result each, in order - how a parent collects before combining.
    fn process_each(inputs: Vec<Self::Input>) -> (r: Vec<Extraction<Self::Output>>)
        ensures
            r@.len() == inputs@.len(),
            forall|i: int| 0 <= i < inputs@.len() ==> Self::processes(#[trigger] inputs@[i], r@[i]),
    {
        let ghost all = inputs@;
        let mut out: Vec<Extraction<Self::Output>> = Vec::new();
        let mut rest = inputs;
        while rest.len() > 0
            invariant
                out@.len() <= all.len(),
                rest@ == all.skip(out@.len() as int),
                forall|i: int| 0 <= i < out@.len() ==> Self::processes(#[trigger] all[i], out@[i]),
            decreases rest@.len(),
        {
            let input = rest.remove(0);
            proof {
                assert(input == all[out@.len() as int]);
            }
            out.push(Self::process(input));
            proof {
                assert(rest@ =~= all.skip(out@.len() as int));
            }
        }
        out
    }

    /// A child that may not be there. Absence is not a failure.
    fn process_maybe(input: Option<Self::Input>) -> (r: Option<Extraction<Self::Output>>)
        ensures
            match input {
                Some(i) => r matches Some(o) && Self::processes(i, o),
                None => r is None,
            },
    {
        match input {
            Some(i) => Some(Self::process(i)),
            None => None,
        }
    }
}

/// Process many children. Mirrors `extract_each`.
pub fn process_each<P: Processor>(inputs: Vec<P::Input>) -> (r: Vec<Extraction<P::Output>>)
    ensures
        r@.len() == inputs@.len(),
        forall|i: int| 0 <= i < inputs@.len() ==> P::processes(#[trigger] inputs@[i], r@[i]),
{
    P::process_each(inputs)
}

/// A child that may not be there.
pub fn process_maybe<P: Processor>(input: Option<P::Input>) -> (r: Option<Extraction<P::Output>>)
    ensures
        match input {
            Some(i) => r matches Some(o) && P::processes(i, o),
            None => r is None,
        },
{
    P::process_maybe(input)
}

} // verus!
