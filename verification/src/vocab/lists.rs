//! What a list-bodied grammar node checks once its walk is done: every required key was written.

use vstd::prelude::*;
use vstd::string::*;
use proc_macro2::TokenStream;
use crate::text::str_eq;
use crate::tokens::{complaint, error_anchors, error_messages, error_new_spanned, Complaint, ErrorAnchor};
use crate::vocab::leaves::MetaModel;
use crate::vocab::walk::{walk_reading, walked, Errors, Keys, Written};

verus! {

broadcast use vstd::string::group_string_axioms;

/// One declared field of a list-bodied node: its key, and whether its type makes it required.
pub struct FieldDecl {
    pub key: &'static str,
    pub required: bool,
}

/// The complaint about one required key that was not written.
pub open spec fn missing_message(key: Seq<char>) -> Seq<char> {
    "missing required key `"@ + key + "`"@
}

/// The complaints about every required key that was not written, in declaration order.
pub open spec fn missing_messages(fields: Seq<FieldDecl>, written: Seq<bool>) -> Seq<Seq<char>>
    decreases fields.len(),
{
    if fields.len() == 0 {
        Seq::empty()
    } else {
        let rest = missing_messages(fields.drop_last(), written);
        let i = fields.len() - 1;
        if fields[i].required && !written[i] {
            rest.push(missing_message(fields[i].key@))
        } else {
            rest
        }
    }
}

/// Every missing required key, each reported - never just the first.
///
/// `written[i]` says whether the walk read field `i`. Requiredness is written in the field's type,
/// which the walk cannot see, so this check is the reader's and not the walk's.
pub fn missing_required(fields: &[FieldDecl], written: &[bool]) -> (r: Vec<String>)
    requires
        written@.len() == fields@.len(),
    ensures
        r@.map_values(|s: String| s@) == missing_messages(fields@, written@),
{
    let mut out: Vec<String> = Vec::new();
    let mut i: usize = 0;
    while i < fields.len()
        invariant
            i <= fields@.len(),
            written@.len() == fields@.len(),
            out@.map_values(|s: String| s@) == missing_messages(fields@.take(i as int), written@),
        decreases fields@.len() - i,
    {
        let ghost before = out@;
        proof {
            assert(fields@.take(i + 1).drop_last() =~= fields@.take(i as int));
        }
        if fields[i].required && !written[i] {
            let mut message = "missing required key `".to_string();
            message.append(fields[i].key);
            message.append("`");
            out.push(message);
            proof {
                assert(out@.map_values(|s: String| s@) =~= before.map_values(|s: String| s@).push(
                    message@,
                ));
            }
        }
        i = i + 1;
    }
    proof {
        assert(fields@.take(fields@.len() as int) =~= fields@);
    }
    out
}

/// Whether each declared field was read: some name read without complaint has its key.
pub open spec fn written_flags<K: Keys>(fields: Seq<FieldDecl>, read: Seq<K>) -> Seq<bool> {
    Seq::new(
        fields.len(),
        |i: int| exists|k: K| #[trigger] read.contains(k) && k.spec_canonical() == fields[i].key@,
    )
}

/// What a walk's result adds to a reader's report: its complaint, if it failed.
pub open spec fn walk_part(w: Result<(), syn::Error>) -> Complaint {
    match w {
        Err(x) => complaint(x),
        Ok(()) => Complaint { messages: Seq::empty(), anchors: Seq::empty() },
    }
}

/// Read a list-bodied node: walk `body`, handing each recognised element to `accept`, then report
/// every required field that was not read, over `node`. `Ok` exactly when the walk went through
/// and every required field was read; otherwise the walk's complaints come first and the missing
/// keys after them, in declaration order - nothing stops at the first.
pub fn read_list<K: Keys<Written = str>, F: FnMut(Written<'_, K>, &MetaModel) -> Result<(), syn::Error>>(
    body: &TokenStream,
    node: &TokenStream,
    fields: &[FieldDecl],
    accept: F,
) -> (r: Result<(), syn::Error>)
    requires
        forall|w: Written<K>, m: &MetaModel| call_requires(accept, (w, m)),
    ensures
        exists|w: Result<(), syn::Error>, read: Seq<K>|
            #![trigger walked(*body, accept, w, read)]
            walked(*body, accept, w, read) && match r {
                Ok(()) => w is Ok && missing_messages(fields@, written_flags(fields@, read)).len() == 0,
                Err(e) => !(w is Ok && missing_messages(fields@, written_flags(fields@, read)).len() == 0)
                    && error_messages(e) == walk_part(w).messages + missing_messages(
                    fields@,
                    written_flags(fields@, read),
                ) && error_anchors(e) == walk_part(w).anchors + Seq::new(
                    missing_messages(fields@, written_flags(fields@, read)).len(),
                    |i: int| ErrorAnchor::Over(*node),
                ),
            },
{
    let (walk, read) = walk_reading(body, accept);
    let ghost w = walk;
    let mut written: Vec<bool> = Vec::new();
    let mut i: usize = 0;
    while i < fields.len()
        invariant
            i <= fields@.len(),
            written@.len() == i,
            forall|j: int| 0 <= j < i ==> written@[j] == written_flags(fields@, read@)[j],
        decreases fields@.len() - i,
    {
        let mut found = false;
        let mut m: usize = 0;
        while m < read.len()
            invariant
                m <= read@.len(),
                i < fields@.len(),
                found == exists|j: int| 0 <= j < m && (#[trigger] read@[j]).spec_canonical() == fields@[i as int].key@,
            decreases read@.len() - m,
        {
            if str_eq(read[m].canonical(), fields[i].key) {
                found = true;
            }
            m = m + 1;
        }
        proof {
            if found {
                let j = choose|j: int| 0 <= j < m && (#[trigger] read@[j]).spec_canonical() == fields@[i as int].key@;
                assert(read@.contains(read@[j]));
            }
            if exists|k: K| #[trigger] read@.contains(k) && k.spec_canonical() == fields@[i as int].key@ {
                let k = choose|k: K| #[trigger] read@.contains(k) && k.spec_canonical() == fields@[i as int].key@;
                let j = choose|j: int| 0 <= j < read@.len() && read@[j] == k;
                assert((read@[j]).spec_canonical() == fields@[i as int].key@);
            }
        }
        written.push(found);
        i = i + 1;
    }
    proof {
        assert(written@ =~= written_flags(fields@, read@));
    }
    let missing = missing_required(fields, written.as_slice());
    let ghost wanted = missing_messages(fields@, written_flags(fields@, read@));
    let mut errors = Errors::new();
    let _ = errors.absorb(walk);
    proof {
        assert(errors.messages() =~= walk_part(w).messages);
        assert(errors.anchors() =~= walk_part(w).anchors);
        assert(errors.has_errors() == (w is Err));
    }
    let mut n: usize = 0;
    while n < missing.len()
        invariant
            n <= missing@.len(),
            missing@.map_values(|s: String| s@) == wanted,
            errors.messages() == walk_part(w).messages + wanted.take(n as int),
            errors.anchors() == walk_part(w).anchors + Seq::new(n as nat, |i: int| ErrorAnchor::Over(*node)),
            errors.has_errors() == (w is Err || n > 0),
        decreases missing@.len() - n,
    {
        let ghost before_m = errors.messages();
        let ghost before_a = errors.anchors();
        errors.push(error_new_spanned(node, missing[n].as_str()));
        proof {
            assert(wanted[n as int] == missing@[n as int]@);
            assert(wanted.take(n + 1) =~= wanted.take(n as int).push(wanted[n as int]));
            assert(errors.messages() =~= walk_part(w).messages + wanted.take(n + 1));
            assert(Seq::new((n + 1) as nat, |i: int| ErrorAnchor::Over(*node)) =~= Seq::new(
                n as nat,
                |i: int| ErrorAnchor::Over(*node),
            ).push(ErrorAnchor::Over(*node)));
            assert(errors.anchors() =~= walk_part(w).anchors + Seq::new(
                (n + 1) as nat,
                |i: int| ErrorAnchor::Over(*node),
            ));
        }
        n = n + 1;
    }
    proof {
        assert(wanted.take(wanted.len() as int) =~= wanted);
        assert(missing@.len() == wanted.len());
    }
    errors.finish()
}

} // verus!
