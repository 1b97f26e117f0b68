//! The reflection table each grammar node emits, and the one thing diagnostics render against.

use vstd::prelude::*;

verus! {

/// How many times a child may be written, read off the field's type.
#[derive(Clone, Copy, PartialEq, Eq, Debug, Structural)]
pub enum Arity {
    /// `T` - must be written exactly once.
    Required,
    /// `Option<T>` - absence is not a failure.
    Optional,
    /// `Vec<T>` - any number, including none.
    Repeated,
}

} // verus!

use crate::meta::ShapeKind;
use crate::text::{contains_spelling, quote_all, quoted_list, str_eq, views};

verus! {

/// One child of a grammar node.
#[derive(Clone, Copy, Debug)]
pub struct Child {
    /// The canonical spelling. Aliases are accepted on the way in and never produced.
    pub key: &'static str,
    /// Extra accepted spellings, canonical excluded.
    pub aliases: &'static [&'static str],
    pub arity: Arity,
    /// The shapes this child may be written in. Empty means every shape its type implements.
    pub shapes: &'static [ShapeKind],
}

/// A grammar node, as the framework can see it.
#[derive(Clone, Copy, Debug)]
pub struct Node {
    pub name: &'static str,
    pub children: &'static [Child],
}

/// Every accepted spelling of one child, canonical first.
pub open spec fn child_spellings(c: Child) -> Seq<&'static str> {
    seq![c.key] + c.aliases@
}

/// Every accepted spelling of every child, in declaration order.
pub open spec fn all_spellings(cs: Seq<Child>) -> Seq<&'static str>
    decreases cs.len(),
{
    if cs.len() == 0 {
        Seq::empty()
    } else {
        all_spellings(cs.drop_last()) + child_spellings(cs.last())
    }
}

/// Whether a child is written under `spelling`, canonically or by an alias.
pub open spec fn accepts(c: Child, spelling: Seq<char>) -> bool {
    c.key@ == spelling || exists|k: int| 0 <= k < c.aliases@.len() && c.aliases@[k]@ == spelling
}

/// Whether `key` is among the written spellings.
pub open spec fn written_contains(written: Seq<&str>, key: Seq<char>) -> bool {
    exists|k: int| 0 <= k < written.len() && written[k]@ == key
}

/// The children that must be written and were not, in declaration order.
pub open spec fn missing_children(cs: Seq<Child>, written: Seq<&str>) -> Seq<Child>
    decreases cs.len(),
{
    if cs.len() == 0 {
        Seq::empty()
    } else {
        let rest = missing_children(cs.drop_last(), written);
        let c = cs.last();
        if c.arity == Arity::Required && !written_contains(written, c.key@) {
            rest.push(c)
        } else {
            rest
        }
    }
}

/// Exactly the required children whose canonical key was not written are missing: an optional
/// child (`Option<T>`) or a repeated one (`Vec<T>`, any number including none) is never missing,
/// and every required child left unwritten is reported, once, in declaration order.
pub proof fn lemma_missing_is_the_unwritten_required(cs: Seq<Child>, written: Seq<&str>)
    ensures
        forall|i: int|
            0 <= i < missing_children(cs, written).len() ==> (#[trigger] missing_children(
                cs,
                written,
            )[i]).arity == Arity::Required && !written_contains(
                written,
                missing_children(cs, written)[i].key@,
            ) && cs.contains(missing_children(cs, written)[i]),
        forall|j: int|
            0 <= j < cs.len() && (#[trigger] cs[j]).arity == Arity::Required && !written_contains(
                written,
                cs[j].key@,
            ) ==> missing_children(cs, written).contains(cs[j]),
        missing_children(cs, written) == cs.filter(
            |c: Child| c.arity == Arity::Required && !written_contains(written, c.key@),
        ),
    decreases cs.len(),
{
    reveal(Seq::filter);
    if cs.len() > 0 {
        let rest = cs.drop_last();
        lemma_missing_is_the_unwritten_required(rest, written);
        let m = missing_children(rest, written);
        let r = missing_children(cs, written);
        let last = cs.last();
        assert forall|i: int| 0 <= i < r.len() implies (#[trigger] r[i]).arity == Arity::Required
            && !written_contains(written, r[i].key@) && cs.contains(r[i]) by {
            if i < m.len() {
                assert(r[i] == m[i]);
                assert(rest.contains(m[i]));
                let k = choose|k: int| 0 <= k < rest.len() && rest[k] == m[i];
                assert(cs[k] == rest[k]);
            } else {
                assert(r[i] == last);
                assert(cs[cs.len() - 1] == last);
            }
        }
        assert forall|j: int|
            0 <= j < cs.len() && (#[trigger] cs[j]).arity == Arity::Required && !written_contains(
                written,
                cs[j].key@,
            ) implies r.contains(cs[j]) by {
            if j < rest.len() {
                assert(rest[j] == cs[j]);
                assert(m.contains(rest[j]));
                let k = choose|k: int| 0 <= k < m.len() && m[k] == rest[j];
                assert(r[k] == m[k]);
            } else {
                assert(cs[j] == last);
                assert(r[m.len() as int] == last);
            }
        }
    }
}

impl Node {
    /// Every accepted spelling of every child, canonical and alias alike.
    pub fn spellings(&self) -> (r: Vec<&'static str>)
        ensures
            r@ == all_spellings(self.children@),
    {
        let mut out: Vec<&'static str> = Vec::new();
        let mut i: usize = 0;
        while i < self.children.len()
            invariant
                i <= self.children@.len(),
                out@ == all_spellings(self.children@.take(i as int)),
            decreases self.children@.len() - i,
        {
            let child = self.children[i];
            let ghost before = out@;
            out.push(child.key);
            let mut k: usize = 0;
            while k < child.aliases.len()
                invariant
                    k <= child.aliases@.len(),
                    out@ == before + seq![child.key] + child.aliases@.take(k as int),
                decreases child.aliases@.len() - k,
            {
                out.push(child.aliases[k]);
                proof {
                    assert(child.aliases@.take(k + 1) =~= child.aliases@.take(k as int).push(
                        child.aliases@[k as int],
                    ));
                }
                k = k + 1;
            }
            proof {
                assert(child.aliases@.take(child.aliases@.len() as int) =~= child.aliases@);
                assert(self.children@.take(i + 1).drop_last() =~= self.children@.take(i as int));
                assert(out@ =~= before + child_spellings(child));
            }
            i = i + 1;
        }
        proof {
            assert(self.children@.take(self.children@.len() as int) =~= self.children@);
        }
        out
    }

    /// The did-you-mean list, in `lookahead1`'s shape.
    pub fn candidates(&self) -> (r: String)
        ensures
            r@ == quoted_list(views(all_spellings(self.children@))),
    {
        let spellings = self.spellings();
        quote_all(spellings.as_slice())
    }

    /// The child written under a spelling, canonical or alias: the first that accepts it.
    pub fn child(&self, spelling: &str) -> (r: Option<&Child>)
        ensures
            match r {
                Some(c) => exists|i: int|
                    0 <= i < self.children@.len() && *c == self.children@[i] && accepts(
                        self.children@[i],
                        spelling@,
                    ) && forall|j: int| 0 <= j < i ==> !accepts(self.children@[j], spelling@),
                None => forall|i: int|
                    0 <= i < self.children@.len() ==> !accepts(self.children@[i], spelling@),
            },
    {
        let mut i: usize = 0;
        while i < self.children.len()
            invariant
                i <= self.children@.len(),
                forall|j: int| 0 <= j < i ==> !accepts(self.children@[j], spelling@),
            decreases self.children@.len() - i,
        {
            let child = &self.children[i];
            if str_eq(child.key, spelling) || contains_spelling(child.aliases, spelling) {
                return Some(child);
            }
            i = i + 1;
        }
        None
    }

    /// Children that must be written and were not.
    pub fn missing(&self, written: &[&str]) -> (r: Vec<Child>)
        ensures
            r@ == missing_children(self.children@, written@),
            forall|i: int|
                0 <= i < r@.len() ==> (#[trigger] r@[i]).arity == Arity::Required && !written_contains(
                    written@,
                    r@[i].key@,
                ) && self.children@.contains(r@[i]),
            forall|j: int|
                0 <= j < self.children@.len() && (#[trigger] self.children@[j]).arity == Arity::Required
                    && !written_contains(written@, self.children@[j].key@) ==> r@.contains(
                    self.children@[j],
                ),
    {
        proof {
            lemma_missing_is_the_unwritten_required(self.children@, written@);
        }
        let mut out: Vec<Child> = Vec::new();
        let mut i: usize = 0;
        while i < self.children.len()
            invariant
                i <= self.children@.len(),
                out@ == missing_children(self.children@.take(i as int), written@),
            decreases self.children@.len() - i,
        {
            let child = self.children[i];
            proof {
                assert(self.children@.take(i + 1).drop_last() =~= self.children@.take(i as int));
            }
            if child.arity == Arity::Required && !contains_spelling(written, child.key) {
                out.push(child);
            }
            i = i + 1;
        }
        proof {
            assert(self.children@.take(self.children@.len() as int) =~= self.children@);
        }
        out
    }
}

/// A type that can describe itself.
pub trait Described {
    /// The reflection table of this grammar type.
    fn node() -> Node;
}

} // verus!
