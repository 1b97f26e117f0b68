//! The shared spine walk, and the error accumulator that keeps siblings alive.

use vstd::prelude::*;
use vstd::string::*;
use proc_macro2::TokenStream;
use crate::text::{quoted_list, str_eq};
use crate::tokens::{error_anchors, error_combine, ErrorAnchor, error_messages, error_new_spanned};
use crate::tokens::metas_parse;
use crate::vocab::leaves::{key_head, list_elements, metas_view, MetaModel};

verus! {

broadcast use vstd::string::group_string_axioms;

/// An error accumulator: `push` never discards what came before, so a walk can keep going after
/// a bad element and still report every complaint at the end.
pub struct Errors(Option<syn::Error>);

impl Errors {
    /// Every message accumulated so far, in the order pushed.
    pub closed spec fn messages(&self) -> Seq<Seq<char>> {
        match self.0 {
            Some(e) => error_messages(e),
            None => Seq::empty(),
        }
    }

    /// Where each accumulated message points, in the same order.
    pub closed spec fn anchors(&self) -> Seq<ErrorAnchor> {
        match self.0 {
            Some(e) => error_anchors(e),
            None => Seq::empty(),
        }
    }

    /// Whether anything has been pushed.
    pub closed spec fn has_errors(&self) -> bool {
        self.0 is Some
    }

    pub fn new() -> (r: Self)
        ensures
            !r.has_errors(),
            r.messages() == Seq::<Seq<char>>::empty(),
            r.anchors() == Seq::<ErrorAnchor>::empty(),
    {
        Errors(None)
    }

    /// Keep `error` after everything already held.
    pub fn push(&mut self, error: syn::Error)
        ensures
            final(self).has_errors(),
            final(self).messages() == old(self).messages() + error_messages(error),
            final(self).anchors() == old(self).anchors() + error_anchors(error),
    {
        match &mut self.0 {
            Some(existing) => error_combine(existing, error),
            None => {
                self.0 = Some(error);
                assert(error_messages(error) =~= Seq::<Seq<char>>::empty() + error_messages(error));
                assert(error_anchors(error) =~= Seq::<ErrorAnchor>::empty() + error_anchors(error));
            },
        }
    }

    /// Absorb a fallible step, keeping any error and reporting whether it succeeded.
    pub fn absorb<T>(&mut self, result: Result<T, syn::Error>) -> (r: Option<T>)
        ensures
            match result {
                Ok(v) => r == Some(v) && *final(self) == *old(self),
                Err(e) => r is None && final(self).has_errors() && final(self).messages()
                    == old(self).messages() + error_messages(e) && final(self).anchors()
                    == old(self).anchors() + error_anchors(e),
            },
    {
        match result {
            Ok(value) => Some(value),
            Err(error) => {
                self.push(error);
                None
            },
        }
    }

    pub fn is_empty(&self) -> (r: bool)
        ensures
            r == !self.has_errors(),
    {
        self.0.is_none()
    }

    /// `Ok` exactly when nothing was pushed; otherwise every message, in one error.
    pub fn finish(self) -> (r: Result<(), syn::Error>)
        ensures
            match r {
                Ok(()) => !self.has_errors(),
                Err(e) => self.has_errors() && error_messages(e) == self.messages()
                    && error_anchors(e) == self.anchors(),
            },
    {
        match self.0 {
            Some(error) => Err(error),
            None => Ok(()),
        }
    }

    /// Finish, yielding a value only if nothing went wrong.
    pub fn finish_with<T>(self, value: T) -> (r: Result<T, syn::Error>)
        ensures
            match r {
                Ok(v) => !self.has_errors() && v == value,
                Err(e) => self.has_errors() && error_messages(e) == self.messages()
                    && error_anchors(e) == self.anchors(),
            },
    {
        match self.finish() {
            Ok(()) => Ok(value),
            Err(error) => Err(error),
        }
    }
}

/// Every message of the errors among `ops`, in order; a `None` (a step that succeeded) adds none.
pub open spec fn pushed_messages(ops: Seq<Option<syn::Error>>) -> Seq<Seq<char>>
    decreases ops.len(),
{
    if ops.len() == 0 {
        Seq::empty()
    } else {
        pushed_messages(ops.drop_last()) + match ops.last() {
            Some(e) => error_messages(e),
            None => Seq::empty(),
        }
    }
}

/// Whether `next` is what one step leaves: `push(e)` or `absorb(Err(e))` for `Some(e)`, and
/// `absorb(Ok(..))`, which changes nothing, for `None`.
pub open spec fn accumulated(prev: Errors, op: Option<syn::Error>, next: Errors) -> bool {
    match op {
        Some(e) => next.has_errors() && next.messages() == prev.messages() + error_messages(e),
        None => next == prev,
    }
}

/// The accumulation law: starting from `Errors::new()`, after any run of `push` and `absorb`
/// calls nothing is ever discarded - the accumulator holds an error exactly when some step
/// brought one, and its messages are every pushed error's messages in push order. `finish` then
/// gives `Ok` exactly when no step brought an error, and otherwise all those messages.
pub proof fn lemma_nothing_discarded(states: Seq<Errors>, ops: Seq<Option<syn::Error>>)
    requires
        states.len() == ops.len() + 1,
        !states[0].has_errors(),
        states[0].messages() == Seq::<Seq<char>>::empty(),
        forall|i: int| 0 <= i < ops.len() ==> accumulated(states[i], ops[i], #[trigger] states[i + 1]),
    ensures
        states.last().messages() == pushed_messages(ops),
        states.last().has_errors() <==> exists|i: int| 0 <= i < ops.len() && #[trigger] ops[i] is Some,
    decreases ops.len(),
{
    if ops.len() == 0 {
    } else {
        let n = ops.len() - 1;
        assert(accumulated(states[n], ops[n], states[n + 1]));
        lemma_nothing_discarded(states.drop_last(), ops.drop_last());
        assert(states.drop_last().last() == states[n]);
        if states[n].has_errors() {
            let i = choose|i: int| 0 <= i < ops.drop_last().len() && #[trigger] ops.drop_last()[i] is Some;
            assert(ops[i] is Some);
        }
        if ops[n] is None && states.last().has_errors() {
            let i = choose|i: int| 0 <= i < ops.drop_last().len() && #[trigger] ops.drop_last()[i] is Some;
            assert(ops[i] is Some);
        }
        if exists|i: int| 0 <= i < ops.len() && #[trigger] ops[i] is Some {
            let i = choose|i: int| 0 <= i < ops.len() && #[trigger] ops[i] is Some;
            if i < n {
                assert(ops.drop_last()[i] is Some);
            }
        }
    }
}

impl Default for Errors {
    fn default() -> (r: Self)
        ensures
            !r.has_errors(),
            r.messages() == Seq::<Seq<char>>::empty(),
            r.anchors() == Seq::<ErrorAnchor>::empty(),
    {
        Errors::new()
    }
}

/// A closed set of names, and the one place a spelling is compared.
pub trait Keys: Sized + Copy + PartialEq + 'static {
    /// The token this kind of name is written as.
    type Written: ?Sized;

    /// Every name in the set, in declaration order. This and the three below are what an
    /// implementation says of its names; unless it says, nothing is known of them.
    open spec fn spec_all() -> Seq<Self> {
        arbitrary()
    }

    /// The canonical spelling.
    open spec fn spec_canonical(self) -> Seq<char> {
        arbitrary()
    }

    /// Every accepted spelling for this name, canonical first.
    open spec fn spec_spellings(self) -> Seq<Seq<char>> {
        arbitrary()
    }

    /// The name a written spelling resolves to, if any.
    open spec fn spec_resolve(written: Seq<char>) -> Option<Self> {
        arbitrary()
    }

    /// Every name in the set, in declaration order.
    fn all() -> (r: Vec<Self>)
        ensures
            r@ == Self::spec_all(),
    ;

    /// The canonical spelling. Aliases are accepted on the way in and never produced.
    fn canonical(self) -> (r: &'static str)
        ensures
            r@ == self.spec_canonical(),
    ;

    /// Every accepted spelling for this name, canonical first.
    fn spellings(self) -> (r: &'static [&'static str])
        ensures
            r@.map_values(|s: &str| s@) == self.spec_spellings(),
    ;

    /// Resolve a written spelling to the name it spells, or `None` if it spells none of them.
    fn resolve(written: &str) -> (r: Option<Self>)
        ensures
            r == Self::spec_resolve(written@),
    ;

    /// Whether two names are the same name.
    fn same(self, other: Self) -> (r: bool)
        ensures
            r == (self == other),
    ;
}

/// A resolved name, together with the token that spelled it.
pub struct Written<'ast, K: Keys> {
    key: K,
    token: &'ast K::Written,
}

impl<'ast, K: Keys> Written<'ast, K> {
    pub closed spec fn spec_key(&self) -> K {
        self.key
    }

    pub closed spec fn spec_token(&self) -> &'ast K::Written {
        self.token
    }

    pub fn new(key: K, token: &'ast K::Written) -> (r: Self)
        ensures
            r.spec_key() == key,
            r.spec_token() == token,
    {
        Written { key, token }
    }

    /// Which name this is.
    pub fn key(self) -> (r: K)
        ensures
            r == self.spec_key(),
    {
        self.key
    }

    /// What the author wrote, with the author's span.
    pub fn token(self) -> (r: &'ast K::Written)
        ensures
            r == self.spec_token(),
    {
        self.token
    }
}

impl<'ast, K: Keys> Clone for Written<'ast, K> {
    /// The same key and the same token; copying is free whatever the spelling type is.
    fn clone(&self) -> (r: Self)
        ensures
            r == *self,
    {
        *self
    }
}

impl<'ast, K: Keys> Copy for Written<'ast, K> {}

/// A path as written: its segments, and whether it is anything more than a bare identifier.
pub struct WrittenPath {
    pub leading_colon: bool,
    pub segments: Vec<String>,
    /// Whether each segment carries generic arguments, segment for segment.
    pub arguments: Vec<bool>,
}

/// The bare identifier a path is, when it is exactly one plain segment.
pub open spec fn path_ident(p: WrittenPath) -> Option<Seq<char>> {
    if !p.leading_colon && p.segments@.len() == 1 && p.arguments@.len() == 1 && !p.arguments@[0] {
        Some(p.segments@[0]@)
    } else {
        None
    }
}

impl WrittenPath {
    /// The bare identifier this path is, when it is one - the only form a key may take.
    pub fn get_ident(&self) -> (r: Option<&str>)
        ensures
            match r {
                Some(s) => path_ident(*self) == Some(s@),
                None => path_ident(*self) is None,
            },
    {
        if !self.leading_colon && self.segments.len() == 1 && self.arguments.len() == 1
            && !self.arguments[0] {
            Some(self.segments[0].as_str())
        } else {
            None
        }
    }
}

/// Naming, on the written path.
pub trait Named {
    /// The last segment, which is how variant names are matched.
    fn last_segment(&self) -> Option<String>;
}

impl Named for WrittenPath {
    fn last_segment(&self) -> (r: Option<String>)
        ensures
            match r {
                Some(s) => self.segments@.len() > 0 && s@ == self.segments@.last()@,
                None => self.segments@.len() == 0,
            },
    {
        let n = self.segments.len();
        if n == 0 {
            None
        } else {
            Some(self.segments[n - 1].clone())
        }
    }
}

/// Every accepted spelling of every name, in declaration order.
pub open spec fn all_key_spellings<K: Keys>(keys: Seq<K>) -> Seq<Seq<char>>
    decreases keys.len(),
{
    if keys.len() == 0 {
        Seq::empty()
    } else {
        all_key_spellings(keys.drop_last()) + keys.last().spec_spellings()
    }
}

/// The did-you-mean message for a key set.
pub open spec fn expected_keys_message<K: Keys>() -> Seq<char> {
    "expected one of: "@ + quoted_list(all_key_spellings(K::spec_all()))
}

/// The did-you-mean list, rendered from the table.
pub fn expected_one_of_keys<K: Keys>() -> (r: String)
    ensures
        r@ == expected_keys_message::<K>(),
{
    let all = K::all();
    let mut list = String::new();
    let mut first = true;
    let ghost mut seen: Seq<Seq<char>> = Seq::empty();
    let mut i: usize = 0;
    while i < all.len()
        invariant
            i <= all@.len(),
            all@ == K::spec_all(),
            seen == all_key_spellings(all@.take(i as int)),
            list@ == quoted_list(seen),
            first == (seen.len() == 0),
        decreases all@.len() - i,
    {
        let spellings = all[i].spellings();
        let ghost own = all@[i as int].spec_spellings();
        let mut k: usize = 0;
        let ghost base = seen;
        while k < spellings.len()
            invariant
                k <= spellings@.len(),
                spellings@.map_values(|s: &str| s@) == own,
                seen == base + own.take(k as int),
                list@ == quoted_list(seen),
                first == (seen.len() == 0),
            decreases spellings@.len() - k,
        {
            if !first {
                list.append(", ");
            }
            list.append("`");
            list.append(spellings[k]);
            list.append("`");
            proof {
                let next = seen.push(spellings@[k as int]@);
                assert(next.drop_last() =~= seen);
                assert(own.take(k + 1) =~= own.take(k as int).push(spellings@[k as int]@));
                seen = next;
            }
            first = false;
            k = k + 1;
        }
        proof {
            assert(own.take(own.len() as int) =~= own);
            assert(all@.take(i + 1).drop_last() =~= all@.take(i as int));
        }
        i = i + 1;
    }
    proof {
        assert(all@.take(all@.len() as int) =~= all@);
    }
    let mut out = "expected one of: ".to_string();
    out.append(list.as_str());
    out
}

/// The head of one element of a list body: its spelling when it is a bare identifier, and its
/// tokens, for a complaint to underline.
pub struct KeyHead {
    pub ident: Option<String>,
    pub tokens: TokenStream,
}

/// What the walk does with one element.
pub enum Step<K> {
    /// Hand the element to the reader, under this name.
    Dispatch(K),
    /// Report this, and do not read the element.
    Reject(syn::Error),
}

/// What the walk decides for one element.
pub enum StepView<K> {
    Dispatch(K),
    /// Not a bare identifier, or not a name in the set.
    Unknown,
    /// The name was already dispatched by an earlier element.
    Duplicate(K),
}

/// The spellings of the heads, `None` where a head is not a bare identifier.
pub open spec fn heads_view(heads: Seq<KeyHead>) -> Seq<Option<Seq<char>>> {
    heads.map_values(
        |h: KeyHead|
            match h.ident {
                Some(s) => Some(s@),
                None => None,
            },
    )
}

/// Whether an earlier step dispatched `k`.
pub open spec fn dispatched<K>(steps: Seq<StepView<K>>, k: K) -> bool {
    exists|j: int| 0 <= j < steps.len() && steps[j] == StepView::Dispatch(k)
}

/// The decision for one element, given the decisions before it.
pub open spec fn next_step<K: Keys>(prev: Seq<StepView<K>>, head: Option<Seq<char>>) -> StepView<K> {
    match head {
        None => StepView::Unknown,
        Some(s) => match K::spec_resolve(s) {
            None => StepView::Unknown,
            Some(k) => if dispatched(prev, k) {
                StepView::Duplicate(k)
            } else {
                StepView::Dispatch(k)
            },
        },
    }
}

/// The walk's decisions, element by element, in order.
pub open spec fn walk_view<K: Keys>(heads: Seq<Option<Seq<char>>>) -> Seq<StepView<K>>
    decreases heads.len(),
{
    if heads.len() == 0 {
        Seq::empty()
    } else {
        let prev = walk_view::<K>(heads.drop_last());
        prev.push(next_step(prev, heads.last()))
    }
}

/// The complaint about a name written twice.
pub open spec fn duplicate_message(canonical: Seq<char>) -> Seq<char> {
    "`"@ + canonical + "` is written more than once"@
}

/// Whether an executed step carries out a decision, with the complaint it calls for.
pub open spec fn step_matches<K: Keys>(step: Step<K>, view: StepView<K>) -> bool {
    match view {
        StepView::Dispatch(k) => step == Step::Dispatch(k),
        StepView::Unknown => step matches Step::Reject(e) && error_messages(e) == seq![
            expected_keys_message::<K>(),
        ],
        StepView::Duplicate(k) => step matches Step::Reject(e) && error_messages(e) == seq![
            duplicate_message(k.spec_canonical()),
        ],
    }
}

/// Whether a name is dispatched after one more decision.
pub proof fn lemma_dispatched_push<K>(prev: Seq<StepView<K>>, v: StepView<K>, k: K)
    ensures
        dispatched(prev.push(v), k) <==> (dispatched(prev, k) || v == StepView::Dispatch(k)),
{
    let next = prev.push(v);
    if dispatched(next, k) {
        let w = choose|w: int| 0 <= w < next.len() && next[w] == StepView::Dispatch(k);
        if w < prev.len() {
            assert(prev[w] == StepView::Dispatch(k));
        }
    }
    if dispatched(prev, k) {
        let w = choose|w: int| 0 <= w < prev.len() && prev[w] == StepView::Dispatch(k);
        assert(next[w] == StepView::Dispatch(k));
    }
    if v == StepView::Dispatch(k) {
        assert(next[prev.len() as int] == StepView::Dispatch(k));
    }
}

/// What a sequence contains after one more element.
pub proof fn lemma_contains_push<T>(s: Seq<T>, x: T, k: T)
    ensures
        s.push(x).contains(k) <==> (s.contains(k) || x == k),
{
    if s.contains(k) {
        let m = choose|m: int| 0 <= m < s.len() && s[m] == k;
        assert(s.push(x)[m] == k);
    }
    if x == k {
        assert(s.push(x)[s.len() as int] == k);
    }
    if s.push(x).contains(k) {
        let m = choose|m: int| 0 <= m < s.len() + 1 && s.push(x)[m] == k;
        if m < s.len() {
            assert(s[m] == k);
        }
    }
}

/// Decide, for each element of a list body, whether it is read and under which name.
///
/// Owns unknown-key and duplicate-key reporting; missing required keys are the caller's business,
/// because which are required is written in the caller's types.
pub fn plan_walk<K: Keys>(heads: &[KeyHead]) -> (r: Vec<Step<K>>)
    ensures
        r@.len() == heads@.len(),
        forall|i: int|
            0 <= i < heads@.len() ==> step_matches(
                #[trigger] r@[i],
                walk_view::<K>(heads_view(heads@))[i],
            ),
        forall|i: int|
            0 <= i < heads@.len() ==> (#[trigger] r@[i] matches Step::Reject(e) ==> error_anchors(e)
                == seq![ErrorAnchor::Over(heads@[i].tokens)]),
{
    let unknown = expected_one_of_keys::<K>();
    let mut out: Vec<Step<K>> = Vec::new();
    let mut seen: Vec<K> = Vec::new();
    let ghost hv = heads_view(heads@);
    let mut i: usize = 0;
    while i < heads.len()
        invariant
            i <= heads@.len(),
            hv == heads_view(heads@),
            unknown@ == expected_keys_message::<K>(),
            out@.len() == i,
            walk_view::<K>(hv.take(i as int)).len() == i,
            forall|j: int|
                0 <= j < i ==> step_matches(#[trigger] out@[j], walk_view::<K>(hv.take(i as int))[j]),
            forall|j: int|
                0 <= j < i ==> (#[trigger] out@[j] matches Step::Reject(e) ==> error_anchors(e)
                    == seq![ErrorAnchor::Over(heads@[j].tokens)]),
            forall|k: K|
                dispatched(walk_view::<K>(hv.take(i as int)), k) <==> seen@.contains(k),
        decreases heads@.len() - i,
    {
        let head = &heads[i];
        let ghost prev = walk_view::<K>(hv.take(i as int));
        let ghost old_seen = seen@;
        proof {
            assert(hv.take(i + 1).drop_last() =~= hv.take(i as int));
            assert(hv.take(i + 1).last() == hv[i as int]);
        }
        let step = match &head.ident {
            None => Step::Reject(error_new_spanned(&head.tokens, unknown.as_str())),
            Some(spelling) => match K::resolve(spelling.as_str()) {
                None => Step::Reject(error_new_spanned(&head.tokens, unknown.as_str())),
                Some(key) => {
                    let mut found = false;
                    let mut j: usize = 0;
                    while j < seen.len()
                        invariant
                            j <= seen@.len(),
                            found == exists|m: int| 0 <= m < j && seen@[m] == key,
                        decreases seen@.len() - j,
                    {
                        if seen[j].same(key) {
                            found = true;
                        }
                        j = j + 1;
                    }
                    proof {
                        assert(found <==> old_seen.contains(key));
                    }
                    if found {
                        let mut message = "`".to_string();
                        message.append(key.canonical());
                        message.append("` is written more than once");
                        Step::Reject(error_new_spanned(&head.tokens, message.as_str()))
                    } else {
                        seen.push(key);
                        Step::Dispatch(key)
                    }
                },
            },
        };
        proof {
            let v = next_step(prev, hv[i as int]);
            let next = walk_view::<K>(hv.take(i + 1));
            assert(next == prev.push(v));
            assert(step_matches(step, v));
            assert forall|k: K| dispatched(next, k) <==> seen@.contains(k) by {
                lemma_dispatched_push(prev, v, k);
                match step {
                    Step::Dispatch(kk) => lemma_contains_push(old_seen, kk, k),
                    _ => {},
                }
            }
            assert forall|j: int| 0 <= j < i implies next[j] == prev[j] by {}
        }
        out.push(step);
        i = i + 1;
    }
    proof {
        assert(hv.take(heads@.len() as int) =~= hv);
    }
    out
}

/// The walk decides once per element, and earlier decisions never change.
pub proof fn lemma_walk_prefix<K: Keys>(heads: Seq<Option<Seq<char>>>, n: int)
    requires
        0 <= n <= heads.len(),
    ensures
        walk_view::<K>(heads).len() == heads.len(),
        walk_view::<K>(heads.take(n)).len() == n,
        forall|j: int| 0 <= j < n ==> walk_view::<K>(heads)[j] == walk_view::<K>(heads.take(n))[j],
    decreases heads.len(),
{
    if heads.len() == 0 {
        assert(heads.take(n) =~= heads);
    } else if n == heads.len() {
        assert(heads.take(n) =~= heads);
        lemma_walk_prefix::<K>(heads.drop_last(), n - 1);
    } else {
        lemma_walk_prefix::<K>(heads.drop_last(), n);
        assert(heads.drop_last().take(n) =~= heads.take(n));
    }
}

/// An element is dispatched under a name only when its head is a bare identifier spelling it.
pub proof fn lemma_dispatch_spells<K: Keys>(heads: Seq<Option<Seq<char>>>, j: int, k: K)
    requires
        0 <= j < heads.len(),
        walk_view::<K>(heads)[j] == StepView::Dispatch(k),
    ensures
        heads[j] matches Some(s) && K::spec_resolve(s) == Some(k),
    decreases heads.len(),
{
    lemma_walk_prefix::<K>(heads, heads.len() as int);
    if j < heads.len() - 1 {
        lemma_walk_prefix::<K>(heads, heads.len() - 1);
        assert(heads.take(heads.len() - 1) =~= heads.drop_last());
        lemma_dispatch_spells::<K>(heads.drop_last(), j, k);
    }
}

/// Each name is dispatched at most once: a later element spelling it again is a duplicate.
pub proof fn lemma_dispatched_once<K: Keys>(heads: Seq<Option<Seq<char>>>, i: int, j: int, k: K)
    requires
        0 <= i < j < heads.len(),
        walk_view::<K>(heads)[i] == StepView::Dispatch(k),
    ensures
        walk_view::<K>(heads)[j] != StepView::Dispatch(k),
    decreases heads.len(),
{
    let prev = walk_view::<K>(heads.drop_last());
    lemma_walk_prefix::<K>(heads, heads.len() - 1);
    assert(heads.take(heads.len() - 1) =~= heads.drop_last());
    if j == heads.len() - 1 {
        assert(prev[i] == StepView::Dispatch(k));
        assert(dispatched(prev, k));
    } else {
        lemma_dispatched_once::<K>(heads.drop_last(), i, j, k);
    }
}

/// The first element spelling a name is the one dispatched under it.
pub proof fn lemma_first_wins<K: Keys>(heads: Seq<Option<Seq<char>>>, i: int, k: K)
    requires
        0 <= i < heads.len(),
        heads[i] matches Some(s) && K::spec_resolve(s) == Some(k),
        forall|j: int| 0 <= j < i ==> !(#[trigger] heads[j] matches Some(s) && K::spec_resolve(s) == Some(k)),
    ensures
        walk_view::<K>(heads)[i] == StepView::Dispatch(k),
{
    let pre = heads.take(i + 1);
    lemma_walk_prefix::<K>(heads, i + 1);
    let prev = walk_view::<K>(pre.drop_last());
    if dispatched(prev, k) {
        let w = choose|w: int| 0 <= w < prev.len() && prev[w] == StepView::Dispatch(k);
        lemma_dispatch_spells::<K>(pre.drop_last(), w, k);
        assert(pre.drop_last()[w] == heads[w]);
    }
}

/// Whether an element's head is a bare identifier spelling `k`.
pub open spec fn spells<K: Keys>(head: Option<Seq<char>>, k: K) -> bool {
    head matches Some(s) && K::spec_resolve(s) == Some(k)
}

/// A name has been dispatched among the first `m` elements exactly when one of them spells it.
proof fn lemma_dispatched_iff_spelled<K: Keys>(heads: Seq<Option<Seq<char>>>, m: int, k: K)
    requires
        0 <= m <= heads.len(),
    ensures
        dispatched(walk_view::<K>(heads.take(m)), k) <==> exists|j: int| 0 <= j < m && spells(#[trigger] heads[j], k),
    decreases m,
{
    if m == 0 {
        assert(walk_view::<K>(heads.take(0)) =~= Seq::<StepView<K>>::empty());
    } else {
        lemma_dispatched_iff_spelled::<K>(heads, m - 1, k);
        let prev = walk_view::<K>(heads.take(m - 1));
        assert(heads.take(m).drop_last() =~= heads.take(m - 1));
        assert(heads.take(m).last() == heads[m - 1]);
        let v = next_step(prev, heads[m - 1]);
        assert(walk_view::<K>(heads.take(m)) == prev.push(v));
        lemma_dispatched_push(prev, v, k);
        if exists|j: int| 0 <= j < m && spells(#[trigger] heads[j], k) {
            let j = choose|j: int| 0 <= j < m && spells(#[trigger] heads[j], k);
            if j < m - 1 {
                assert(dispatched(prev, k));
            }
        }
    }
}

/// What the walk decides for each element, in the author's terms: an element is read under a
/// name exactly when its key spells that name and no earlier key does; it is a repeat when an
/// earlier key spelled the same name; and it is unknown when its key spells no name at all.
pub proof fn lemma_walk_decides<K: Keys>(heads: Seq<Option<Seq<char>>>, i: int, k: K)
    requires
        0 <= i < heads.len(),
    ensures
        walk_view::<K>(heads)[i] == StepView::Dispatch(k) <==> (spells(heads[i], k) && forall|j: int|
            0 <= j < i ==> !spells(#[trigger] heads[j], k)),
        walk_view::<K>(heads)[i] == StepView::Duplicate(k) <==> (spells(heads[i], k) && exists|j: int|
            0 <= j < i && spells(#[trigger] heads[j], k)),
        walk_view::<K>(heads)[i] is Unknown <==> !(heads[i] matches Some(s) && K::spec_resolve(s) is Some),
{
    lemma_walk_prefix::<K>(heads, i + 1);
    lemma_dispatched_iff_spelled::<K>(heads, i, k);
    let prev = walk_view::<K>(heads.take(i));
    assert(heads.take(i + 1).drop_last() =~= heads.take(i));
    assert(heads.take(i + 1).last() == heads[i]);
    assert(walk_view::<K>(heads.take(i + 1)) == prev.push(next_step(prev, heads[i])));
    assert(walk_view::<K>(heads)[i] == next_step(prev, heads[i]));
}

/// The spelling of each element's key, `None` where the key is not a bare identifier.
pub open spec fn meta_heads(metas: Seq<MetaModel>) -> Seq<Option<Seq<char>>> {
    metas.map_values(|m: MetaModel| path_ident(m.path))
}

/// What one element adds to the walk's report: a dispatched element, the error its reader
/// returned, if any; a rejected one, its complaint.
pub open spec fn element_messages<K: Keys>(v: StepView<K>, out: Result<(), syn::Error>) -> Seq<
    Seq<char>,
> {
    match v {
        StepView::Dispatch(_) => match out {
            Ok(()) => Seq::empty(),
            Err(e) => error_messages(e),
        },
        StepView::Unknown => seq![expected_keys_message::<K>()],
        StepView::Duplicate(k) => seq![duplicate_message(k.spec_canonical())],
    }
}

/// The walk's report: each element's messages in turn, given what each reader returned.
pub open spec fn walk_messages<K: Keys>(
    view: Seq<StepView<K>>,
    outs: Seq<Result<(), syn::Error>>,
) -> Seq<Seq<char>>
    decreases view.len(),
{
    if view.len() == 0 {
        Seq::empty()
    } else {
        walk_messages(view.drop_last(), outs.drop_last()) + element_messages(view.last(), outs.last())
    }
}

/// Where one element's messages point: a dispatched element's, wherever its reader's error
/// points; a rejected one's, over the key it was written with.
pub open spec fn element_anchors<K>(
    v: StepView<K>,
    key: TokenStream,
    out: Result<(), syn::Error>,
) -> Seq<ErrorAnchor> {
    match v {
        StepView::Dispatch(_) => match out {
            Ok(()) => Seq::empty(),
            Err(e) => error_anchors(e),
        },
        _ => seq![ErrorAnchor::Over(key)],
    }
}

/// Where the walk's report points, element by element, in the order of `walk_messages`.
pub open spec fn walk_anchors<K>(
    view: Seq<StepView<K>>,
    metas: Seq<MetaModel>,
    outs: Seq<Result<(), syn::Error>>,
) -> Seq<ErrorAnchor>
    decreases view.len(),
{
    if view.len() == 0 {
        Seq::empty()
    } else {
        walk_anchors(view.drop_last(), metas.drop_last(), outs.drop_last()) + element_anchors(
            view.last(),
            metas.last().path_tokens,
            outs.last(),
        )
    }
}

/// Whether some element was rejected, or its reader failed.
pub open spec fn walk_failed<K>(view: Seq<StepView<K>>, outs: Seq<Result<(), syn::Error>>) -> bool
    decreases view.len(),
{
    if view.len() == 0 {
        false
    } else {
        walk_failed(view.drop_last(), outs.drop_last()) || !(view.last() is Dispatch)
            || outs.last() is Err
    }
}

/// Whether `out` is something `accept` can return for the element `m` under decision `v`, handed
/// the name together with the identifier that spelled it; an element that is not dispatched is
/// never read, and counts as a success.
pub open spec fn read_as<'w, K: Keys<Written = str>, F: FnMut(Written<'_, K>, &MetaModel) -> Result<(), syn::Error>>(
    accept: F,
    v: StepView<K>,
    m: MetaModel,
    out: Result<(), syn::Error>,
) -> bool {
    match v {
        StepView::Dispatch(k) => exists|w: Written<'w, K>|
            #![trigger call_ensures(accept, (w, &m), out)]
            w.spec_key() == k && path_ident(m.path) == Some(w.spec_token()@) && call_ensures(
                accept,
                (w, &m),
                out,
            ),
        _ => out is Ok,
    }
}

/// Whether a dispatched element was read without complaint among the first `n`, under `k`.
pub open spec fn read_among<K>(view: Seq<StepView<K>>, outs: Seq<Result<(), syn::Error>>, n: int, k: K) -> bool {
    exists|j: int| 0 <= j < n && view[j] == StepView::Dispatch(k) && (#[trigger] outs[j]) is Ok
}

/// What a walk of `body` with `accept` gives: `r` its result, and `read` every name whose element
/// was read without complaint.
///
/// A body that is not a list of meta items gives that complaint and reads nothing. Otherwise each
/// element is decided as `walk_view` says and each dispatched one is handed to `accept`, whose
/// results are `outs`: the walk is `Ok` exactly when no element was rejected and no reader
/// failed, and otherwise reports every element's complaint or reader error, in element order.
pub open spec fn walked<K: Keys<Written = str>, F: FnMut(Written<'_, K>, &MetaModel) -> Result<(), syn::Error>>(
    body: TokenStream,
    accept: F,
    r: Result<(), syn::Error>,
    read: Seq<K>,
) -> bool {
    match metas_parse(body) {
        Err(e) => r == Err::<(), syn::Error>(e) && read.len() == 0,
        Ok(raw) => exists|outs: Seq<Result<(), syn::Error>>|
            #![trigger walk_failed(walk_view::<K>(meta_heads(metas_view(raw))), outs)]
            {
                &&& outs.len() == metas_view(raw).len()
                &&& forall|i: int|
                    0 <= i < metas_view(raw).len() ==> read_as(
                        accept,
                        walk_view::<K>(meta_heads(metas_view(raw)))[i],
                        metas_view(raw)[i],
                        #[trigger] outs[i],
                    )
                &&& match r {
                    Ok(()) => !walk_failed(walk_view::<K>(meta_heads(metas_view(raw))), outs),
                    Err(e) => walk_failed(walk_view::<K>(meta_heads(metas_view(raw))), outs)
                        && error_messages(e) == walk_messages(
                        walk_view::<K>(meta_heads(metas_view(raw))),
                        outs,
                    ) && error_anchors(e) == walk_anchors(
                        walk_view::<K>(meta_heads(metas_view(raw))),
                        metas_view(raw),
                        outs,
                    ),
                }
                &&& forall|k: K|
                    read.contains(k) <==> read_among(
                        walk_view::<K>(meta_heads(metas_view(raw))),
                        outs,
                        outs.len() as int,
                        k,
                    )
            },
    }
}

/// One more element: a name is read among the first `n + 1` exactly when it was among the first
/// `n`, or the new element was dispatched under it and read.
proof fn lemma_read_among_step<K>(view: Seq<StepView<K>>, outs: Seq<Result<(), syn::Error>>, o: Result<(), syn::Error>, n: int, k: K)
    requires
        outs.len() == n,
        0 <= n < view.len(),
    ensures
        read_among(view, outs.push(o), n + 1, k) <==> (read_among(view, outs, n, k) || (view[n]
            == StepView::Dispatch(k) && o is Ok)),
{
    let next = outs.push(o);
    if read_among(view, next, n + 1, k) {
        let j = choose|j: int| 0 <= j < n + 1 && view[j] == StepView::Dispatch(k) && (#[trigger] next[j]) is Ok;
        if j < n {
            assert(outs[j] == next[j]);
        }
    }
    if read_among(view, outs, n, k) {
        let j = choose|j: int| 0 <= j < n && view[j] == StepView::Dispatch(k) && (#[trigger] outs[j]) is Ok;
        assert(next[j] == outs[j]);
    }
    if view[n] == StepView::Dispatch(k) && o is Ok {
        assert(next[n] == o);
    }
}

/// Walk a list body, and say which names were read without complaint.
pub(crate) fn walk_reading<K: Keys<Written = str>, F: FnMut(Written<'_, K>, &MetaModel) -> Result<(), syn::Error>>(
    body: &TokenStream,
    mut accept: F,
) -> (r: (Result<(), syn::Error>, Vec<K>))
    requires
        forall|w: Written<K>, m: &MetaModel| call_requires(accept, (w, m)),
    ensures
        walked(*body, accept, r.0, r.1@),
        metas_parse(*body) matches Ok(raw) ==> (r.0 is Ok ==> forall|i: int|
            0 <= i < metas_view(raw).len() ==> (#[trigger] walk_view::<K>(meta_heads(metas_view(raw)))[i]) is Dispatch),
{
    let metas = match list_elements(body) {
        Ok(metas) => metas,
        Err(error) => {
            return (Err(error), Vec::new());
        },
    };
    let mut heads: Vec<KeyHead> = Vec::new();
    let mut i: usize = 0;
    while i < metas.len()
        invariant
            i <= metas@.len(),
            heads_view(heads@) == meta_heads(metas@.take(i as int)),
            heads@.len() == i,
            forall|j: int| 0 <= j < i ==> (#[trigger] heads@[j]).tokens == metas@[j].path_tokens,
        decreases metas@.len() - i,
    {
        let head = key_head(&metas[i]);
        let ghost before = heads@;
        heads.push(head);
        proof {
            assert(heads_view(heads@) =~= heads_view(before).push(path_ident(metas@[i as int].path)));
            assert(meta_heads(metas@.take(i + 1)) =~= meta_heads(metas@.take(i as int)).push(
                path_ident(metas@[i as int].path),
            ));
        }
        i = i + 1;
    }
    proof {
        assert(metas@.take(metas@.len() as int) =~= metas@);
    }
    let ghost view = walk_view::<K>(meta_heads(metas@));
    proof {
        lemma_walk_prefix::<K>(meta_heads(metas@), 0);
    }
    let ghost f = accept;
    let mut steps = plan_walk::<K>(heads.as_slice());
    let ghost planned = steps@;
    let ghost mut outs: Seq<Result<(), syn::Error>> = Seq::empty();
    let mut errors = Errors::new();
    let mut read: Vec<K> = Vec::new();
    let mut k: usize = 0;
    let total = steps.len();
    while k < total
        invariant
            total == metas@.len(),
            total == planned.len(),
            k <= total,
            steps@ == planned.skip(k as int),
            view.len() == total,
            view == walk_view::<K>(meta_heads(metas@)),
            forall|j: int| 0 <= j < total ==> step_matches(#[trigger] planned[j], view[j]),
            accept == f,
            forall|w: Written<K>, m: &MetaModel| call_requires(accept, (w, m)),
            (exists|j: int| 0 <= j < k && !(view[j] is Dispatch)) ==> errors.has_errors(),
            outs.len() == k,
            forall|j: int| 0 <= j < k ==> read_as(f, view[j], metas@[j], #[trigger] outs[j]),
            errors.messages() == walk_messages(view.take(k as int), outs),
            errors.has_errors() == walk_failed(view.take(k as int), outs),
            errors.anchors() == walk_anchors(view.take(k as int), metas@.take(k as int), outs),
            heads@.len() == total,
            forall|j: int| 0 <= j < total ==> (#[trigger] heads@[j]).tokens == metas@[j].path_tokens,
            forall|j: int|
                0 <= j < total ==> (#[trigger] planned[j] matches Step::Reject(e) ==> error_anchors(e)
                    == seq![ErrorAnchor::Over(heads@[j].tokens)]),
            forall|kk: K| read@.contains(kk) <==> read_among(view, outs, k as int, kk),
        decreases total - k,
    {
        let step = steps.remove(0);
        proof {
            assert(step == planned[k as int]);
            assert(step_matches(planned[k as int], view[k as int]));
        }
        let ghost o: Result<(), syn::Error> = Ok(());
        match step {
            Step::Reject(error) => {
                errors.push(error);
            },
            Step::Dispatch(key) => {
                proof {
                    assert(view[k as int] == StepView::Dispatch(key));
                    lemma_dispatch_spells::<K>(meta_heads(metas@), k as int, key);
                    assert(meta_heads(metas@)[k as int] == path_ident(metas@[k as int].path));
                }
                match metas[k].path.get_ident() {
                    Some(token) => {
                        let written = Written::new(key, token);
                        let outcome = accept(written, &metas[k]);
                        proof {
                            o = outcome;
                            assert(call_ensures(f, (written, &metas@[k as int]), o));
                        }
                        let ok = outcome.is_ok();
                        let _ = errors.absorb(outcome);
                        if ok {
                            let ghost before = read@;
                            read.push(key);
                            proof {
                                assert forall|kk: K| read@.contains(kk) <==> (before.contains(kk) || kk == key) by {
                                    lemma_contains_push(before, key, kk);
                                }
                            }
                        }
                    },
                    None => {},
                }
            },
        }
        proof {
            assert(steps@ =~= planned.skip(k + 1));
            let next = outs.push(o);
            assert(view.take(k + 1).drop_last() =~= view.take(k as int));
            assert(metas@.take(k + 1).drop_last() =~= metas@.take(k as int));
            assert(metas@.take(k + 1).last() == metas@[k as int]);
            assert(view.take(k + 1).last() == view[k as int]);
            assert(next.drop_last() =~= outs);
            assert(next.last() == o);
            assert(read_as(f, view[k as int], metas@[k as int], o));
            assert forall|j: int| 0 <= j < k + 1 implies read_as(f, view[j], metas@[j], #[trigger] next[j]) by {
                if j < k {
                    assert(next[j] == outs[j]);
                }
            }
            assert forall|kk: K| read@.contains(kk) <==> read_among(view, next, k + 1, kk) by {
                lemma_read_among_step(view, outs, o, k as int, kk);
            }
            outs = next;
        }
        k = k + 1;
    }
    proof {
        assert(view.take(total as int) =~= view);
        assert(metas@.take(total as int) =~= metas@);
    }
    let result = errors.finish();
    proof {
        assert(walk_failed(view, outs) == errors.has_errors());
        assert(outs.len() == total);
    }
    (result, read)
}


/// Walk a list body. Every element whose key names one of `K` goes to `accept` under that name -
/// each name at most once, in the order written; every other element is reported: an unknown or
/// qualified key with the list of accepted spellings, a repeated one with the name it repeats.
/// Every error `accept` returns is kept beside those, in the order of the elements. Only a body
/// that is not a list of meta items stops the walk, with that complaint.
pub fn walk_body<K: Keys<Written = str>, F: FnMut(Written<'_, K>, &MetaModel) -> Result<(), syn::Error>>(
    body: &TokenStream,
    accept: F,
) -> (r: Result<(), syn::Error>)
    requires
        forall|w: Written<K>, m: &MetaModel| call_requires(accept, (w, m)),
    ensures
        exists|read: Seq<K>| #[trigger] walked(*body, accept, r, read),
        metas_parse(*body) matches Ok(raw) ==> (r is Ok ==> forall|i: int|
            0 <= i < metas_view(raw).len() ==> (#[trigger] walk_view::<K>(meta_heads(metas_view(raw)))[i]) is Dispatch),
{
    let (result, read) = walk_reading(body, accept);
    proof {
        assert(walked(*body, accept, result, read@));
    }
    result
}

} // verus!
