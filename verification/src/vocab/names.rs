//! Closed sets of names this framework owns and reads back out of what the user wrote.

use vstd::prelude::*;
use vstd::string::*;
use crate::text::{quote_all, quoted_list, str_eq, views};
use crate::vocab::walk::Keys;

verus! {

broadcast use vstd::string::group_string_axioms;

/// The helper attributes the syntax stage registers, and the only heads it owns.
#[derive(Clone, Copy, PartialEq, Eq, Debug, Structural)]
pub enum SyntaxHelper {
    Shape,
    Alias,
}

/// The canonical spelling of a helper.
pub open spec fn helper_spelling(h: SyntaxHelper) -> Seq<char> {
    match h {
        SyntaxHelper::Shape => "shape"@,
        SyntaxHelper::Alias => "alias"@,
    }
}

/// The helper a spelling names, matched exactly.
pub open spec fn helper_named(text: Seq<char>) -> Option<SyntaxHelper> {
    if text == "shape"@ {
        Some(SyntaxHelper::Shape)
    } else if text == "alias"@ {
        Some(SyntaxHelper::Alias)
    } else {
        None
    }
}

/// A helper round-trips through its spelling: the spelling it is written with names it again.
pub proof fn lemma_helper_round_trip(h: SyntaxHelper)
    ensures
        helper_named(helper_spelling(h)) == Some(h),
{
    reveal_strlit("shape");
    reveal_strlit("alias");
    assert("shape"@[0] != "alias"@[0]);
}

/// The candidate list for the helpers.
pub open spec fn helper_candidates() -> Seq<char> {
    quoted_list(seq!["shape"@, "alias"@])
}

/// The complaint about a head that is none of the helpers.
pub open spec fn helper_expected() -> Seq<char> {
    "expected one of: "@ + helper_candidates()
}

impl SyntaxHelper {
    /// The canonical spelling.
    pub fn spelling(self) -> (r: &'static str)
        ensures
            r@ == helper_spelling(self),
    {
        match self {
            SyntaxHelper::Shape => "shape",
            SyntaxHelper::Alias => "alias",
        }
    }

    /// The candidate list a diagnostic shows, in `lookahead1`'s shape.
    pub fn candidates() -> (r: String)
        ensures
            r@ == helper_candidates(),
    {
        let names: [&str; 2] = ["shape", "alias"];
        let r = quote_all(&names);
        assert(views(names@) =~= seq!["shape"@, "alias"@]);
        r
    }

    /// Match a bare spelling, exactly: no case folding, no qualification.
    pub fn from_spelling(text: &str) -> (r: Option<SyntaxHelper>)
        ensures
            r == helper_named(text@),
    {
        if str_eq(text, "shape") {
            Some(SyntaxHelper::Shape)
        } else if str_eq(text, "alias") {
            Some(SyntaxHelper::Alias)
        } else {
            None
        }
    }

    /// Read a head the author wrote, or say which heads there are.
    pub fn try_from_text(text: &str) -> (r: Result<SyntaxHelper, String>)
        ensures
            match r {
                Ok(h) => helper_named(text@) == Some(h),
                Err(m) => helper_named(text@) is None && m@ == helper_expected(),
            },
    {
        match SyntaxHelper::from_spelling(text) {
            Some(helper) => Ok(helper),
            None => {
                let mut message = "expected one of: ".to_string();
                let list = SyntaxHelper::candidates();
                message.append(list.as_str());
                Err(message)
            },
        }
    }

    /// The spelling as an owned string - what `Display` writes.
    pub fn to_string(self) -> (r: String)
        ensures
            r@ == helper_spelling(self),
    {
        self.spelling().to_string()
    }
}

impl Keys for SyntaxHelper {
    type Written = str;

    open spec fn spec_all() -> Seq<Self> {
        seq![SyntaxHelper::Shape, SyntaxHelper::Alias]
    }

    open spec fn spec_canonical(self) -> Seq<char> {
        helper_spelling(self)
    }

    open spec fn spec_spellings(self) -> Seq<Seq<char>> {
        seq![helper_spelling(self)]
    }

    open spec fn spec_resolve(written: Seq<char>) -> Option<Self> {
        helper_named(written)
    }

    fn all() -> (r: Vec<Self>) {
        let r = vec![SyntaxHelper::Shape, SyntaxHelper::Alias];
        assert(r@ =~= Self::spec_all());
        r
    }

    fn canonical(self) -> (r: &'static str) {
        self.spelling()
    }

    fn spellings(self) -> (r: &'static [&'static str]) {
        match self {
            SyntaxHelper::Shape => {
                let r: &'static [&'static str] = &["shape"];
                assert(r@.map_values(|s: &str| s@) =~= seq!["shape"@]);
                r
            },
            SyntaxHelper::Alias => {
                let r: &'static [&'static str] = &["alias"];
                assert(r@.map_values(|s: &str| s@) =~= seq!["alias"@]);
                r
            },
        }
    }

    fn resolve(written: &str) -> (r: Option<Self>) {
        SyntaxHelper::from_spelling(written)
    }

    fn same(self, other: Self) -> (r: bool) {
        self == other
    }
}

} // verus!
