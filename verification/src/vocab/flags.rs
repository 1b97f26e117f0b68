//! Flags: a bare-path attribute, where presence is the whole signal.

use vstd::prelude::*;
use vstd::string::*;
use crate::meta::ShapeKind;
use crate::text::{contains_spelling, quote_all, quoted_list, views};
use crate::vocab::walk::{path_ident, WrittenPath};

verus! {

broadcast use vstd::string::group_string_axioms;

/// A unit type matched from a bare path under any of its spellings.
pub trait Flag: Sized {
    /// Every accepted spelling, canonical first. Unless an implementation says what they are,
    /// nothing is known of them.
    open spec fn spec_spellings() -> Seq<Seq<char>> {
        arbitrary()
    }

    /// The flag's one value.
    fn unit() -> Self;

    /// The canonical spelling. Aliases are accepted on the way in, never produced.
    fn spelling() -> (r: &'static str)
        ensures
            Self::spec_spellings().len() > 0,
            r@ == Self::spec_spellings()[0],
    ;

    /// Every accepted spelling, canonical first.
    fn spellings() -> (r: &'static [&'static str])
        ensures
            views(r@) == Self::spec_spellings(),
    ;

    /// The candidate list a diagnostic shows.
    fn candidates() -> (r: String)
        ensures
            r@ == quoted_list(Self::spec_spellings()),
    {
        quote_all(Self::spellings())
    }

    /// Read the flag from a bare path: exactly one unqualified segment, spelled as declared.
    fn from_path(path: &WrittenPath) -> (r: Result<Self, String>)
        ensures
            match r {
                Ok(_) => path_ident(*path) matches Some(s) && Self::spec_spellings().contains(s),
                Err(m) => !(path_ident(*path) matches Some(s) && Self::spec_spellings().contains(s))
                    && m@ == "expected one of: "@ + quoted_list(Self::spec_spellings()),
            },
    {
        let spellings = Self::spellings();
        let matched = match path.get_ident() {
            Some(ident) => contains_spelling(spellings, ident),
            None => false,
        };
        proof {
            if let Some(s) = path_ident(*path) {
                if Self::spec_spellings().contains(s) {
                    let k = choose|k: int| 0 <= k < Self::spec_spellings().len() && Self::spec_spellings()[k] == s;
                    assert(spellings@[k]@ == s);
                }
                if matched {
                    let k = choose|k: int| 0 <= k < spellings@.len() && spellings@[k]@ == s;
                    assert(views(spellings@)[k] == s);
                }
            }
        }
        if matched {
            Ok(Self::unit())
        } else {
            let mut message = "expected one of: ".to_string();
            let list = Self::candidates();
            message.append(list.as_str());
            Err(message)
        }
    }

    /// Read the flag from whatever shape it was written in: only a bare path can be a flag, as
    /// anything else carries a payload a flag has nowhere to put.
    fn from_written(shape: ShapeKind, path: &WrittenPath) -> (r: Result<Self, String>)
        ensures
            shape != ShapeKind::Path ==> (r matches Err(m) && m@ == "`"@ + Self::spec_spellings()[0]
                + "` takes no arguments - it is a flag, and its presence is the whole signal"@),
            shape == ShapeKind::Path ==> (r is Ok <==> (path_ident(*path) matches Some(s)
                && Self::spec_spellings().contains(s))),
    {
        match shape {
            ShapeKind::Path => Self::from_path(path),
            _ => {
                let mut message = "`".to_string();
                message.append(Self::spelling());
                message.append("` takes no arguments - it is a flag, and its presence is the whole signal");
                Err(message)
            },
        }
    }
}

/// `#[no_clean]` - presence is the signal. Written as its key or as its type, it is one node.
#[derive(Clone, Copy, PartialEq, Eq, Debug, Default)]
pub struct NoClean;

impl Flag for NoClean {
    open spec fn spec_spellings() -> Seq<Seq<char>> {
        seq!["no_clean"@, "NoClean"@]
    }

    fn unit() -> Self {
        NoClean
    }

    fn spelling() -> (r: &'static str) {
        "no_clean"
    }

    fn spellings() -> (r: &'static [&'static str]) {
        let r: &'static [&'static str] = &["no_clean", "NoClean"];
        assert(views(r@) =~= seq!["no_clean"@, "NoClean"@]);
        r
    }
}

} // verus!
