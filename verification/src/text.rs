//! Text helpers: exact comparison, quoting and the did-you-mean lists built from spellings.

use vstd::prelude::*;
use vstd::string::*;

verus! {

broadcast use vstd::string::group_string_axioms;

/// Exact, case-sensitive comparison of two spellings.
pub fn str_eq(a: &str, b: &str) -> (r: bool)
    ensures
        r == (a@ == b@),
{
    let n = a.unicode_len();
    if n != b.unicode_len() {
        return false;
    }
    let mut i: usize = 0;
    while i < n
        invariant
            n == a@.len(),
            n == b@.len(),
            i <= n,
            forall|j: int| 0 <= j < i ==> a@[j] == b@[j],
        decreases n - i,
    {
        if a.get_char(i) != b.get_char(i) {
            return false;
        }
        i = i + 1;
    }
    assert(a@ =~= b@);
    true
}

/// Whether `written` is one of `spellings`.
pub fn contains_spelling(spellings: &[&str], written: &str) -> (r: bool)
    ensures
        r == exists|i: int| 0 <= i < spellings@.len() && spellings@[i]@ == written@,
{
    let mut i: usize = 0;
    while i < spellings.len()
        invariant
            i <= spellings@.len(),
            forall|j: int| 0 <= j < i ==> spellings@[j]@ != written@,
        decreases spellings@.len() - i,
    {
        if str_eq(spellings[i], written) {
            return true;
        }
        i = i + 1;
    }
    false
}

/// One spelling in backticks, the way a diagnostic shows it.
pub open spec fn backticked(s: Seq<char>) -> Seq<char> {
    "`"@ + s + "`"@
}

/// Spellings in backticks joined by `, ` - the shape `lookahead1` gives its candidate lists.
pub open spec fn quoted_list(s: Seq<Seq<char>>) -> Seq<char>
    decreases s.len(),
{
    if s.len() == 0 {
        Seq::empty()
    } else if s.len() == 1 {
        backticked(s[0])
    } else {
        quoted_list(s.drop_last()) + ", "@ + backticked(s.last())
    }
}

/// The views of a list of spellings.
pub open spec fn views(s: Seq<&str>) -> Seq<Seq<char>> {
    s.map_values(|x: &str| x@)
}

/// Build the quoted, comma-separated list of `spellings`.
pub fn quote_all(spellings: &[&str]) -> (r: String)
    ensures
        r@ == quoted_list(views(spellings@)),
{
    let mut out = String::new();
    let mut i: usize = 0;
    while i < spellings.len()
        invariant
            i <= spellings@.len(),
            out@ == quoted_list(views(spellings@.take(i as int))),
        decreases spellings@.len() - i,
    {
        if i > 0 {
            out.append(", ");
        }
        out.append("`");
        out.append(spellings[i]);
        out.append("`");
        proof {
            let next = views(spellings@.take(i + 1));
            assert(next.drop_last() =~= views(spellings@.take(i as int)));
            assert(next.last() == spellings@[i as int]@);
        }
        i = i + 1;
    }
    assert(spellings@.take(spellings@.len() as int) =~= spellings@);
    out
}

} // verus!

verus! {

/// The text of one decimal digit.
pub open spec fn digit_text(d: int) -> Seq<char> {
    if d == 0 {
        "0"@
    } else if d == 1 {
        "1"@
    } else if d == 2 {
        "2"@
    } else if d == 3 {
        "3"@
    } else if d == 4 {
        "4"@
    } else if d == 5 {
        "5"@
    } else if d == 6 {
        "6"@
    } else if d == 7 {
        "7"@
    } else if d == 8 {
        "8"@
    } else {
        "9"@
    }
}

/// A number written in decimal, most significant digit first, with no leading zeros.
pub open spec fn decimal(n: nat) -> Seq<char>
    decreases n,
{
    if n < 10 {
        digit_text(n as int)
    } else {
        decimal(n / 10) + digit_text((n % 10) as int)
    }
}

fn digit(d: usize) -> (r: &'static str)
    requires
        d < 10,
    ensures
        r@ == digit_text(d as int),
{
    if d == 0 {
        "0"
    } else if d == 1 {
        "1"
    } else if d == 2 {
        "2"
    } else if d == 3 {
        "3"
    } else if d == 4 {
        "4"
    } else if d == 5 {
        "5"
    } else if d == 6 {
        "6"
    } else if d == 7 {
        "7"
    } else if d == 8 {
        "8"
    } else {
        "9"
    }
}

/// `n` in decimal - what `Display for usize` writes.
pub fn to_decimal(n: usize) -> (r: String)
    ensures
        r@ == decimal(n as nat),
    decreases n,
{
    if n < 10 {
        digit(n).to_string()
    } else {
        let mut out = to_decimal(n / 10);
        out.append(digit(n % 10));
        out
    }
}

} // verus!
