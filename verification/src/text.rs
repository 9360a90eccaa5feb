//! Text as the service writes it: decimal numbers, quoted names, and the few
//! string operations that the rest of the crate is built on.

use vstd::prelude::*;

verus! {

/// The decimal digit for `d`.
pub open spec fn digit(d: nat) -> char
    recommends
        d < 10,
{
    (48 + d) as char
}

/// `n` written in decimal, without leading zeros.
pub open spec fn decimal(n: nat) -> Seq<char>
    decreases n,
{
    if n < 10 {
        seq![digit(n)]
    } else {
        decimal(n / 10).push(digit(n % 10))
    }
}

/// A character that may stand in a header value: printable ASCII.
pub open spec fn is_printable(c: char) -> bool {
    ' ' <= c <= '~'
}

/// Every character of `s` is printable ASCII.
pub open spec fn all_printable(s: Seq<char>) -> bool {
    forall|i: int| 0 <= i < s.len() ==> is_printable(#[trigger] s[i])
}

/// How Rust's `{:?}` shows the text `s`: in double quotes, with escapes.
pub uninterp spec fn debug_text(s: Seq<char>) -> Seq<char>;

/// Shows a text as `std::fmt`'s `{:?}` does for `str`, which is a function of
/// the text alone; `debug_text` names it.
#[verifier::external_body]
pub(crate) fn quoted(s: &str) -> (out: String)
    ensures
        out@ == debug_text(s@),
{
    format!("{:?}", s)
}

/// `a` followed by `b`.
pub(crate) fn join2(a: &str, b: &str) -> (out: String)
    ensures
        out@ == a@ + b@,
{
    a.to_owned().concat(b)
}

/// Whether two texts are the same.
pub(crate) fn same_text(a: &str, b: &str) -> (same: bool)
    ensures
        same == (a@ == b@),
{
    let left = a.to_owned();
    let right = b.to_owned();
    left == right
}

/// Whether a list of texts holds `needle`.
pub(crate) fn list_contains(list: &Vec<String>, needle: &str) -> (found: bool)
    ensures
        found == exists|i: int| 0 <= i < list@.len() && (#[trigger] list@[i])@ == needle@,
{
    let mut i: usize = 0;
    while i < list.len()
        invariant
            i <= list@.len(),
            forall|j: int| 0 <= j < i ==> (#[trigger] list@[j])@ != needle@,
        decreases list@.len() - i,
    {
        if same_text(&list[i], needle) {
            return true;
        }
        i += 1;
    }
    false
}

fn digit_text(d: u64) -> (out: &'static str)
    requires
        d < 10,
    ensures
        out@ == seq![digit(d as nat)],
{
    proof {
        reveal_strlit("0");
        reveal_strlit("1");
        reveal_strlit("2");
        reveal_strlit("3");
        reveal_strlit("4");
        reveal_strlit("5");
        reveal_strlit("6");
        reveal_strlit("7");
        reveal_strlit("8");
        reveal_strlit("9");
    }
    match d {
        0 => "0",
        1 => "1",
        2 => "2",
        3 => "3",
        4 => "4",
        5 => "5",
        6 => "6",
        7 => "7",
        8 => "8",
        _ => "9",
    }
}

/// Writes `n` in decimal.
pub fn decimal_text(n: u64) -> (out: String)
    ensures
        out@ == decimal(n as nat),
    decreases n,
{
    let mut out = if n < 10 {
        String::new()
    } else {
        decimal_text(n / 10)
    };
    out.append(digit_text(n % 10));
    out
}

/// A numeral is never empty, and may stand in a header value.
pub proof fn lemma_decimal_printable(n: nat)
    ensures
        0 < decimal(n).len(),
        all_printable(decimal(n)),
    decreases n,
{
    if n >= 10 {
        lemma_decimal_printable(n / 10);
    }
}

/// The number that a row of decimal digits stands for.
pub open spec fn number_of(digits: Seq<char>) -> int
    decreases digits.len(),
{
    if digits.len() == 0 {
        0
    } else {
        number_of(digits.drop_last()) * 10 + (digits.last() as int - '0' as int)
    }
}

pub proof fn lemma_decimal(n: nat)
    ensures
        number_of(decimal(n)) == n,
        decimal(n).len() > 0,
        forall|i: int| 0 <= i < decimal(n).len() ==> '0' <= #[trigger] decimal(n)[i] <= '9',
        n > 0 ==> decimal(n)[0] != '0',
    decreases n,
{
    let text = decimal(n);
    if n >= 10 {
        lemma_decimal(n / 10);
        assert(text.drop_last() =~= decimal(n / 10));
    } else {
        assert(text.drop_last() =~= seq![]);
        assert(number_of(seq![]) == 0);
    }
}

/// A number that is written reads back as itself: it is written in decimal
/// digits, and without zeros in front.
pub proof fn law_written_number_reads_back(n: u64, out: String)
    requires
        call_ensures(decimal_text, (n,), out),
    ensures
        number_of(out@) == n,
        out@.len() > 0,
        forall|i: int| 0 <= i < out@.len() ==> '0' <= #[trigger] out@[i] <= '9',
        out@[0] == '0' ==> n == 0 && out@.len() == 1,
{
    lemma_decimal(n as nat);
}

} // verus!
