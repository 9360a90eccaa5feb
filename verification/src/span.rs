//! Which texts can be read as a span of time.
//!
//! A span is written as numbers with units, such as `1hour 12min 5s`, and is
//! added up number by number. A sum that comes to 2^64 seconds because parts of
//! a second make up a whole one is the one thing that cannot be dealt with;
//! anything else that is too long is an ordinary error.

use vstd::prelude::*;

use crate::text;

verus! {

/// The nanoseconds in 2^64 seconds.
pub const LIMIT: u128 = 18_446_744_073_709_551_616_000_000_000;

/// How many nanoseconds a unit has; none if there is no such unit.
pub open spec fn unit_nanos(unit: Seq<char>) -> nat {
    if unit == "nanos"@ || unit == "nsec"@ || unit == "ns"@ {
        1
    } else if unit == "usec"@ || unit == "us"@ || unit == "\u{b5}s"@ {
        1_000
    } else if unit == "millis"@ || unit == "msec"@ || unit == "ms"@ {
        1_000_000
    } else if unit == "seconds"@ || unit == "second"@ || unit == "secs"@ || unit == "sec"@ || unit
        == "s"@ {
        1_000_000_000
    } else if unit == "minutes"@ || unit == "minute"@ || unit == "min"@ || unit == "mins"@ || unit
        == "m"@ {
        60_000_000_000
    } else if unit == "hours"@ || unit == "hour"@ || unit == "hr"@ || unit == "hrs"@ || unit
        == "h"@ {
        3_600_000_000_000
    } else if unit == "days"@ || unit == "day"@ || unit == "d"@ {
        86_400_000_000_000
    } else if unit == "weeks"@ || unit == "week"@ || unit == "wk"@ || unit == "wks"@ || unit
        == "w"@ {
        604_800_000_000_000
    } else if unit == "months"@ || unit == "month"@ || unit == "M"@ {
        2_630_016_000_000_000
    } else if unit == "years"@ || unit == "year"@ || unit == "yr"@ || unit == "yrs"@ || unit
        == "y"@ {
        31_557_600_000_000_000
    } else {
        0
    }
}

pub open spec fn is_digit(c: char) -> bool {
    '0' <= c <= '9'
}

/// A character that the name of a unit can have.
pub open spec fn is_unit_char(c: char) -> bool {
    'a' <= c <= 'z' || 'A' <= c <= 'Z' || c == '\u{b5}'
}

/// White space as Unicode has it.
pub open spec fn is_space(c: char) -> bool {
    '\u{9}' <= c <= '\u{d}' || c == ' ' || c == '\u{85}' || c == '\u{a0}' || c == '\u{1680}'
        || '\u{2000}' <= c <= '\u{200a}' || c == '\u{2028}' || c == '\u{2029}' || c == '\u{202f}'
        || c == '\u{205f}' || c == '\u{3000}'
}

/// What is being read.
#[derive(Clone, Copy, Debug, PartialEq, Eq, Structural)]
pub enum Place {
    /// Nothing of a number yet.
    Start,
    /// A number, before any decimal point.
    Whole,
    /// A number, behind its decimal point.
    Fraction,
    Unit,
}

/// How far a text has been read.
pub struct Progress {
    pub place: Place,
    /// The number before the unit, without what follows a decimal point.
    pub number: nat,
    /// What follows the decimal point, in parts of `scale`, which is one if
    /// nothing does.
    pub part: nat,
    pub scale: nat,
    /// The unit as far as it has come.
    pub unit: Seq<char>,
    /// The nanoseconds that the units before amount to.
    pub total: nat,
    /// Whether the text can be read, once that does not depend on the rest: it
    /// is in error, or its sum cannot be dealt with.
    pub verdict: Option<bool>,
}

/// Nothing has been read.
pub open spec fn unread() -> Progress {
    Progress {
        place: Place::Start,
        number: 0,
        part: 0,
        scale: 1,
        unit: seq![],
        total: 0,
        verdict: None,
    }
}

/// The text is in error here.
pub open spec fn in_error(p: Progress) -> Progress {
    Progress { verdict: Some(true), ..p }
}

/// Nanoseconds are added to the sum, `below` of them given as parts of a second.
/// These have to fit in 64 bits together with those of the sum. A sum from the
/// limit on is an error, unless it is on the limit because the parts of a second
/// make up exactly one.
pub open spec fn added(p: Progress, nanos: nat, below: nat) -> Progress {
    let parts = p.total % 1_000_000_000 + below;
    let total = p.total + nanos;
    Progress {
        total,
        verdict: if below > u64::MAX || parts > u64::MAX {
            Some(true)
        } else if total < LIMIT {
            None
        } else {
            Some(total > LIMIT || parts != 1_000_000_000)
        },
        ..p
    }
}

/// A number and its unit are complete. A unit that does not exist is an error.
/// So is a fraction that is not a whole number of seconds or, of units up to a
/// minute, of nanoseconds, or whose count of those before division does not fit
/// in 64 bits.
pub open spec fn unit_ended(p: Progress) -> Progress {
    let size = unit_nanos(p.unit);
    let whole = added(
        p,
        p.number * size,
        if size < 1_000_000_000 {
            p.number * size
        } else {
            0
        },
    );
    // The nanoseconds in what the fraction is counted in.
    let grain: nat = if size <= 60_000_000_000 {
        1
    } else {
        1_000_000_000
    };
    let count = p.part * (size / grain);
    let end = if size == 0 {
        in_error(p)
    } else if whole.verdict is Some || p.scale <= 1 {
        whole
    } else if size == 1 || count > u64::MAX || count % p.scale != 0 {
        in_error(whole)
    } else {
        let nanos = count / p.scale * grain;
        added(
            whole,
            nanos,
            if grain == 1 {
                nanos
            } else {
                0
            },
        )
    };
    Progress { number: 0, part: 0, scale: 1, unit: seq![], place: Place::Start, ..end }
}

/// One more digit of a number before its decimal point. A number that does not
/// fit in 64 bits is an error.
pub open spec fn with_digit(p: Progress, c: char) -> Progress {
    let number = p.number * 10 + (c as nat - '0' as nat) as nat;
    let p = Progress { place: Place::Whole, number, ..p };
    if number > u64::MAX {
        in_error(p)
    } else {
        p
    }
}

/// One more digit behind a decimal point. A fraction with more digits than a
/// power of ten in 64 bits has is an error.
pub open spec fn with_fraction_digit(p: Progress, c: char) -> Progress {
    let part = p.part * 10 + (c as nat - '0' as nat) as nat;
    let p = Progress { part, scale: p.scale * 10, ..p };
    if p.scale > u64::MAX {
        in_error(p)
    } else {
        p
    }
}

/// One more character has been read.
pub open spec fn read_char(p: Progress, c: char) -> Progress {
    if p.verdict is Some {
        p
    } else if is_digit(c) {
        match p.place {
            Place::Start | Place::Whole => with_digit(p, c),
            Place::Fraction => with_fraction_digit(p, c),
            Place::Unit => {
                let next = unit_ended(p);
                if next.verdict is Some {
                    next
                } else {
                    with_digit(next, c)
                }
            },
        }
    } else if is_space(c) {
        if p.place == Place::Unit {
            unit_ended(p)
        } else {
            p
        }
    } else if is_unit_char(c) {
        if p.place == Place::Start || (p.place == Place::Fraction && p.scale <= 1) {
            in_error(p)
        } else {
            Progress { place: Place::Unit, unit: p.unit.push(c), ..p }
        }
    } else if c == '.' && p.place == Place::Whole {
        Progress { place: Place::Fraction, ..p }
    } else {
        in_error(p)
    }
}

/// How far a text has been read at its end.
pub open spec fn progress(input: Seq<char>) -> Progress
    decreases input.len(),
{
    if input.len() == 0 {
        unread()
    } else {
        read_char(progress(input.drop_last()), input.last())
    }
}

/// The text can be read as a span of time, or it can be said what is wrong with
/// it: its numbers do not come to 2^64 seconds by parts of a second that make up
/// a whole one.
pub open spec fn readable(input: Seq<char>) -> bool {
    let p = progress(input);
    let end = if p.verdict is None && p.place == Place::Unit {
        unit_ended(p)
    } else {
        p
    };
    end.verdict != Some(false)
}

/// Whether the characters are those of a text.
fn same_chars(chars: &Vec<char>, text: &str) -> (same: bool)
    ensures
        same == (chars@ == text@),
{
    let mut i: usize = 0;
    for c in it: text.chars()
        invariant
            it.seq() == text@,
            i == it.index(),
            i <= chars@.len(),
            forall|j: int| 0 <= j < i ==> chars@[j] == text@[j],
    {
        if i >= chars.len() || chars[i] != c {
            return false;
        }
        i += 1;
    }
    assert(i == chars@.len() ==> chars@ =~= text@);
    i == chars.len()
}

/// How many nanoseconds a unit has; none if there is no such unit.
fn nanos_of(unit: &Vec<char>) -> (size: u64)
    ensures
        size == unit_nanos(unit@),
        size <= 31_557_600_000_000_000,
{
    if same_chars(unit, "nanos") || same_chars(unit, "nsec") || same_chars(unit, "ns") {
        1
    } else if same_chars(unit, "usec") || same_chars(unit, "us") || same_chars(unit, "\u{b5}s") {
        1_000
    } else if same_chars(unit, "millis") || same_chars(unit, "msec") || same_chars(unit, "ms") {
        1_000_000
    } else if same_chars(unit, "seconds") || same_chars(unit, "second") || same_chars(unit, "secs")
        || same_chars(unit, "sec") || same_chars(unit, "s") {
        1_000_000_000
    } else if same_chars(unit, "minutes") || same_chars(unit, "minute") || same_chars(unit, "min")
        || same_chars(unit, "mins") || same_chars(unit, "m") {
        60_000_000_000
    } else if same_chars(unit, "hours") || same_chars(unit, "hour") || same_chars(unit, "hr")
        || same_chars(unit, "hrs") || same_chars(unit, "h") {
        3_600_000_000_000
    } else if same_chars(unit, "days") || same_chars(unit, "day") || same_chars(unit, "d") {
        86_400_000_000_000
    } else if same_chars(unit, "weeks") || same_chars(unit, "week") || same_chars(unit, "wk")
        || same_chars(unit, "wks") || same_chars(unit, "w") {
        604_800_000_000_000
    } else if same_chars(unit, "months") || same_chars(unit, "month") || same_chars(unit, "M") {
        2_630_016_000_000_000
    } else if same_chars(unit, "years") || same_chars(unit, "year") || same_chars(unit, "yr")
        || same_chars(unit, "yrs") || same_chars(unit, "y") {
        31_557_600_000_000_000
    } else {
        0
    }
}

/// How far a text has been read while nothing is decided.
struct Scan {
    place: Place,
    number: u64,
    part: u64,
    scale: u64,
    unit: Vec<char>,
    total: u128,
}

/// What fits in 64 bits.
const MOST: u128 = 18_446_744_073_709_551_615;

impl Scan {
    spec fn shows(&self, p: Progress) -> bool {
        &&& p.verdict is None
        &&& self.place == p.place
        &&& self.number == p.number
        &&& self.part == p.part
        &&& self.scale == p.scale
        &&& self.unit@ == p.unit
        &&& self.total == p.total
        &&& p.total < LIMIT
        &&& p.part < p.scale
    }

    /// Adds to the sum; gives the verdict if there is one.
    fn add_nanos(&mut self, nanos: u128, below: u128, Ghost(p): Ghost<Progress>) -> (verdict: Option<
        bool,
    >)
        requires
            old(self).shows(p),
            below <= nanos <= 1_000_000_000_000_000_000_000_000_000_000_000_000,
        ensures
            verdict == added(p, nanos as nat, below as nat).verdict,
            verdict is None ==> final(self).shows(added(p, nanos as nat, below as nat)),
    {
        let parts: u128 = self.total % 1_000_000_000 + below;
        self.total = self.total + nanos;
        if below > MOST || parts > MOST {
            Some(true)
        } else if self.total < LIMIT {
            None
        } else {
            Some(self.total > LIMIT || parts != 1_000_000_000)
        }
    }

    /// Takes up a number and its unit; gives the verdict if there is one.
    fn end_unit(&mut self, Ghost(p): Ghost<Progress>) -> (verdict: Option<bool>)
        requires
            old(self).shows(p),
        ensures
            verdict == unit_ended(p).verdict,
            verdict is None ==> final(self).shows(unit_ended(p)),
    {
        let size: u128 = nanos_of(&self.unit) as u128;
        if size == 0 {
            return Some(true);
        }
        let number: u128 = self.number as u128;
        proof {
            lemma_product(number as nat, size as nat);
        }
        let amount: u128 = number * size;
        let below: u128 = if size < 1_000_000_000 {
            amount
        } else {
            0
        };
        let ghost whole = added(p, amount as nat, below as nat);
        if let Some(verdict) = self.add_nanos(amount, below, Ghost(p)) {
            return Some(verdict);
        }
        if self.scale > 1 {
            let grain: u128 = if size <= 60_000_000_000 {
                1
            } else {
                1_000_000_000
            };
            let part: u128 = self.part as u128;
            proof {
                lemma_product(part as nat, (size / grain) as nat);
            }
            let count: u128 = part * (size / grain);
            let scale: u128 = self.scale as u128;
            if size == 1 || count > MOST || count % scale != 0 {
                return Some(true);
            }
            assert(count / scale <= count) by (nonlinear_arith)
                requires
                    scale > 0,
            ;
            let nanos: u128 = count / scale * grain;
            let below: u128 = if size <= 60_000_000_000 {
                nanos
            } else {
                0
            };
            if let Some(verdict) = self.add_nanos(nanos, below, Ghost(whole)) {
                return Some(verdict);
            }
        }
        self.place = Place::Start;
        self.number = 0;
        self.part = 0;
        self.scale = 1;
        self.unit = Vec::new();
        assert(self.unit@ =~= seq![]);
        None
    }

    /// Takes up a digit of a number before its decimal point; says whether the
    /// number still fits.
    fn push_digit(&mut self, c: char, Ghost(p): Ghost<Progress>) -> (fits: bool)
        requires
            old(self).shows(p),
            is_digit(c),
        ensures
            fits == (with_digit(p, c).verdict is None),
            fits ==> final(self).shows(with_digit(p, c)),
    {
        let number: u128 = self.number as u128 * 10 + (c as u128 - '0' as u128);
        if number > MOST {
            return false;
        }
        self.number = number as u64;
        self.place = Place::Whole;
        true
    }

    /// Takes up a digit behind a decimal point; says whether the fraction still
    /// fits.
    fn push_fraction_digit(&mut self, c: char, Ghost(p): Ghost<Progress>) -> (fits: bool)
        requires
            old(self).shows(p),
            is_digit(c),
        ensures
            fits == (with_fraction_digit(p, c).verdict is None),
            fits ==> final(self).shows(with_fraction_digit(p, c)),
    {
        let scale: u128 = self.scale as u128 * 10;
        if scale > MOST {
            return false;
        }
        self.part = (self.part as u128 * 10 + (c as u128 - '0' as u128)) as u64;
        self.scale = scale as u64;
        true
    }

    /// Takes up a character; gives the verdict if there is one.
    fn push(&mut self, c: char, Ghost(p): Ghost<Progress>) -> (verdict: Option<bool>)
        requires
            old(self).shows(p),
        ensures
            verdict == read_char(p, c).verdict,
            verdict is None ==> final(self).shows(read_char(p, c)),
    {
        if '0' <= c && c <= '9' {
            let ghost mut here = p;
            if self.place == Place::Unit {
                if let Some(verdict) = self.end_unit(Ghost(p)) {
                    return Some(verdict);
                }
                proof {
                    here = unit_ended(p);
                }
            }
            let fits = if self.place == Place::Fraction {
                self.push_fraction_digit(c, Ghost(here))
            } else {
                self.push_digit(c, Ghost(here))
            };
            if fits {
                None
            } else {
                Some(true)
            }
        } else if is_white(c) {
            if self.place == Place::Unit {
                self.end_unit(Ghost(p))
            } else {
                None
            }
        } else if ('a' <= c && c <= 'z') || ('A' <= c && c <= 'Z') || c == '\u{b5}' {
            if self.place == Place::Start || (self.place == Place::Fraction && self.scale <= 1) {
                return Some(true);
            }
            self.place = Place::Unit;
            self.unit.push(c);
            None
        } else if c == '.' && self.place == Place::Whole {
            self.place = Place::Fraction;
            None
        } else {
            Some(true)
        }
    }
}

fn is_white(c: char) -> (yes: bool)
    ensures
        yes == is_space(c),
{
    ('\u{9}' <= c && c <= '\u{d}') || c == ' ' || c == '\u{85}' || c == '\u{a0}' || c == '\u{1680}'
        || ('\u{2000}' <= c && c <= '\u{200a}') || c == '\u{2028}' || c == '\u{2029}' || c
        == '\u{202f}' || c == '\u{205f}' || c == '\u{3000}'
}

/// Numbers of 64 bits times the size of a unit.
proof fn lemma_product(number: nat, size: nat)
    requires
        number <= u64::MAX,
        size <= 31_557_600_000_000_000,
    ensures
        number * size <= 1_000_000_000_000_000_000_000_000_000_000_000_000,
{
    assert(number * size <= 18_446_744_073_709_551_615 * 31_557_600_000_000_000)
        by (nonlinear_arith)
        requires
            number <= 18_446_744_073_709_551_615,
            size <= 31_557_600_000_000_000,
    ;
}

/// Once there is a verdict, it stays.
proof fn lemma_verdict_stays(input: Seq<char>, k: int)
    requires
        0 <= k <= input.len(),
        progress(input.take(k)).verdict is Some,
    ensures
        progress(input).verdict == progress(input.take(k)).verdict,
    decreases input.len() - k,
{
    if k == input.len() {
        assert(input.take(k) =~= input);
    } else {
        assert(input.take(k + 1).drop_last() =~= input.take(k));
        lemma_verdict_stays(input, k + 1);
    }
}

/// Says whether a text can be read as a span of time.
pub fn is_readable(input: &str) -> (yes: bool)
    ensures
        yes == readable(input@),
{
    let mut scan = Scan {
        place: Place::Start,
        number: 0,
        part: 0,
        scale: 1,
        unit: Vec::new(),
        total: 0,
    };
    assert(scan.unit@ =~= seq![]);
    assert(input@.take(0) =~= Seq::<char>::empty());
    for c in it: input.chars()
        invariant
            it.seq() == input@,
            scan.shows(progress(input@.take(it.index() as int))),
    {
        let ghost k = it.index() as int;
        proof {
            assert(input@.take(k + 1).drop_last() =~= input@.take(k));
            assert(input@.take(k + 1).last() == c);
        }
        if let Some(verdict) = scan.push(c, Ghost(progress(input@.take(k)))) {
            proof {
                lemma_verdict_stays(input@, k + 1);
            }
            return verdict;
        }
    }
    assert(input@.take(input@.len() as int) =~= input@);
    if scan.place == Place::Unit {
        if let Some(verdict) = scan.end_unit(Ghost(progress(input@))) {
            return verdict;
        }
    }
    true
}

/// The nanoseconds in a year, which is the longest unit.
pub open spec fn year() -> int {
    31_557_600_000_000_000
}

/// How many digits a text has.
pub open spec fn digits_in(input: Seq<char>) -> nat
    decreases input.len(),
{
    if input.len() == 0 {
        0
    } else {
        digits_in(input.drop_last()) + if '0' <= input.last() <= '9' {
            1nat
        } else {
            0nat
        }
    }
}

/// The first number with more than `d` digits.
spec fn ten(d: nat) -> int
    decreases d,
{
    if d == 0 {
        1
    } else {
        10 * ten((d - 1) as nat)
    }
}

/// What has been read with `d` digits is less than as many years as `d` digits
/// can say.
spec fn within(p: Progress, d: nat) -> bool {
    &&& p.verdict != Some(false)
    &&& p.verdict is None ==> {
        &&& p.scale >= 1
        &&& p.part < p.scale
        &&& p.place == Place::Start ==> p.number == 0
        &&& p.place == Place::Start || p.place == Place::Whole ==> p.scale == 1
        &&& p.total + p.number * year() + year() <= ten(d) * year()
        &&& p.scale > 1 ==> p.total + p.number * year() + 2 * year() <= ten(d) * year()
    }
}

proof fn lemma_ten(d: nat)
    requires
        d <= 11,
    ensures
        1 <= ten(d),
        ten(d) * year() < LIMIT,
{
    reveal_with_fuel(ten, 12);
}

proof fn lemma_within_unit(p: Progress, d: nat)
    requires
        within(p, d),
        p.verdict is None,
        d <= 11,
    ensures
        within(unit_ended(p), d),
        unit_ended(p).place == Place::Start,
{
    lemma_ten(d);
    let size = unit_nanos(p.unit);
    assert(0 <= p.number * size <= p.number * year()) by (nonlinear_arith)
        requires
            0 <= size <= year(),
            p.number >= 0,
    ;
    let grain: nat = if size <= 60_000_000_000 {
        1
    } else {
        1_000_000_000
    };
    let each = size / grain;
    let count = p.part * each;
    if size > 0 && p.scale > 1 {
        assert(0 <= count / p.scale <= each) by (nonlinear_arith)
            requires
                count == p.part * each,
                0 <= p.part < p.scale,
                each >= 0,
        ;
        let quotient = count / p.scale;
        assert(0 <= quotient * grain <= each * grain) by (nonlinear_arith)
            requires
                0 <= quotient <= each,
                grain >= 0,
        ;
        assert(each * grain <= size) by (nonlinear_arith)
            requires
                each == size / grain,
                grain >= 1,
        ;
    }
}

proof fn lemma_within_digit(p: Progress, d: nat, c: char)
    requires
        within(p, d),
        p.verdict is None,
        p.place == Place::Start || p.place == Place::Whole,
        '0' <= c <= '9',
    ensures
        within(with_digit(p, c), d + 1),
{
    let digit = c as nat - '0' as nat;
    let number = p.number * 10 + digit;
    assert(ten(d + 1) == 10 * ten(d));
    assert(p.total + number * year() + year() <= 10 * ten(d) * year()) by (nonlinear_arith)
        requires
            number == p.number * 10 + digit,
            0 <= digit <= 9,
            p.total >= 0,
            p.total + p.number * year() + year() <= ten(d) * year(),
    ;
}

proof fn lemma_within(input: Seq<char>)
    requires
        digits_in(input) <= 11,
    ensures
        within(progress(input), digits_in(input)),
    decreases input.len(),
{
    if input.len() == 0 {
        lemma_ten(0);
    } else {
        let before = input.drop_last();
        let c = input.last();
        let p = progress(before);
        let d = digits_in(before);
        lemma_within(before);
        if p.verdict is None {
            lemma_within_unit(p, d);
            if is_digit(c) {
                lemma_ten(d);
                assert(ten(d + 1) == 10 * ten(d));
                match p.place {
                    Place::Start | Place::Whole => lemma_within_digit(p, d, c),
                    Place::Fraction => {
                        let digit = c as nat - '0' as nat;
                        assert(p.part * 10 + digit < p.scale * 10);
                        assert(p.total + p.number * year() + 2 * year() <= 10 * ten(d) * year());
                    },
                    Place::Unit => {
                        let next = unit_ended(p);
                        if next.verdict is None {
                            lemma_within_digit(next, d, c);
                        }
                    },
                }
            }
        }
    }
}

/// A text with no more than eleven digits can always be read, or it can be said
/// what is wrong with it, whatever stands in it: only sums of many billions of
/// years cannot be dealt with.
pub proof fn law_short_text_is_readable(input: &str, yes: bool)
    requires
        digits_in(input@) <= 11,
        call_ensures(is_readable, (input,), yes),
    ensures
        yes,
{
    lemma_short_text(input@);
}

pub proof fn lemma_short_text(input: Seq<char>)
    requires
        digits_in(input) <= 11,
    ensures
        readable(input),
{
    lemma_within(input);
    let p = progress(input);
    if p.verdict is None && p.place == Place::Unit {
        lemma_within_unit(p, digits_in(input));
    }
}

/// A text is refused only if its sum comes to exactly 2^64 seconds.
pub proof fn law_refused_sum_is_at_the_limit(input: Seq<char>)
    requires
        !readable(input),
    ensures
        progress(input).total == 18_446_744_073_709_551_616_000_000_000 || unit_ended(
            progress(input),
        ).total == 18_446_744_073_709_551_616_000_000_000,
{
    lemma_landed(input);
}

proof fn lemma_landed(input: Seq<char>)
    ensures
        progress(input).verdict == Some(false) ==> progress(input).total == LIMIT,
    decreases input.len(),
{
    if input.len() > 0 {
        lemma_landed(input.drop_last());
    }
}

/// A number with its unit.
pub struct Term {
    pub number: u64,
    pub unit: Seq<char>,
}

/// A span as it is written: each number, its unit, and a space.
pub open spec fn written(terms: Seq<Term>) -> Seq<char>
    decreases terms.len(),
{
    if terms.len() == 0 {
        seq![]
    } else {
        (written(terms.drop_last()) + text::decimal(terms.last().number as nat)
            + terms.last().unit).push(' ')
    }
}

/// What a span amounts to, in nanoseconds.
pub open spec fn amount(terms: Seq<Term>) -> int
    decreases terms.len(),
{
    if terms.len() == 0 {
        0
    } else {
        amount(terms.drop_last()) + terms.last().number * unit_nanos(terms.last().unit)
    }
}

/// Reads on in a text.
spec fn read_on(p: Progress, input: Seq<char>) -> Progress
    decreases input.len(),
{
    if input.len() == 0 {
        p
    } else {
        read_char(read_on(p, input.drop_last()), input.last())
    }
}

proof fn lemma_read_on(before: Seq<char>, input: Seq<char>)
    ensures
        progress(before + input) == read_on(progress(before), input),
    decreases input.len(),
{
    if input.len() == 0 {
        assert(before + input =~= before);
    } else {
        lemma_read_on(before, input.drop_last());
        assert((before + input).drop_last() =~= before + input.drop_last());
    }
}

proof fn lemma_read_number(p: Progress, n: nat)
    requires
        p.verdict is None,
        p.place == Place::Start,
        p.number == 0,
        n <= u64::MAX,
    ensures
        read_on(p, text::decimal(n)) == (Progress { place: Place::Whole, number: n, ..p }),
    decreases n,
{
    let input = text::decimal(n);
    if n >= 10 {
        lemma_read_number(p, n / 10);
        assert(input.drop_last() =~= text::decimal(n / 10));
        assert(input.last() == text::digit(n % 10));
    } else {
        assert(input.drop_last() =~= seq![]);
        assert(read_on(p, seq![]) == p);
        assert(input.last() == text::digit(n));
    }
}

proof fn lemma_unit_chars(unit: Seq<char>)
    requires
        unit_nanos(unit) > 0,
    ensures
        unit.len() > 0,
        forall|i: int| 0 <= i < unit.len() ==> is_unit_char(#[trigger] unit[i]),
{
    reveal_strlit("nanos");
    reveal_strlit("nsec");
    reveal_strlit("ns");
    reveal_strlit("usec");
    reveal_strlit("us");
    reveal_strlit("\u{b5}s");
    reveal_strlit("millis");
    reveal_strlit("msec");
    reveal_strlit("ms");
    reveal_strlit("seconds");
    reveal_strlit("second");
    reveal_strlit("secs");
    reveal_strlit("sec");
    reveal_strlit("s");
    reveal_strlit("minutes");
    reveal_strlit("minute");
    reveal_strlit("min");
    reveal_strlit("mins");
    reveal_strlit("m");
    reveal_strlit("hours");
    reveal_strlit("hour");
    reveal_strlit("hr");
    reveal_strlit("hrs");
    reveal_strlit("h");
    reveal_strlit("days");
    reveal_strlit("day");
    reveal_strlit("d");
    reveal_strlit("weeks");
    reveal_strlit("week");
    reveal_strlit("wk");
    reveal_strlit("wks");
    reveal_strlit("w");
    reveal_strlit("months");
    reveal_strlit("month");
    reveal_strlit("M");
    reveal_strlit("years");
    reveal_strlit("year");
    reveal_strlit("yr");
    reveal_strlit("yrs");
    reveal_strlit("y");
}

proof fn lemma_read_unit(p: Progress, unit: Seq<char>)
    requires
        p.verdict is None,
        p.place == Place::Whole,
        p.unit.len() == 0,
        forall|i: int| 0 <= i < unit.len() ==> is_unit_char(#[trigger] unit[i]),
    ensures
        unit.len() > 0 ==> read_on(p, unit) == (Progress { place: Place::Unit, unit, ..p }),
    decreases unit.len(),
{
    if unit.len() > 0 {
        let before = unit.drop_last();
        assert forall|i: int| 0 <= i < before.len() implies is_unit_char(#[trigger] before[i]) by {
            assert(before[i] == unit[i]);
        }
        lemma_read_unit(p, before);
        assert(is_unit_char(unit[unit.len() - 1]));
        assert(before.push(unit.last()) =~= unit);
        if before.len() == 0 {
            assert(read_on(p, before) == p);
            assert(p.unit.push(unit.last()) =~= unit);
        }
    }
}

/// Reading a span that is written goes on term by term.
proof fn lemma_read_term(terms: Seq<Term>)
    requires
        terms.len() > 0,
        unit_nanos(terms.last().unit) > 0,
        progress(written(terms.drop_last())).verdict is None,
        progress(written(terms.drop_last())).place == Place::Start,
        progress(written(terms.drop_last())).number == 0,
        progress(written(terms.drop_last())).unit.len() == 0,
    ensures
        progress(written(terms)) == unit_ended(
            Progress {
                place: Place::Unit,
                number: terms.last().number as nat,
                unit: terms.last().unit,
                ..progress(written(terms.drop_last()))
            },
        ),
{
    let before = written(terms.drop_last());
    let number = text::decimal(terms.last().number as nat);
    let unit = terms.last().unit;
    lemma_unit_chars(unit);
    lemma_read_on(before, number);
    lemma_read_number(progress(before), terms.last().number as nat);
    lemma_read_on(before + number, unit);
    lemma_read_unit(progress(before + number), unit);
    assert(written(terms).drop_last() =~= before + number + unit);
    assert(written(terms).last() == ' ');
}

proof fn lemma_read_terms(terms: Seq<Term>)
    requires
        forall|i: int| 0 <= i < terms.len() ==> unit_nanos((#[trigger] terms[i]).unit) > 0,
        amount(terms) < LIMIT,
    ensures
        amount(terms) >= 0,
        ({
            let p = progress(written(terms));
            &&& p.verdict != Some(false)
            &&& p.verdict is None ==> p.place == Place::Start && p.number == 0 && p.unit.len() == 0
                && p.scale == 1 && p.total == amount(terms)
        }),
    decreases terms.len(),
{
    if terms.len() > 0 {
        let before = terms.drop_last();
        let last = terms.last();
        assert forall|i: int| 0 <= i < before.len() implies unit_nanos(
            (#[trigger] before[i]).unit,
        ) > 0 by {
            assert(before[i] == terms[i]);
        }
        assert(last == terms[terms.len() - 1]);
        assert(0 <= last.number * unit_nanos(last.unit)) by (nonlinear_arith)
            requires
                last.number >= 0,
                unit_nanos(last.unit) >= 0,
        ;
        lemma_read_terms(before);
        let p = progress(written(before));
        if p.verdict is None {
            lemma_read_term(terms);
        } else {
            lemma_verdict_kept(written(before), written(terms));
        }
    }
}

proof fn lemma_verdict_kept(before: Seq<char>, input: Seq<char>)
    requires
        progress(before).verdict is Some,
        before.is_prefix_of(input),
    ensures
        progress(input) == progress(before),
    decreases input.len(),
{
    if input.len() > before.len() {
        assert(before =~= input.drop_last().subrange(0, before.len() as int));
        lemma_verdict_kept(before, input.drop_last());
    } else {
        assert(before =~= input);
    }
}

/// A span that is written with existing units and amounts to less than 2^64
/// seconds can be read.
pub proof fn law_written_span_is_readable(terms: Seq<Term>, input: &str, yes: bool)
    requires
        forall|i: int| 0 <= i < terms.len() ==> unit_nanos((#[trigger] terms[i]).unit) > 0,
        amount(terms) < 18_446_744_073_709_551_616_000_000_000,
        input@ == written(terms),
        call_ensures(is_readable, (input,), yes),
    ensures
        yes,
{
    lemma_read_terms(terms);
}

/// A span that comes to 2^64 seconds because parts of a second make up a whole
/// one is refused: whichever terms come before, and whatever follows.
pub proof fn law_landing_span_is_refused(
    terms: Seq<Term>,
    rest: Seq<char>,
    input: &str,
    yes: bool,
)
    requires
        terms.len() > 0,
        forall|i: int|
            0 <= i < terms.len() ==> ((#[trigger] terms[i]).unit == "s"@ || (terms[i].unit == "ns"@
                && terms[i].number <= 1_000_000_000)),
        terms.last().unit == "ns"@,
        amount(terms.drop_last()) < 18_446_744_073_709_551_616_000_000_000,
        amount(terms.drop_last()) % 1_000_000_000 + terms.last().number == 1_000_000_000,
        amount(terms) == 18_446_744_073_709_551_616_000_000_000,
        input@ == written(terms) + rest,
        call_ensures(is_readable, (input,), yes),
    ensures
        !yes,
{
    let before = terms.drop_last();
    assert(terms[terms.len() - 1] == terms.last());
    lemma_seconds();
    assert forall|i: int| 0 <= i < before.len() implies ((#[trigger] before[i]).unit == "s"@ || (
    before[i].unit == "ns"@ && before[i].number <= 1_000_000_000)) by {
        assert(before[i] == terms[i]);
    }
    lemma_read_seconds(before);
    lemma_read_term(terms);
    let p = progress(written(terms));
    assert(p.verdict == Some(false));
    assert(written(terms) =~= input@.subrange(0, written(terms).len() as int));
    lemma_verdict_kept(written(terms), input@);
}

proof fn lemma_read_seconds(terms: Seq<Term>)
    requires
        forall|i: int|
            0 <= i < terms.len() ==> ((#[trigger] terms[i]).unit == "s"@ || (terms[i].unit == "ns"@
                && terms[i].number <= 1_000_000_000)),
        amount(terms) < LIMIT,
    ensures
        amount(terms) >= 0,
        ({
            let p = progress(written(terms));
            &&& p.verdict is None
            &&& p.place == Place::Start && p.number == 0 && p.unit.len() == 0 && p.scale == 1
            &&& p.total == amount(terms)
        }),
    decreases terms.len(),
{
    lemma_seconds();
    if terms.len() > 0 {
        let before = terms.drop_last();
        assert forall|i: int| 0 <= i < before.len() implies ((#[trigger] before[i]).unit == "s"@
            || (before[i].unit == "ns"@ && before[i].number <= 1_000_000_000)) by {
            assert(before[i] == terms[i]);
        }
        assert(terms[terms.len() - 1] == terms.last());
        lemma_read_seconds(before);
        lemma_read_term(terms);
    }
}

proof fn lemma_seconds()
    ensures
        unit_nanos("ns"@) == 1,
        unit_nanos("s"@) == 1_000_000_000,
{
    reveal_strlit("nanos");
    reveal_strlit("nsec");
    reveal_strlit("ns");
    reveal_strlit("usec");
    reveal_strlit("us");
    reveal_strlit("\u{b5}s");
    reveal_strlit("millis");
    reveal_strlit("msec");
    reveal_strlit("ms");
    reveal_strlit("seconds");
    reveal_strlit("second");
    reveal_strlit("secs");
    reveal_strlit("sec");
    reveal_strlit("s");
    reveal_strlit("minutes");
    reveal_strlit("minute");
    reveal_strlit("min");
    reveal_strlit("mins");
    reveal_strlit("m");
    reveal_strlit("hours");
    reveal_strlit("hour");
    reveal_strlit("hr");
    reveal_strlit("hrs");
    reveal_strlit("h");
    reveal_strlit("days");
    reveal_strlit("day");
    reveal_strlit("d");
    reveal_strlit("weeks");
    reveal_strlit("week");
    reveal_strlit("wk");
    reveal_strlit("wks");
    reveal_strlit("w");
    reveal_strlit("months");
    reveal_strlit("month");
    reveal_strlit("M");
    reveal_strlit("years");
    reveal_strlit("year");
    reveal_strlit("yr");
    reveal_strlit("yrs");
    reveal_strlit("y");
    let s = "s"@;
    assert(s.len() == 1 && s[0] == 's');
    assert("m"@[0] == 'm' && "h"@[0] == 'h' && "d"@[0] == 'd');
}

} // verus!
