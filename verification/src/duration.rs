//! Durations written as in Go: one or more numbers, each followed by a unit (`ns`, `us`,
//! `ms`, `s`, `m`, `h`), such as `1h30m` or `1.5s`. Each component is counted in
//! nanoseconds, rounded to the nearest one (halves up).
use crate::text::{chars_of, count_char, string_of_range, trim, trim_chars};
use crate::text::{debug_quoted, debug_text};
use vstd::prelude::*;

verus! {

/// Why a duration text was refused.
#[derive(Clone, Debug)]
pub enum DurationError {
    /// Nothing but blanks.
    Empty,
    /// A unit without a number in front; holds the (trimmed) text.
    Invalid(String),
    /// A number that is not one: several dots, or a dot alone.
    Number,
    /// A unit that is not one of the six; holds the unit.
    UnknownUnit(String),
}

/// A refused duration, as values.
pub enum DurationErrorView {
    Empty,
    Invalid(Seq<char>),
    Number,
    UnknownUnit(Seq<char>),
}

impl View for DurationError {
    type V = DurationErrorView;

    open spec fn view(&self) -> DurationErrorView {
        match self {
            DurationError::Empty => DurationErrorView::Empty,
            DurationError::Invalid(s) => DurationErrorView::Invalid(s@),
            DurationError::Number => DurationErrorView::Number,
            DurationError::UnknownUnit(u) => DurationErrorView::UnknownUnit(u@),
        }
    }
}

impl DurationError {
    /// The text of the error.
    pub fn message(&self) -> (m: String)
        ensures
            m@ == duration_error_text(self@),
    {
        match self {
            DurationError::Empty => String::from_str("duration is empty"),
            DurationError::Invalid(s) => {
                let mut m = String::from_str("invalid duration ");
                m.append(debug_text(s.as_str()).as_str());
                m
            },
            DurationError::Number => String::from_str("parse duration number"),
            DurationError::UnknownUnit(u) => {
                let mut m = String::from_str("unknown duration unit ");
                m.append(debug_text(u.as_str()).as_str());
                m
            },
        }
    }
}

/// The text of a refused duration.
pub open spec fn duration_error_text(e: DurationErrorView) -> Seq<char> {
    match e {
        DurationErrorView::Empty => "duration is empty"@,
        DurationErrorView::Invalid(s) => "invalid duration "@ + debug_quoted(s),
        DurationErrorView::Number => "parse duration number"@,
        DurationErrorView::UnknownUnit(u) => "unknown duration unit "@ + debug_quoted(u),
    }
}

/// A character of a number: a digit or a dot.
pub open spec fn is_number_char(c: char) -> bool {
    ('0' <= c && c <= '9') || c == '.'
}

/// Where the run of number characters (or, with `number` unset, of other characters)
/// starting at `pos` ends.
pub open spec fn run_end(s: Seq<char>, pos: int, number: bool) -> int
    decreases s.len() - pos,
{
    if pos < 0 || pos >= s.len() || is_number_char(s[pos]) != number {
        pos
    } else {
        run_end(s, pos + 1, number)
    }
}

/// The nanoseconds in one unit.
pub open spec fn unit_nanos(u: Seq<char>) -> Option<nat> {
    if u == "ns"@ {
        Some(1)
    } else if u == "us"@ {
        Some(1000)
    } else if u == "ms"@ {
        Some(1_000_000)
    } else if u == "s"@ {
        Some(1_000_000_000)
    } else if u == "m"@ {
        Some(60_000_000_000)
    } else if u == "h"@ {
        Some(3_600_000_000_000)
    } else {
        None
    }
}


/// Ten to the power `k`.
pub open spec fn pow10(k: nat) -> nat
    decreases k,
{
    if k == 0 { 1 } else { 10 * pow10((k - 1) as nat) }
}

/// The value of a decimal digit.
pub open spec fn digit_val(c: char) -> nat {
    ((c as int) - ('0' as int)) as nat
}

/// The value of a text of decimal digits (zero when empty).
pub open spec fn digits_value(s: Seq<char>) -> nat
    decreases s.len(),
{
    if s.len() == 0 {
        0
    } else {
        digits_value(s.drop_last()) * 10 + digit_val(s.last())
    }
}

/// Whether every character of a text is a decimal digit.
pub open spec fn all_digits(s: Seq<char>) -> bool {
    forall|i: int| 0 <= i < s.len() ==> '0' <= #[trigger] s[i] && s[i] <= '9'
}

/// The position of the first dot at or after `i`, or the length when there is none.
pub open spec fn dot_index(t: Seq<char>, i: int) -> int
    decreases t.len() - i,
{
    if i < 0 || i >= t.len() {
        t.len() as int
    } else if t[i] == '.' {
        i
    } else {
        dot_index(t, i + 1)
    }
}

/// A number text split at its dot into the digits before and after it: at most one dot
/// and at least one digit.
pub open spec fn number_spec(t: Seq<char>) -> Option<(Seq<char>, Seq<char>)> {
    let dots = count_char(t, '.');
    if dots > 1 || dots == t.len() {
        None
    } else {
        let p = dot_index(t, 0);
        Some((t.take(p), if p < t.len() { t.skip(p + 1) } else { Seq::empty() }))
    }
}

/// The fraction `0.fp` times `f`, rounded to the nearest whole number (halves up).
pub open spec fn frac_round(fp: Seq<char>, f: nat) -> nat {
    (2 * digits_value(fp) * f + pow10(fp.len())) / (2 * pow10(fp.len()))
}

/// The nanoseconds of one component `ip.fp` of a unit of `f` nanoseconds, rounded to the
/// nearest nanosecond.
pub open spec fn component_nanos(ip: Seq<char>, fp: Seq<char>, f: nat) -> nat {
    digits_value(ip) * f + frac_round(fp, f)
}

/// The nanoseconds of the components from `pos` on, or the first error among them.
pub open spec fn duration_from(s: Seq<char>, pos: int) -> Result<nat, DurationErrorView>
    decreases s.len() - pos,
{
    if pos < 0 || pos >= s.len() {
        Ok(0)
    } else {
        let e = run_end(s, pos, true);
        if e == pos {
            Err(DurationErrorView::Invalid(s))
        } else {
            match number_spec(s.subrange(pos, e)) {
                None => Err(DurationErrorView::Number),
                Some((ip, fp)) => {
                    let ue = run_end(s, e, false);
                    let unit = s.subrange(e, ue);
                    match unit_nanos(unit) {
                        None => Err(DurationErrorView::UnknownUnit(unit)),
                        Some(f) => if ue <= pos || ue > s.len() {
                            Ok(0)
                        } else {
                            match duration_from(s, ue) {
                                Err(x) => Err(x),
                                Ok(rest) => Ok(component_nanos(ip, fp, f) + rest),
                            }
                        },
                    }
                },
            }
        }
    }
}

/// The nanoseconds a duration text stands for (trimmed first), or why it was refused.
pub open spec fn go_duration_spec(raw: Seq<char>) -> Result<nat, DurationErrorView> {
    let s = trim(raw);
    if s.len() == 0 {
        Err(DurationErrorView::Empty)
    } else {
        duration_from(s, 0)
    }
}

/// The most nanoseconds a duration holds: `u64::MAX` seconds and 999999999 nanoseconds.
pub const MAX_DURATION_NANOS: u128 = 18_446_744_073_709_551_615_999_999_999;

/// Whether the components from `pos` on can be added up without overflow, after `acc`
/// nanoseconds: every running total up to the first refused component fits a duration.
pub open spec fn fits_from(s: Seq<char>, pos: int, acc: nat) -> bool
    decreases s.len() - pos,
{
    if pos < 0 || pos >= s.len() {
        true
    } else {
        let e = run_end(s, pos, true);
        if e == pos {
            true
        } else {
            match number_spec(s.subrange(pos, e)) {
                None => true,
                Some((ip, fp)) => {
                    let ue = run_end(s, e, false);
                    match unit_nanos(s.subrange(e, ue)) {
                        None => true,
                        Some(f) => {
                            let acc2 = acc + component_nanos(ip, fp, f);
                            acc2 <= MAX_DURATION_NANOS && (ue <= pos || ue > s.len() || fits_from(s, ue, acc2))
                        },
                    }
                },
            }
        }
    }
}

/// Whether a duration text can be read without overflow.
pub open spec fn duration_fits(raw: Seq<char>) -> bool {
    fits_from(trim(raw), 0, 0)
}

proof fn lemma_run_end(s: Seq<char>, pos: int, number: bool)
    requires
        0 <= pos <= s.len(),
    ensures
        pos <= run_end(s, pos, number) <= s.len(),
        forall|k: int| pos <= k < run_end(s, pos, number) ==> is_number_char(#[trigger] s[k]) == number,
        run_end(s, pos, number) < s.len() ==> is_number_char(s[run_end(s, pos, number)]) != number,
    decreases s.len() - pos,
{
    if pos < s.len() && is_number_char(s[pos]) == number {
        lemma_run_end(s, pos + 1, number);
    }
}

proof fn lemma_run_end_suffix(a: Seq<char>, b: Seq<char>, q: int, number: bool)
    requires
        0 <= q <= b.len(),
    ensures
        run_end(a + b, a.len() + q, number) == a.len() + run_end(b, q, number),
    decreases b.len() - q,
{
    if q < b.len() {
        assert((a + b)[a.len() + q] == b[q]);
        if is_number_char(b[q]) == number {
            lemma_run_end_suffix(a, b, q + 1, number);
        }
    }
}

proof fn lemma_run_end_prefix(a: Seq<char>, b: Seq<char>, pos: int, number: bool)
    requires
        0 <= pos <= a.len(),
        run_end(a, pos, number) < a.len() || (b.len() > 0 && is_number_char(b[0]) != number),
    ensures
        run_end(a + b, pos, number) == run_end(a, pos, number),
    decreases a.len() - pos,
{
    if pos < a.len() {
        assert((a + b)[pos] == a[pos]);
        if is_number_char(a[pos]) == number {
            lemma_run_end_prefix(a, b, pos + 1, number);
        }
    } else {
        assert((a + b)[pos] == b[0]);
    }
}

/// The components of `b` read the same at the end of `a + b`.
proof fn lemma_duration_suffix(a: Seq<char>, b: Seq<char>, q: int)
    requires
        0 <= q <= b.len(),
        duration_from(b, q) is Ok,
    ensures
        duration_from(a + b, a.len() + q) == duration_from(b, q),
    decreases b.len() - q,
{
    if q < b.len() {
        let s = a + b;
        let e = run_end(b, q, true);
        lemma_run_end(b, q, true);
        lemma_run_end_suffix(a, b, q, true);
        assert(s.subrange(a.len() + q, a.len() + e) =~= b.subrange(q, e));
        let ue = run_end(b, e, false);
        lemma_run_end(b, e, false);
        lemma_run_end_suffix(a, b, e, false);
        assert(s.subrange(a.len() + e, a.len() + ue) =~= b.subrange(e, ue));
        if e != q {
            if let Some((ip, fp)) = number_spec(b.subrange(q, e)) {
                if let Some(f) = unit_nanos(b.subrange(e, ue)) {
                    lemma_duration_suffix(a, b, ue);
                }
            }
        }
    }
}

/// The components of `a` read the same at the front of `a + b` when `b` starts with a
/// number, and the total grows by what follows them.
proof fn lemma_duration_prefix(a: Seq<char>, b: Seq<char>, pos: int, y: nat)
    requires
        0 <= pos <= a.len(),
        duration_from(a, pos) is Ok,
        b.len() > 0,
        is_number_char(b[0]),
        duration_from(a + b, a.len() as int) == Ok::<nat, DurationErrorView>(y),
    ensures
        duration_from(a + b, pos) == Ok::<nat, DurationErrorView>(duration_from(a, pos)->Ok_0 + y),
    decreases a.len() - pos,
{
    if pos < a.len() {
        let s = a + b;
        let e = run_end(a, pos, true);
        lemma_run_end(a, pos, true);
        let ue = run_end(a, e, false);
        lemma_run_end(a, e, false);
        if e == a.len() {
            assert(ue == e);
            assert(a.subrange(e, ue) =~= Seq::<char>::empty());
            reveal_strlit("ns");
            reveal_strlit("us");
            reveal_strlit("ms");
            reveal_strlit("s");
            reveal_strlit("m");
            reveal_strlit("h");
            assert(unit_nanos(Seq::<char>::empty()) is None);
            assert(false);
        }
        lemma_run_end_prefix(a, b, pos, true);
        lemma_run_end_prefix(a, b, e, false);
        assert(s.subrange(pos, e) =~= a.subrange(pos, e));
        assert(s.subrange(e, ue) =~= a.subrange(e, ue));
        lemma_duration_prefix(a, b, ue, y);
    }
}

/// Reading two duration texts one after the other gives the sum of their durations: each
/// text without blanks around it, and the second starting with a number.
pub proof fn law_duration_concatenation(a: Seq<char>, b: Seq<char>, x: nat, y: nat)
    requires
        a.len() > 0,
        b.len() > 0,
        !crate::text::is_space(a[0]),
        !crate::text::is_space(a.last()),
        !crate::text::is_space(b[0]),
        !crate::text::is_space(b.last()),
        go_duration_spec(a) == Ok::<nat, DurationErrorView>(x),
        go_duration_spec(b) == Ok::<nat, DurationErrorView>(y),
    ensures
        go_duration_spec(a + b) == Ok::<nat, DurationErrorView>(x + y),
{
    let s = a + b;
    assert(s[0] == a[0]);
    assert(s.last() == b.last());
    assert(trim(a) == a);
    assert(trim(b) == b);
    assert(trim(s) == s);
    lemma_run_end(b, 0, true);
    lemma_duration_suffix(a, b, 0);
    lemma_duration_prefix(a, b, 0, y);
}

fn number_char(c: char) -> (b: bool)
    ensures
        b == is_number_char(c),
{
    ('0' <= c && c <= '9') || c == '.'
}

fn find_run_end(s: &Vec<char>, pos: usize, number: bool) -> (e: usize)
    requires
        pos <= s@.len(),
    ensures
        e as int == run_end(s@, pos as int, number),
        pos <= e <= s@.len(),
{
    proof {
        lemma_run_end(s@, pos as int, number);
    }
    let mut e = pos;
    while e < s.len() && number_char(s[e]) == number
        invariant
            pos <= e <= s@.len(),
            run_end(s@, e as int, number) == run_end(s@, pos as int, number),
        decreases s@.len() - e,
    {
        e = e + 1;
    }
    e
}


proof fn lemma_pow10_pos(k: nat)
    ensures
        pow10(k) >= 1,
    decreases k,
{
    if k > 0 {
        lemma_pow10_pos((k - 1) as nat);
    }
}

proof fn lemma_frac_round_empty(f: nat)
    ensures
        frac_round(Seq::<char>::empty(), f) == 0,
        digits_value(Seq::<char>::empty()) == 0,
        pow10(0) == 1,
{
    assert(pow10(0) == 1);
    assert(digits_value(Seq::<char>::empty()) == 0);
    assert((2 * 0 * f + 1) / (2 * 1) == 0) by (nonlinear_arith);
}

proof fn lemma_digits_bound(s: Seq<char>)
    requires
        all_digits(s),
    ensures
        digits_value(s) < pow10(s.len()),
    decreases s.len(),
{
    if s.len() > 0 {
        let d = s.drop_last();
        assert(all_digits(d)) by {
            assert forall|i: int| 0 <= i < d.len() implies '0' <= #[trigger] d[i] && d[i] <= '9' by {
                assert(d[i] == s[i]);
            }
        }
        lemma_digits_bound(d);
        assert('0' <= s[s.len() - 1] <= '9');
        assert(digit_val(s.last()) <= 9);
        assert(pow10(s.len()) == 10 * pow10(d.len()));
    }
}

proof fn lemma_digits_prefix_le(s: Seq<char>, j: int)
    requires
        0 <= j <= s.len(),
    ensures
        digits_value(s.take(j)) <= digits_value(s),
    decreases s.len(),
{
    if j < s.len() {
        assert(s.drop_last().take(j) =~= s.take(j));
        lemma_digits_prefix_le(s.drop_last(), j);
    } else {
        assert(s.take(j) =~= s);
    }
}

proof fn lemma_digits_first(s: Seq<char>)
    requires
        s.len() >= 1,
    ensures
        digits_value(s) == digit_val(s[0]) * pow10((s.len() - 1) as nat) + digits_value(s.skip(1)),
    decreases s.len(),
{
    if s.len() == 1 {
        assert(s.drop_last() =~= Seq::<char>::empty());
        assert(s.skip(1) =~= Seq::<char>::empty());
        lemma_frac_round_empty(0);
        assert(s.last() == s[0]);
        assert(digits_value(s) == digit_val(s[0]));
        assert(digit_val(s[0]) * 1 == digit_val(s[0]));
    } else {
        let d = s.drop_last();
        lemma_digits_first(d);
        assert(s.skip(1).drop_last() =~= d.skip(1));
        assert(s.skip(1).last() == s.last());
        let p = pow10((d.len() - 1) as nat);
        assert(pow10((s.len() - 1) as nat) == 10 * p);
        let a = digit_val(s[0]);
        let x = digits_value(d.skip(1));
        let l = digit_val(s.last());
        assert(d[0] == s[0]);
        assert(digits_value(d) == a * p + x);
        assert(digits_value(s) == digits_value(d) * 10 + l);
        assert(digits_value(s.skip(1)) == x * 10 + l);
        assert((a * p + x) * 10 + l == a * (10 * p) + (x * 10 + l)) by (nonlinear_arith);
    }
}

/// One step of multiplying a fraction by `f` from its last digit up: a digit `d` in front
/// of `rest`, whose product with `f` is `c` whole units of `10^n` and a remainder `r`.
proof fn lemma_stream_step(d: nat, v: nat, f: nat, p: nat, c: nat, r: nat)
    requires
        d <= 9,
        p >= 1,
        v < p,
        v * f == c * p + r,
        r < p,
    ensures
        (d * p + v) * f == ((d * f + c) / 10) * (10 * p) + (((d * f + c) % 10) * p + r),
        ((d * f + c) % 10) * p + r < 10 * p,
        (2 * (((d * f + c) % 10) * p + r) >= 10 * p) == ((d * f + c) % 10 >= 5),
{
    let t = d * f + c;
    let q = t / 10;
    let o = t % 10;
    assert(t == 10 * q + o && o < 10);
    assert((d * p + v) * f == t * p + r) by (nonlinear_arith)
        requires
            v * f == c * p + r,
            t == d * f + c,
    ;
    assert(t * p + r == q * (10 * p) + (o * p + r)) by (nonlinear_arith)
        requires
            t == 10 * q + o,
    ;
    assert(o * p + r < 10 * p) by (nonlinear_arith)
        requires
            o <= 9,
            r < p,
    ;
    if o >= 5 {
        assert(2 * (o * p + r) >= 10 * p) by (nonlinear_arith)
            requires
                o >= 5,
        ;
    } else {
        assert(2 * (o * p + r) < 10 * p) by (nonlinear_arith)
            requires
                o <= 4,
                r < p,
        ;
    }
}

/// Reads the digits between `lo` and `hi` as a number; none when it exceeds the longest
/// duration.
fn int_value(s: &Vec<char>, lo: usize, hi: usize) -> (r: Option<u128>)
    requires
        lo <= hi <= s@.len(),
        all_digits(s@.subrange(lo as int, hi as int)),
    ensures
        match r {
            Some(v) => v == digits_value(s@.subrange(lo as int, hi as int)) && v <= MAX_DURATION_NANOS,
            None => digits_value(s@.subrange(lo as int, hi as int)) > MAX_DURATION_NANOS,
        },
{
    let ghost t = s@.subrange(lo as int, hi as int);
    let mut acc: u128 = 0;
    let mut i = lo;
    assert(t.take(0) =~= Seq::<char>::empty());
    while i < hi
        invariant
            lo <= i <= hi <= s@.len(),
            t == s@.subrange(lo as int, hi as int),
            all_digits(t),
            acc == digits_value(t.take(i - lo)),
            acc <= MAX_DURATION_NANOS,
        decreases hi - i,
    {
        assert(t.take(i - lo + 1).drop_last() =~= t.take(i - lo));
        assert(t.take(i - lo + 1).last() == s@[i as int]);
        assert('0' <= t[i - lo] <= '9');
        let c = s[i];
        let dv = ((c as u32) - ('0' as u32)) as u128;
        let next = acc * 10 + dv;
        if next > MAX_DURATION_NANOS {
            proof {
                lemma_digits_prefix_le(t, i - lo + 1);
            }
            return None;
        }
        acc = next;
        i = i + 1;
    }
    assert(t.take(hi - lo) =~= t);
    Some(acc)
}

/// The fraction of digits between `lo` and `hi`, times `f`, rounded to nearest: read
/// from the last digit up, carrying less than `f` from digit to digit.
fn frac_value(s: &Vec<char>, lo: usize, hi: usize, f: u64) -> (r: u64)
    requires
        lo <= hi <= s@.len(),
        all_digits(s@.subrange(lo as int, hi as int)),
        1 <= f <= 3_600_000_000_000,
    ensures
        r as nat == frac_round(s@.subrange(lo as int, hi as int), f as nat),
        r <= f,
{
    let ghost t = s@.subrange(lo as int, hi as int);
    if lo == hi {
        assert(t =~= Seq::<char>::empty());
        proof {
            lemma_frac_round_empty(f as nat);
        }
        return 0;
    }
    let mut c: u64 = 0;
    let mut up: bool = false;
    let mut i = hi;
    proof {
        assert(t.skip(t.len() as int) =~= Seq::<char>::empty());
        lemma_frac_round_empty(f as nat);
        assert(t.skip(hi - lo) =~= Seq::<char>::empty());
        assert((0 * f) % 1 == 0 && (0 * f) / 1 == 0) by (nonlinear_arith);
    }
    while i > lo
        invariant
            lo <= i <= hi <= s@.len(),
            lo < hi,
            t == s@.subrange(lo as int, hi as int),
            all_digits(t),
            1 <= f <= 3_600_000_000_000,
            c < f,
            digits_value(t.skip(i - lo)) * f == c * pow10((hi - i) as nat) + (digits_value(t.skip(i - lo)) * f) % (pow10(
                (hi - i) as nat,
            ) as int),
            c as int == (digits_value(t.skip(i - lo)) * f) / (pow10((hi - i) as nat) as int),
            i < hi ==> (up == (2 * ((digits_value(t.skip(i - lo)) * f) % (pow10((hi - i) as nat) as int)) >= pow10(
                (hi - i) as nat,
            ))),
        decreases i - lo,
    {
        let ghost rest = t.skip(i - lo);
        let ghost cur = t.skip(i - 1 - lo);
        let ghost n = (hi - i) as nat;
        let ghost p = pow10(n);
        let ghost v = digits_value(rest);
        let ghost r0 = ((v * f) % (p as int)) as nat;
        proof {
            lemma_pow10_pos(n);
            assert(all_digits(rest)) by {
                assert forall|k: int| 0 <= k < rest.len() implies '0' <= #[trigger] rest[k] && rest[k] <= '9' by {
                    assert(rest[k] == t[i - lo + k]);
                }
            }
            lemma_digits_bound(rest);
            assert(rest.len() == n);
            assert(cur.len() >= 1);
            assert(cur.skip(1) =~= rest);
            assert(cur[0] == s@[i - 1]);
            lemma_digits_first(cur);
            assert(cur.len() - 1 == n);
            assert('0' <= t[i - 1 - lo] <= '9');
            assert(0 <= r0 < p) by {
                vstd::arithmetic::div_mod::lemma_mod_bound((v * f) as int, p as int);
            }
        }
        let ch = s[i - 1];
        assert('0' <= ch <= '9');
        let d = ((ch as u32) - ('0' as u32)) as u64;
        assert(d <= 9);
        assert(d * f <= 9 * 3_600_000_000_000) by (nonlinear_arith)
            requires
                d <= 9,
                f <= 3_600_000_000_000,
        ;
        let t_val = d * f + c;
        proof {
            assert(d as nat == digit_val(cur[0]));
            lemma_stream_step(d as nat, v, f as nat, p, c as nat, r0);
            let q = (t_val / 10) as nat;
            let o = (t_val % 10) as nat;
            assert(digits_value(cur) == d * p + v);
            assert(pow10((n + 1) as nat) == 10 * p);
            vstd::arithmetic::div_mod::lemma_fundamental_div_mod_converse(
                (digits_value(cur) * f) as int,
                (10 * p) as int,
                q as int,
                (o * p + r0) as int,
            );
            assert(q < f) by (nonlinear_arith)
                requires
                    q * (10 * p) + (o * p + r0) == (d * p + v) * f,
                    d <= 9,
                    v < p,
                    c < f,
                    t_val == d * f + c,
                    q == t_val / 10,
            ;
        }
        up = t_val % 10 >= 5;
        c = t_val / 10;
        i = i - 1;
    }
    assert(t.skip(0) =~= t);
    let ghost pk = pow10(t.len());
    let ghost v = digits_value(t);
    let ghost rr = ((v * f) % (pk as int)) as nat;
    let b: u64 = if up { 1 } else { 0 };
    proof {
        lemma_pow10_pos(t.len());
        assert(hi - lo == t.len());
        let x = 2 * v * f + pk;
        let rem = (2 * rr + pk - 2 * b * pk) as int;
        assert(0 <= rem < 2 * pk && x == (c + b) * (2 * pk) + rem) by (nonlinear_arith)
            requires
                v * f == c * pk + rr,
                0 <= rr < pk,
                b == 0 || b == 1,
                b == 1 <==> 2 * rr >= pk,
                rem == 2 * rr + pk - 2 * b * pk,
                x == 2 * v * f + pk,
        ;
        vstd::arithmetic::div_mod::lemma_fundamental_div_mod_converse(x as int, (2 * pk) as int, (c + b) as int, rem);
        assert(0 <= rr < pk) by {
            vstd::arithmetic::div_mod::lemma_mod_bound((v * f) as int, pk as int);
        }
    }
    c + b
}

proof fn lemma_dot_index_skip(t: Seq<char>, i: int, j: int)
    requires
        0 <= i <= j <= t.len(),
        forall|k: int| i <= k < j ==> t[k] != '.',
    ensures
        dot_index(t, i) == dot_index(t, j),
    decreases j - i,
{
    if i < j {
        lemma_dot_index_skip(t, i + 1, j);
    }
}

/// Splits the number between `lo` and `hi` at its dot, as `number_spec` says: the
/// position of the dot (or `hi` without one); none when the text is no number.
fn split_number(s: &Vec<char>, lo: usize, hi: usize) -> (r: Option<usize>)
    requires
        lo < hi <= s@.len(),
        forall|k: int| lo <= k < hi ==> is_number_char(#[trigger] s@[k]),
    ensures
        match r {
            None => number_spec(s@.subrange(lo as int, hi as int)) is None,
            Some(p) => {
                &&& lo <= p <= hi
                &&& number_spec(s@.subrange(lo as int, hi as int)) == Some(
                    (
                        s@.subrange(lo as int, p as int),
                        if p < hi { s@.subrange(p + 1, hi as int) } else { Seq::<char>::empty() },
                    ),
                )
                &&& all_digits(s@.subrange(lo as int, p as int))
                &&& p < hi ==> all_digits(s@.subrange(p + 1, hi as int))
            },
        },
{
    let ghost t = s@.subrange(lo as int, hi as int);
    let mut dots: usize = 0;
    let mut first: usize = hi;
    let mut i = lo;
    assert(t.take(0) =~= Seq::<char>::empty());
    while i < hi
        invariant
            lo <= i <= hi <= s@.len(),
            t == s@.subrange(lo as int, hi as int),
            forall|k: int| lo <= k < hi ==> is_number_char(#[trigger] s@[k]),
            dots == count_char(t.take(i - lo), '.'),
            dots <= i - lo,
            lo <= first <= hi,
            dots == 0 ==> first == hi,
            dots == 0 ==> forall|k: int| 0 <= k < i - lo ==> t[k] != '.',
            dots >= 1 ==> lo <= first < i && t[first - lo] == '.' && forall|k: int| 0 <= k < first - lo ==> t[k] != '.',
            dots == 1 ==> forall|k: int| first - lo < k < i - lo ==> t[k] != '.',
        decreases hi - i,
    {
        assert(t.take(i - lo + 1).drop_last() =~= t.take(i - lo));
        assert(t.take(i - lo + 1).last() == t[i - lo]);
        assert(t[i - lo] == s@[i as int]);
        if s[i] == '.' {
            if dots == 0 {
                first = i;
            }
            dots = dots + 1;
        }
        i = i + 1;
    }
    assert(t.take(hi - lo) =~= t);
    if dots > 1 || dots == hi - lo {
        return None;
    }
    proof {
        if dots == 0 {
            lemma_dot_index_skip(t, 0, t.len() as int);
            assert(t.take(t.len() as int) =~= s@.subrange(lo as int, hi as int));
            assert forall|k: int| 0 <= k < t.len() implies '0' <= #[trigger] t[k] && t[k] <= '9' by {
                assert(is_number_char(s@[lo + k]));
            }
        } else {
            lemma_dot_index_skip(t, 0, first - lo);
            let ip = s@.subrange(lo as int, first as int);
            assert(t.take(first - lo) =~= ip);
            assert forall|k: int| 0 <= k < ip.len() implies '0' <= #[trigger] ip[k] && ip[k] <= '9' by {
                assert(ip[k] == t[k]);
                assert(is_number_char(s@[lo + k]));
            }
            if first < hi {
                let fp = s@.subrange(first + 1, hi as int);
                assert(t.skip(first - lo + 1) =~= fp);
                assert forall|k: int| 0 <= k < fp.len() implies '0' <= #[trigger] fp[k] && fp[k] <= '9' by {
                    assert(fp[k] == t[first - lo + 1 + k]);
                    assert(is_number_char(s@[first + 1 + k]));
                }
            }
        }
    }
    Some(first)
}

/// Reads a duration text: `None` when it cannot be read without overflow (where
/// `duration_fits` fails), else what `go_duration_spec` says.
fn scan_duration(raw: &str) -> (r: Option<Result<u128, DurationError>>)
    ensures
        r is None <==> !duration_fits(raw@),
        r matches Some(x) ==> match x {
            Ok(n) => go_duration_spec(raw@) == Ok::<nat, DurationErrorView>(n as nat),
            Err(e) => go_duration_spec(raw@) == Err::<nat, DurationErrorView>(e@),
        },
{
    let s = trim_chars(&chars_of(raw));
    if s.len() == 0 {
        return Some(Err(DurationError::Empty));
    }
    let mut total: u128 = 0;
    let mut pos: usize = 0;
    while pos < s.len()
        invariant
            pos <= s@.len(),
            s@ == trim(raw@),
            s@.len() > 0,
            total <= MAX_DURATION_NANOS,
            duration_fits(raw@) == fits_from(s@, pos as int, total as nat),
            duration_from(s@, 0) == match duration_from(s@, pos as int) {
                Ok(rest) => Ok::<nat, DurationErrorView>(total as nat + rest),
                Err(e) => Err(e),
            },
        decreases s@.len() - pos,
    {
        let e = find_run_end(&s, pos, true);
        if e == pos {
            return Some(Err(DurationError::Invalid(crate::text::string_from_chars(s.as_slice()))));
        }
        proof {
            lemma_run_end(s@, pos as int, true);
        }
        let p = match split_number(&s, pos, e) {
            Some(p) => p,
            None => {
                return Some(Err(DurationError::Number));
            },
        };
        let ue = find_run_end(&s, e, false);
        let unit = string_of_range(&s, e, ue);
        let f: u64 = if crate::text::str_eq(unit.as_str(), "ns") {
            1
        } else if crate::text::str_eq(unit.as_str(), "us") {
            1000
        } else if crate::text::str_eq(unit.as_str(), "ms") {
            1_000_000
        } else if crate::text::str_eq(unit.as_str(), "s") {
            1_000_000_000
        } else if crate::text::str_eq(unit.as_str(), "m") {
            60_000_000_000
        } else if crate::text::str_eq(unit.as_str(), "h") {
            3_600_000_000_000
        } else {
            return Some(Err(DurationError::UnknownUnit(unit)));
        };
        proof {
            lemma_run_end(s@, e as int, false);
            assert(unit@ == s@.subrange(e as int, ue as int));
        }
        let ghost ip = s@.subrange(pos as int, p as int);
        let ghost fp = if p < e { s@.subrange(p + 1, e as int) } else { Seq::<char>::empty() };
        let iv = match int_value(&s, pos, p) {
            Some(v) => v,
            None => {
                proof {
                    assert(component_nanos(ip, fp, f as nat) >= digits_value(ip)) by (nonlinear_arith)
                        requires
                            f >= 1,
                            component_nanos(ip, fp, f as nat) == digits_value(ip) * f + frac_round(fp, f as nat),
                    ;
                }
                return None;
            },
        };
        if iv > MAX_DURATION_NANOS / (f as u128) {
            proof {
                assert(iv * f > MAX_DURATION_NANOS) by (nonlinear_arith)
                    requires
                        iv > MAX_DURATION_NANOS / (f as u128),
                        f >= 1,
                ;
            }
            return None;
        }
        proof {
            assert(iv * f <= MAX_DURATION_NANOS) by (nonlinear_arith)
                requires
                    iv <= MAX_DURATION_NANOS / (f as u128),
                    f >= 1,
            ;
        }
        let fr = if p < e {
            frac_value(&s, p + 1, e, f)
        } else {
            proof {
                assert(fp =~= Seq::<char>::empty());
                lemma_frac_round_empty(f as nat);
            }
            0
        };
        let part: u128 = iv * (f as u128) + (fr as u128);
        assert(part as nat == component_nanos(ip, fp, f as nat));
        if part > MAX_DURATION_NANOS - total {
            return None;
        }
        total = total + part;
        pos = ue;
    }
    Some(Ok(total))
}

/// The nanoseconds of a duration text (trimmed first), or why it was refused. A text
/// whose running total overflows a duration is left out by `requires`.
pub fn parse_go_duration(raw: &str) -> (r: Result<u128, DurationError>)
    requires
        duration_fits(raw@),
    ensures
        match r {
            Ok(n) => go_duration_spec(raw@) == Ok::<nat, DurationErrorView>(n as nat),
            Err(e) => go_duration_spec(raw@) == Err::<nat, DurationErrorView>(e@),
        },
{
    match scan_duration(raw) {
        Some(r) => r,
        None => Err(DurationError::Empty),
    }
}

/// Whether a duration text can be read by `parse_go_duration` without overflow: the test
/// a caller makes before handing it over.
pub fn duration_fits_text(raw: &str) -> (b: bool)
    ensures
        b == duration_fits(raw@),
{
    scan_duration(raw).is_some()
}

} // verus!
