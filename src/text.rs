//! Decimal integers as characters, and the conversions between `String`
//! and a vector of characters that the token codec works on.

use vstd::prelude::*;

verus! {

/// Whether `c` is one of the ASCII digits.
pub open spec fn is_digit(c: char) -> bool {
    '0' <= c && c <= '9'
}

/// The ASCII digit for `d`, for `d` below ten.
pub open spec fn digit_char(d: nat) -> char {
    if d == 0 { '0' }
    else if d == 1 { '1' }
    else if d == 2 { '2' }
    else if d == 3 { '3' }
    else if d == 4 { '4' }
    else if d == 5 { '5' }
    else if d == 6 { '6' }
    else if d == 7 { '7' }
    else if d == 8 { '8' }
    else { '9' }
}

/// The value of an ASCII digit (zero for any other character).
pub open spec fn digit_value(c: char) -> nat {
    if c == '1' { 1 }
    else if c == '2' { 2 }
    else if c == '3' { 3 }
    else if c == '4' { 4 }
    else if c == '5' { 5 }
    else if c == '6' { 6 }
    else if c == '7' { 7 }
    else if c == '8' { 8 }
    else if c == '9' { 9 }
    else { 0 }
}

/// The decimal writing of `n`, without leading zeros.
pub open spec fn nat_text(n: nat) -> Seq<char>
    decreases n,
{
    if n < 10 {
        seq![digit_char(n)]
    } else {
        nat_text(n / 10).push(digit_char(n % 10))
    }
}

/// The decimal writing of `i`, with a leading `-` when it is negative.
pub open spec fn int_text(i: int) -> Seq<char> {
    if i < 0 {
        seq!['-'] + nat_text((-i) as nat)
    } else {
        nat_text(i as nat)
    }
}

/// The value of a run of digits read left to right.
pub open spec fn digits_value(s: Seq<char>) -> nat
    decreases s.len(),
{
    if s.len() == 0 {
        0
    } else {
        digits_value(s.drop_last()) * 10 + digit_value(s.last())
    }
}

pub open spec fn all_digits(s: Seq<char>) -> bool {
    forall|i: int| 0 <= i < s.len() ==> is_digit(#[trigger] s[i])
}

proof fn lemma_digit(d: nat)
    requires
        d < 10,
    ensures
        is_digit(digit_char(d)),
        digit_value(digit_char(d)) == d,
{
}

/// A decimal writing is a non-empty run of digits that reads back as its value.
pub proof fn lemma_nat_text(n: nat)
    ensures
        nat_text(n).len() >= 1,
        all_digits(nat_text(n)),
        digits_value(nat_text(n)) == n,
    decreases n,
{
    if n < 10 {
        lemma_digit(n);
        let t = nat_text(n);
        assert(t.drop_last() =~= Seq::<char>::empty());
        assert(digits_value(Seq::<char>::empty()) == 0);
        assert(t.last() == digit_char(n));
        assert(digits_value(t) == digits_value(t.drop_last()) * 10 + digit_value(t.last()));
    } else {
        lemma_nat_text(n / 10);
        lemma_digit(n % 10);
        let t = nat_text(n);
        assert(t.drop_last() =~= nat_text(n / 10));
        assert(t.last() == digit_char(n % 10));
        assert(digits_value(t) == digits_value(nat_text(n / 10)) * 10 + digit_value(
            digit_char(n % 10),
        ));
        assert(n == (n / 10) * 10 + n % 10);
        assert forall|i: int| 0 <= i < t.len() implies is_digit(#[trigger] t[i]) by {
            if i < t.len() - 1 {
                assert(t[i] == nat_text(n / 10)[i]);
            }
        }
    }
}

/// A prefix of a run of digits never reads as more than the whole run.
pub proof fn lemma_prefix_value(s: Seq<char>, k: int)
    requires
        0 <= k <= s.len(),
    ensures
        digits_value(s.subrange(0, k)) <= digits_value(s),
    decreases s.len(),
{
    if k < s.len() {
        let d = s.drop_last();
        assert(d.subrange(0, k) =~= s.subrange(0, k));
        lemma_prefix_value(d, k);
    } else {
        assert(s.subrange(0, k) =~= s);
    }
}

/// Distinct integers have distinct decimal writings.
pub proof fn lemma_int_text_injective(a: int, b: int)
    requires
        int_text(a) == int_text(b),
    ensures
        a == b,
{
    if a < 0 {
        lemma_nat_text((-a) as nat);
    } else {
        lemma_nat_text(a as nat);
    }
    if b < 0 {
        lemma_nat_text((-b) as nat);
    } else {
        lemma_nat_text(b as nat);
    }
    if a < 0 && b < 0 {
        assert(int_text(a).drop_first() =~= nat_text((-a) as nat));
        assert(int_text(b).drop_first() =~= nat_text((-b) as nat));
    } else if a < 0 {
        assert(int_text(a)[0] == '-');
        assert(is_digit(int_text(b)[0]));
    } else if b < 0 {
        assert(int_text(b)[0] == '-');
        assert(is_digit(int_text(a)[0]));
    }
}

/// A decimal writing holds no character but digits and `-`.
pub proof fn lemma_int_text_chars(i: int)
    ensures
        forall|k: int| 0 <= k < int_text(i).len() ==> (is_digit(#[trigger] int_text(i)[k])
            || int_text(i)[k] == '-'),
        int_text(i).len() >= 1,
{
    if i < 0 {
        lemma_nat_text((-i) as nat);
        assert forall|k: int| 0 <= k < int_text(i).len() implies (is_digit(
            #[trigger] int_text(i)[k],
        ) || int_text(i)[k] == '-') by {
            if k > 0 {
                assert(int_text(i)[k] == nat_text((-i) as nat)[k - 1]);
            }
        }
    } else {
        lemma_nat_text(i as nat);
    }
}

fn digit_to_char(d: u64) -> (c: char)
    requires
        d < 10,
    ensures
        c == digit_char(d as nat),
{
    match d {
        0 => '0',
        1 => '1',
        2 => '2',
        3 => '3',
        4 => '4',
        5 => '5',
        6 => '6',
        7 => '7',
        8 => '8',
        _ => '9',
    }
}

fn char_to_digit(c: char) -> (r: Option<u64>)
    ensures
        r matches Some(d) ==> is_digit(c) && d == digit_value(c) && d < 10,
        r is None ==> !is_digit(c),
{
    match c {
        '0' => Some(0),
        '1' => Some(1),
        '2' => Some(2),
        '3' => Some(3),
        '4' => Some(4),
        '5' => Some(5),
        '6' => Some(6),
        '7' => Some(7),
        '8' => Some(8),
        '9' => Some(9),
        _ => None,
    }
}

fn push_nat(out: &mut Vec<char>, n: u64)
    ensures
        final(out)@ == old(out)@ + nat_text(n as nat),
    decreases n,
{
    if n >= 10 {
        push_nat(out, n / 10);
    }
    let c = digit_to_char(n % 10);
    out.push(c);
    proof {
        if n >= 10 {
            assert(nat_text(n as nat) == nat_text((n / 10) as nat).push(c));
            assert(final(out)@ =~= old(out)@ + nat_text(n as nat));
        } else {
            assert(final(out)@ =~= old(out)@ + nat_text(n as nat));
        }
    }
}

/// Appends the decimal writing of `v` to `out`.
pub fn push_decimal(out: &mut Vec<char>, v: i64)
    ensures
        final(out)@ == old(out)@ + int_text(v as int),
{
    if v < 0 {
        out.push('-');
        let magnitude = (-(v as i128)) as u64;
        let ghost mid = out@;
        push_nat(out, magnitude);
        assert(out@ =~= old(out)@ + int_text(v as int));
    } else {
        push_nat(out, v as u64);
    }
}

/// Reads the integer written in `s[start..end]`: `Some(v)` exactly when that
/// range is the decimal writing of `v`.
pub fn parse_decimal(s: &Vec<char>, start: usize, end: usize) -> (r: Option<i64>)
    requires
        start <= end <= s@.len(),
    ensures
        r matches Some(v) ==> s@.subrange(start as int, end as int) == int_text(v as int),
        forall|v: i64| s@.subrange(start as int, end as int) == int_text(v as int) ==> r == Some(v),
{
    let ghost range = s@.subrange(start as int, end as int);
    if start == end {
        proof {
            assert forall|v: i64| range != int_text(v as int) by {
                lemma_int_text_chars(v as int);
            }
        }
        return None;
    }
    let negative = s[start] == '-';
    let ds: usize = if negative { start + 1 } else { start };
    let ghost digits = s@.subrange(ds as int, end as int);
    proof {
        assert forall|v: i64| range == int_text(v as int) implies digits == nat_text(
            if v < 0 { -v } else { v as int } as nat,
        ) && (negative <==> v < 0) by {
            lemma_int_text_chars(v as int);
            assert(range[0] == s@[start as int]);
            if v < 0 {
                assert(digits =~= range.drop_first());
                assert(range.drop_first() =~= nat_text((-v) as nat));
            } else {
                lemma_nat_text(v as nat);
                assert(is_digit(range[0]));
                assert(digits =~= range);
            }
        }
    }
    let limit: u64 = 0x8000_0000_0000_0000;
    let mut acc: u64 = 0;
    let mut i: usize = ds;
    while i < end
        invariant
            ds <= i <= end <= s@.len(),
            digits == s@.subrange(ds as int, end as int),
            acc == digits_value(s@.subrange(ds as int, i as int)),
            acc <= limit,
            limit == 0x8000_0000_0000_0000u64,
            forall|v: i64| range == int_text(v as int) ==> digits == nat_text(
                if v < 0 { -v } else { v as int } as nat,
            ) && (negative <==> v < 0),
            negative ==> ds == start + 1,
            !negative ==> ds == start,
            range == s@.subrange(start as int, end as int),
        decreases end - i,
    {
        let d = match char_to_digit(s[i]) {
            Some(d) => d,
            None => {
                proof {
                    assert forall|v: i64| range != int_text(v as int) by {
                        if range == int_text(v as int) {
                            let m = if v < 0 { -v } else { v as int } as nat;
                            lemma_nat_text(m);
                            assert(digits[i - ds] == s@[i as int]);
                        }
                    }
                }
                return None;
            },
        };
        let ghost next = s@.subrange(ds as int, i + 1);
        assert(next.drop_last() =~= s@.subrange(ds as int, i as int));
        assert(next.last() == s@[i as int]);
        assert(digits_value(next) == acc * 10 + d);
        if acc > (limit - d) / 10 {
            proof {
                assert(acc * 10 + d > limit) by (nonlinear_arith)
                    requires
                        acc > (limit - d) / 10,
                        d < 10,
                        limit == 0x8000_0000_0000_0000u64,
                ;
                assert forall|v: i64| range != int_text(v as int) by {
                    if range == int_text(v as int) {
                        let m = if v < 0 { -v } else { v as int } as nat;
                        lemma_nat_text(m);
                        assert(next =~= digits.subrange(0, i + 1 - ds));
                        lemma_prefix_value(digits, i + 1 - ds);
                        assert(m <= limit);
                    }
                }
            }
            return None;
        }
        assert(acc * 10 + d <= limit) by (nonlinear_arith)
            requires
                acc <= (limit - d) / 10,
                d < 10,
                limit == 0x8000_0000_0000_0000u64,
        ;
        acc = acc * 10 + d;
        i = i + 1;
    }
    assert(s@.subrange(ds as int, i as int) =~= digits);
    proof {
        assert forall|w: i64| range == int_text(w as int) implies acc == (if w < 0 {
            -w
        } else {
            w as int
        }) by {
            let m = if w < 0 { -w } else { w as int } as nat;
            lemma_nat_text(m);
        }
    }
    let v: i64 = if negative {
        (-(acc as i128)) as i64
    } else {
        if acc > i64::MAX as u64 {
            proof {
                assert forall|v: i64| range != int_text(v as int) by {
                    if range == int_text(v as int) {
                        lemma_nat_text(v as nat);
                    }
                }
            }
            return None;
        }
        acc as i64
    };
    proof {
        assert forall|w: i64| range == int_text(w as int) implies w == v by {
            if w < 0 {
                assert(acc == -w);
            } else {
                assert(acc == w);
            }
        }
    }
    let mut written: Vec<char> = Vec::new();
    push_decimal(&mut written, v);
    assert(written@ =~= int_text(v as int));
    if written.len() != end - start {
        proof {
            assert forall|w: i64| range != int_text(w as int) by {
                if range == int_text(w as int) {
                    let m = if w < 0 { -w } else { w as int } as nat;
                    lemma_nat_text(m);
                }
            }
        }
        return None;
    }
    let mut k: usize = 0;
    while k < written.len()
        invariant
            written@ == int_text(v as int),
            written@.len() == end - start,
            start <= end <= s@.len(),
            range == s@.subrange(start as int, end as int),
            forall|j: int| 0 <= j < k ==> written@[j] == range[j],
            forall|w: i64| range == int_text(w as int) ==> w == v,
        decreases written.len() - k,
    {
        if written[k] != s[start + k] {
            proof {
                assert forall|w: i64| range != int_text(w as int) by {
                    if range == int_text(w as int) {
                        assert(w == v);
                    }
                }
            }
            return None;
        }
        k = k + 1;
    }
    assert(range =~= written@);
    proof {
        assert forall|w: i64| range == int_text(w as int) implies Some(v) == Some(w) by {
            lemma_int_text_injective(w as int, v as int);
        }
    }
    Some(v)
}

/// The decimal writing of `v`.
pub fn decimal_text(v: i64) -> (r: String)
    ensures
        r@ == int_text(v as int),
{
    let mut out: Vec<char> = Vec::new();
    push_decimal(&mut out, v);
    assert(out@ =~= int_text(v as int));
    string_from_chars(&out)
}

/// The integer that `s` writes as `str::parse` reads one: an optional `+` or
/// `-`, then one or more digits (leading zeros allowed).
pub open spec fn decimal_of(s: Seq<char>) -> Option<int> {
    let signed = s.len() > 0 && (s[0] == '-' || s[0] == '+');
    let digits = if signed { s.drop_first() } else { s };
    if digits.len() > 0 && all_digits(digits) {
        Some(if s[0] == '-' { -(digits_value(digits) as int) } else { digits_value(digits) as int })
    } else {
        None
    }
}

/// Reads an `i64` as `str::parse` does: `Some` exactly when `s` writes an
/// integer in the range of `i64`.
pub fn parse_i64(s: &str) -> (r: Option<i64>)
    ensures
        r matches Some(v) ==> decimal_of(s@) == Some(v as int),
        r is None ==> !(decimal_of(s@) matches Some(n) && i64::MIN <= n <= i64::MAX),
{
    let chars = chars_of(s);
    let n = chars.len();
    if n == 0 {
        return None;
    }
    let negative = chars[0] == '-';
    let signed = negative || chars[0] == '+';
    let ds: usize = if signed { 1 } else { 0 };
    if ds == n {
        return None;
    }
    let ghost digits = chars@.subrange(ds as int, n as int);
    assert(chars@ == s@);
    assert(digits =~= (if signed { s@.drop_first() } else { s@ }));
    let limit: u64 = 0x8000_0000_0000_0000;
    let mut acc: u64 = 0;
    let mut i: usize = ds;
    assert(chars@.subrange(ds as int, ds as int) =~= Seq::<char>::empty());
    while i < n
        invariant
            ds <= i <= n,
            n == chars@.len(),
            chars@ == s@,
            digits == chars@.subrange(ds as int, n as int),
            acc == digits_value(chars@.subrange(ds as int, i as int)),
            acc <= limit,
            limit == 0x8000_0000_0000_0000u64,
            forall|j: int| ds <= j < i ==> is_digit(#[trigger] chars@[j]),
            s@.len() > 0,
            signed == (s@[0] == '-' || s@[0] == '+'),
            negative == (s@[0] == '-'),
            ds == (if signed { 1usize } else { 0usize }),
            digits == (if signed { s@.drop_first() } else { s@ }),
        decreases n - i,
    {
        let d = match char_to_digit(chars[i]) {
            Some(d) => d,
            None => {
                assert(!is_digit(digits[i - ds]));
                return None;
            },
        };
        let ghost next = chars@.subrange(ds as int, i + 1);
        assert(next.drop_last() =~= chars@.subrange(ds as int, i as int));
        assert(next.last() == chars@[i as int]);
        assert(digits_value(next) == acc * 10 + d);
        if acc > (limit - d) / 10 {
            proof {
                assert(acc * 10 + d > limit) by (nonlinear_arith)
                    requires
                        acc > (limit - d) / 10,
                        d < 10,
                        limit == 0x8000_0000_0000_0000u64,
                ;
                assert(next =~= digits.subrange(0, i + 1 - ds));
                lemma_prefix_value(digits, i + 1 - ds);
            }
            return None;
        }
        assert(acc * 10 + d <= limit) by (nonlinear_arith)
            requires
                acc <= (limit - d) / 10,
                d < 10,
                limit == 0x8000_0000_0000_0000u64,
        ;
        acc = acc * 10 + d;
        i = i + 1;
    }
    assert(chars@.subrange(ds as int, i as int) =~= digits);
    assert(all_digits(digits)) by {
        assert forall|k: int| 0 <= k < digits.len() implies is_digit(#[trigger] digits[k]) by {
            assert(digits[k] == chars@[k + ds]);
        }
    }
    if negative {
        Some((-(acc as i128)) as i64)
    } else if acc > i64::MAX as u64 {
        None
    } else {
        Some(acc as i64)
    }
}

/// Relies on `String: FromIterator<char>`: the string holds the characters in order.
#[verifier::external_body]
pub(crate) fn string_from_chars(chars: &Vec<char>) -> (r: String)
    ensures
        r@ == chars@,
{
    chars.iter().collect()
}

/// Relies on `str::chars`, collected into a vector: the characters in order.
#[verifier::external_body]
pub(crate) fn chars_of(s: &str) -> (r: Vec<char>)
    ensures
        r@ == s@,
{
    s.chars().collect()
}

} // verus!
