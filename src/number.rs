use crate::text::{chars_of, push_char};
use vstd::prelude::*;

verus! {

pub open spec fn is_digit(c: char) -> bool {
    '0' <= c && c <= '9'
}

pub open spec fn all_digits(s: Seq<char>) -> bool {
    forall|i: int| 0 <= i < s.len() ==> is_digit(#[trigger] s[i])
}

/// The character of a digit `0..=9`.
pub open spec fn digit_char(d: nat) -> char {
    (d + 48) as char
}

/// The number written by a run of decimal digits.
pub open spec fn digits_value(s: Seq<char>) -> nat
    decreases s.len(),
{
    if s.len() == 0 {
        0
    } else {
        digits_value(s.drop_last()) * 10 + ((s.last() as nat) - 48) as nat
    }
}

/// Length of the sign (`+` or `-`) that starts `s`, if any.
pub open spec fn sign_len(s: Seq<char>) -> int {
    if s.len() > 0 && (s[0] == '-' || s[0] == '+') {
        1
    } else {
        0
    }
}

/// An optional sign followed by one or more digits, and the number it writes.
pub open spec fn signed_value(s: Seq<char>) -> Option<int> {
    let body = s.skip(sign_len(s));
    if body.len() == 0 || !all_digits(body) {
        None
    } else if s[0] == '-' {
        Some(-digits_value(body))
    } else {
        Some(digits_value(body) as int)
    }
}

/// An item literal: the value of `s` when it is a signed decimal number that
/// fits in an item.
pub open spec fn item_value(s: Seq<char>) -> Option<i16> {
    match signed_value(s) {
        Some(v) => if i16::MIN <= v <= i16::MAX {
            Some(v as i16)
        } else {
            None
        },
        None => None,
    }
}

/// A size: one or more decimal digits, nothing else, within `usize`.
pub open spec fn size_value(s: Seq<char>) -> Option<usize> {
    if s.len() > 0 && all_digits(s) && digits_value(s) <= usize::MAX {
        Some(digits_value(s) as usize)
    } else {
        None
    }
}

/// Decimal digits of `n`, without leading zeros.
pub open spec fn decimal_digits(n: nat) -> Seq<char>
    decreases n,
{
    if n < 10 {
        seq![digit_char(n)]
    } else {
        decimal_digits(n / 10).push(digit_char(n % 10))
    }
}

/// Decimal form of `n`, with a `-` in front when it is negative.
pub open spec fn decimal(n: int) -> Seq<char> {
    if n < 0 {
        seq!['-'] + decimal_digits((-n) as nat)
    } else {
        decimal_digits(n as nat)
    }
}

proof fn lemma_digits_value_prefix(s: Seq<char>, k: int)
    requires
        0 <= k <= s.len(),
        all_digits(s),
    ensures
        digits_value(s.take(k)) <= digits_value(s),
    decreases s.len(),
{
    if k < s.len() {
        assert(all_digits(s.drop_last()));
        lemma_digits_value_prefix(s.drop_last(), k);
        assert(s.drop_last().take(k) == s.take(k));
    } else {
        assert(s.take(k) == s);
    }
}

/// Reads a decimal number of at most `limit` from the characters of `s`
/// after its sign.
fn read_digits(cs: &Vec<char>, start: usize, limit: u128) -> (r: Option<u128>)
    requires
        start <= cs.len(),
        limit <= u64::MAX,
    ensures
        ({
            let body = cs@.skip(start as int);
            match r {
                Some(v) => all_digits(body) && v == digits_value(body) && v <= limit,
                None => !all_digits(body) || digits_value(body) > limit,
            }
        }),
{
    let ghost body = cs@.skip(start as int);
    let mut v: u128 = 0;
    let mut i: usize = start;
    while i < cs.len()
        invariant
            start <= i <= cs.len(),
            body == cs@.skip(start as int),
            limit <= u64::MAX,
            all_digits(body.take(i - start)),
            v == digits_value(body.take(i - start)),
            v <= limit,
        decreases cs.len() - i,
    {
        let c = cs[i];
        assert(body.take(i - start + 1).drop_last() == body.take(i - start));
        if c < '0' || c > '9' {
            assert(body[i - start] == c);
            return None;
        }
        let d = (c as u32 - 48) as u128;
        v = v * 10 + d;
        assert(all_digits(body.take(i - start + 1))) by {
            assert forall|j: int| 0 <= j < i - start + 1 implies is_digit(
                #[trigger] body.take(i - start + 1)[j],
            ) by {
                if j < i - start {
                    assert(body.take(i - start + 1)[j] == body.take(i - start)[j]);
                }
            }
        }
        if v > limit {
            proof {
                if all_digits(body) {
                    lemma_digits_value_prefix(body, i - start + 1);
                }
            }
            return None;
        }
        i = i + 1;
    }
    assert(body.take(i - start) == body);
    Some(v)
}

/// The item that `s` writes, as `str::parse::<i16>` reads it.
pub fn parse_item(s: &str) -> (r: Option<i16>)
    ensures
        r == item_value(s@),
{
    let cs = chars_of(s);
    if cs.len() == 0 {
        return None;
    }
    let neg = cs[0] == '-';
    let start: usize = if cs[0] == '-' || cs[0] == '+' { 1 } else { 0 };
    if start == cs.len() {
        return None;
    }
    match read_digits(&cs, start, 32768) {
        Some(v) => {
            if neg {
                Some((0 - (v as i32)) as i16)
            } else if v <= 32767 {
                Some(v as i16)
            } else {
                None
            }
        },
        None => None,
    }
}

/// The size written by the characters of `cs` from `start` on.
pub fn parse_size_from(cs: &Vec<char>, start: usize) -> (r: Option<usize>)
    requires
        start <= cs.len(),
    ensures
        r == size_value(cs@.skip(start as int)),
{
    if start == cs.len() {
        return None;
    }
    match read_digits(cs, start, usize::MAX as u128) {
        Some(v) => Some(v as usize),
        None => None,
    }
}

/// The size that `s` writes: decimal digits only, no sign.
pub fn parse_size(s: &str) -> (r: Option<usize>)
    ensures
        r == size_value(s@),
{
    let cs = chars_of(s);
    assert(cs@.skip(0) == s@);
    parse_size_from(&cs, 0)
}

proof fn lemma_decimal_digits(n: nat)
    ensures
        decimal_digits(n).len() > 0,
        all_digits(decimal_digits(n)),
        digits_value(decimal_digits(n)) == n,
    decreases n,
{
    if n < 10 {
        assert((digit_char(n) as nat) == n + 48);
        assert(decimal_digits(n).drop_last() == Seq::<char>::empty());
        assert(digits_value(Seq::<char>::empty()) == 0);
        assert(digits_value(decimal_digits(n)) == 0 * 10 + ((digit_char(n) as nat) - 48) as nat);
    } else {
        lemma_decimal_digits(n / 10);
        let ds = decimal_digits(n / 10);
        let c = digit_char(n % 10);
        assert(ds.push(c).drop_last() == ds);
        assert((c as nat) == (n % 10) + 48);
        assert((n / 10) * 10 + n % 10 == n) by (nonlinear_arith);
        assert(decimal_digits(n) == ds.push(c));
        assert(digits_value(ds.push(c)) == digits_value(ds) * 10 + ((c as nat) - 48) as nat);
        assert forall|i: int| 0 <= i < ds.len() + 1 implies is_digit(#[trigger] ds.push(c)[i]) by {
            if i < ds.len() {
                assert(ds.push(c)[i] == ds[i]);
            }
        }
    }
}

/// The decimal form of an item reads back as that item, and holds only
/// digits and a leading minus sign.
pub proof fn lemma_decimal_round_trip(x: i16)
    ensures
        item_value(decimal(x as int)) == Some(x),
        decimal(x as int).len() > 0,
        forall|i: int| 0 <= i < decimal(x as int).len() ==> #[trigger] decimal(x as int)[i] != ' ',
{
    let n = if x < 0 { -(x as int) } else { x as int };
    lemma_decimal_digits(n as nat);
    let ds = decimal_digits(n as nat);
    let s = decimal(x as int);
    if x < 0 {
        assert(s == seq!['-'] + ds);
        assert(s.skip(1) == ds);
        assert forall|i: int| 0 <= i < s.len() implies #[trigger] s[i] != ' ' by {
            if i > 0 {
                assert(s[i] == ds[i - 1]);
            }
        }
    } else {
        assert(is_digit(ds[0]));
        assert(s.skip(0) == ds);
        assert forall|i: int| 0 <= i < s.len() implies #[trigger] s[i] != ' ' by {
            assert(is_digit(ds[i]));
        }
    }
}

proof fn lemma_digits_step(m: nat)
    ensures
        m < 10 ==> decimal_digits(m) == seq![digit_char(m % 10)],
        m >= 10 ==> decimal_digits(m) == decimal_digits(m / 10).push(digit_char(m % 10)),
{
}

/// The decimal form of `n`.
pub fn decimal_string(n: i16) -> (r: String)
    ensures
        r@ == decimal(n as int),
{
    let mut m: u32 = if n < 0 { (0 - (n as i32)) as u32 } else { n as u32 };
    let ghost mag: nat = m as nat;
    assert(decimal(n as int) == if n < 0 { seq!['-'] + decimal_digits(mag) } else { decimal_digits(mag) });
    let mut low: Vec<char> = Vec::new();
    loop
        invariant_except_break
            decimal_digits(mag) == decimal_digits(m as nat) + low@.reverse(),
        invariant
            m as nat <= mag,
        ensures
            decimal_digits(mag) == low@.reverse(),
        decreases m,
    {
        let d = m % 10;
        let q = m / 10;
        let c = ((d as u8) + 48) as char;
        assert(c == digit_char(d as nat));
        proof { lemma_digits_step(m as nat); }
        let ghost before = low@;
        low.push(c);
        assert(low@.reverse() == seq![c] + before.reverse());
        if m < 10 {
            break;
        }
        m = q;
    }
    let mut r = String::new();
    if n < 0 {
        push_char(&mut r, '-');
    }
    let ghost sign = r@;
    let mut j: usize = low.len();
    while j > 0
        invariant
            j <= low.len(),
            r@ == sign + low@.reverse().take(low.len() - j),
        decreases j,
    {
        j = j - 1;
        push_char(&mut r, low[j]);
        assert(low@.reverse().take(low.len() - j) == low@.reverse().take(low.len() - j - 1).push(low@[j as int]));
    }
    assert(low@.reverse().take(low.len() as int) == low@.reverse());
    r
}

} // verus!
