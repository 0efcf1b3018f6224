use vstd::prelude::*;
use vstd::string::{StrSliceExecFns, StringExecFns};

use crate::records::MAX_AMOUNT;

verus! {

pub open spec fn is_digit(c: char) -> bool {
    '0' <= c <= '9'
}

pub open spec fn digit_char(d: int) -> char {
    ((d + 48) as u8) as char
}

pub open spec fn all_digits(s: Seq<char>) -> bool {
    forall|i: int| 0 <= i < s.len() ==> is_digit(#[trigger] s[i])
}

/// The number that a string of decimal digits writes.
pub open spec fn digits_value(s: Seq<char>) -> int
    decreases s.len(),
{
    if s.len() == 0 {
        0
    } else {
        digits_value(s.drop_last()) * 10 + (s.last() as int - 48)
    }
}

pub open spec fn pow10(n: nat) -> int
    decreases n,
{
    if n == 0 {
        1
    } else {
        10 * pow10((n - 1) as nat)
    }
}

/// Longest run of digits accepted before the decimal point.
pub const MAX_WHOLE_DIGITS: usize = 15;

/// The value in hundredths of a decimal amount: one to fifteen digits,
/// optionally followed by a point and one or two digits.
pub open spec fn amount_value(s: Seq<char>) -> Option<int> {
    let n = s.len() as int;
    if 0 < n <= MAX_WHOLE_DIGITS && all_digits(s) {
        Some(100 * digits_value(s))
    } else if 3 <= n <= MAX_WHOLE_DIGITS + 2 && s[n - 2] == '.' && all_digits(s.take(n - 2))
        && is_digit(s[n - 1]) {
        Some(100 * digits_value(s.take(n - 2)) + 10 * digits_value(s.subrange(n - 1, n)))
    } else if 4 <= n <= MAX_WHOLE_DIGITS + 3 && s[n - 3] == '.' && all_digits(s.take(n - 3))
        && all_digits(s.subrange(n - 2, n)) {
        Some(100 * digits_value(s.take(n - 3)) + digits_value(s.subrange(n - 2, n)))
    } else {
        None
    }
}

/// The decimal digits of `n`, without leading zeros.
pub open spec fn nat_text(n: nat) -> Seq<char>
    decreases n,
{
    if n < 10 {
        seq![digit_char(n as int)]
    } else {
        nat_text(n / 10).push(digit_char((n % 10) as int))
    }
}

/// An amount of hundredths written with two decimals: `-12.05`.
pub open spec fn cents_text(v: int) -> Seq<char> {
    let a = if v < 0 {
        -v
    } else {
        v
    };
    let sign = if v < 0 {
        seq!['-']
    } else {
        Seq::<char>::empty()
    };
    sign + nat_text((a / 100) as nat) + seq!['.', digit_char((a % 100) / 10), digit_char(a % 10)]
}

/// An integer written in decimal, with a leading `-` when negative.
pub open spec fn int_text(v: int) -> Seq<char> {
    if v < 0 {
        seq!['-'] + nat_text((-v) as nat)
    } else {
        nat_text(v as nat)
    }
}

/// `s` padded on the left with zeros to at least `width` characters.
pub open spec fn zero_padded(s: Seq<char>, width: nat) -> Seq<char> {
    if s.len() >= width {
        s
    } else {
        Seq::new((width - s.len()) as nat, |i: int| '0') + s
    }
}

fn digit_string(d: u128) -> (r: String)
    requires
        d < 10,
    ensures
        r@ == seq![digit_char(d as int)],
{
    proof {
        reveal_strlit("0");
        reveal_strlit("1");
        reveal_strlit("2");
        reveal_strlit("3");
        reveal_strlit("4");
        reveal_strlit("5");
        reveal_strlit("6");
        reveal_strlit("7");
        reveal_strlit("8");
        reveal_strlit("9");
    }
    let r = if d == 0 {
        String::from_str("0")
    } else if d == 1 {
        String::from_str("1")
    } else if d == 2 {
        String::from_str("2")
    } else if d == 3 {
        String::from_str("3")
    } else if d == 4 {
        String::from_str("4")
    } else if d == 5 {
        String::from_str("5")
    } else if d == 6 {
        String::from_str("6")
    } else if d == 7 {
        String::from_str("7")
    } else if d == 8 {
        String::from_str("8")
    } else {
        String::from_str("9")
    };
    assert(r@ =~= seq![digit_char(d as int)]);
    r
}

/// The decimal digits of `n`, without leading zeros.
fn decimal_text(n: u128) -> (r: String)
    ensures
        r@ == nat_text(n as nat),
    decreases n,
{
    if n < 10 {
        digit_string(n)
    } else {
        let head = decimal_text(n / 10);
        let last = digit_string(n % 10);
        let r = head.concat(last.as_str());
        assert(r@ =~= nat_text(n as nat));
        r
    }
}

proof fn lemma_digits_bounded(s: Seq<char>)
    requires
        all_digits(s),
    ensures
        0 <= digits_value(s) < pow10(s.len()),
    decreases s.len(),
{
    if s.len() > 0 {
        assert(all_digits(s.drop_last()));
        lemma_digits_bounded(s.drop_last());
        assert(is_digit(s[s.len() - 1]));
    }
}

proof fn lemma_pow10_monotone(n: nat, m: nat)
    requires
        n <= m,
    ensures
        1 <= pow10(n) <= pow10(m),
    decreases m,
{
    if n < m {
        lemma_pow10_monotone(n, (m - 1) as nat);
    } else if n > 0 {
        lemma_pow10_monotone((n - 1) as nat, (n - 1) as nat);
    }
}

proof fn lemma_pow10_18(n: nat)
    requires
        n <= 18,
    ensures
        1 <= pow10(n) <= 1_000_000_000_000_000_000,
{
    lemma_pow10_monotone(n, 18);
    reveal_with_fuel(pow10, 19);
}

/// The value of the digits `s[from..to]`, if they are all digits.
pub(crate) fn digits_in(s: &str, from: usize, to: usize) -> (r: Option<u64>)
    requires
        from <= to <= s@.len(),
        to - from <= 18,
    ensures
        match r {
            Some(v) => all_digits(s@.subrange(from as int, to as int)) && v == digits_value(
                s@.subrange(from as int, to as int),
            ),
            None => !all_digits(s@.subrange(from as int, to as int)),
        },
{
    let mut acc: u64 = 0;
    let mut i = from;
    while i < to
        invariant
            from <= i <= to <= s@.len(),
            to - from <= 18,
            all_digits(s@.subrange(from as int, i as int)),
            acc == digits_value(s@.subrange(from as int, i as int)),
        decreases to - i,
    {
        let c = s.get_char(i);
        let ghost sub = s@.subrange(from as int, i + 1);
        if c < '0' || c > '9' {
            assert(sub.subrange(0, (i - from) as int + 1).last() == c);
            assert(!is_digit(s@.subrange(from as int, to as int)[i - from]));
            return None;
        }
        assert(sub.drop_last() =~= s@.subrange(from as int, i as int));
        assert(sub.last() == c);
        proof {
            lemma_digits_bounded(s@.subrange(from as int, i as int));
            lemma_pow10_18((i - from) as nat);
            lemma_pow10_18((i - from + 1) as nat);
        }
        assert(pow10((i - from + 1) as nat) == 10 * pow10((i - from) as nat));
        acc = acc * 10 + (c as u64 - 48);
        i = i + 1;
    }
    Some(acc)
}

/// Parses a decimal amount (`4`, `4.5`, `40.25`) into hundredths. Refuses
/// anything else, and an amount above `MAX_AMOUNT` hundredths.
pub fn parse_amount(s: &str) -> (r: Option<u64>)
    ensures
        r == (match amount_value(s@) {
            Some(v) => if v <= MAX_AMOUNT {
                Some(v as u64)
            } else {
                None::<u64>
            },
            None => None,
        }),
        r matches Some(x) ==> amount_value(s@) == Some(x as int),
{
    let n = s.unicode_len();
    if n == 0 {
        return None;
    }
    assert(s@.take(n as int) =~= s@.subrange(0, n as int));
    assert(s@.subrange(0, n as int) =~= s@);
    if n <= MAX_WHOLE_DIGITS {
        match digits_in(s, 0, n) {
            Some(w) => {
                proof {
                    lemma_digits_bounded(s@);
                    lemma_pow10_18(n as nat);
                }
                if w <= MAX_AMOUNT / 100 {
                    return Some(w * 100);
                } else {
                    return None;
                }
            },
            None => {},
        }
    }
    if 3 <= n && n <= MAX_WHOLE_DIGITS + 2 && s.get_char(n - 2) == '.' {
        assert(s@.take(n - 2) =~= s@.subrange(0, n - 2));
        match (digits_in(s, 0, n - 2), digits_in(s, n - 1, n)) {
            (Some(w), Some(f)) => {
                proof {
                    lemma_digits_bounded(s@.subrange(n - 1, n as int));
                }
                reveal_with_fuel(pow10, 2);
                if w <= MAX_AMOUNT / 100 && w * 100 + f * 10 <= MAX_AMOUNT {
                    return Some(w * 100 + f * 10);
                } else {
                    return None;
                }
            },
            _ => {},
        }
    }
    if 4 <= n && n <= MAX_WHOLE_DIGITS + 3 && s.get_char(n - 3) == '.' {
        assert(s@.take(n - 3) =~= s@.subrange(0, n - 3));
        match (digits_in(s, 0, n - 3), digits_in(s, n - 2, n)) {
            (Some(w), Some(f)) => {
                proof {
                    lemma_digits_bounded(s@.subrange(n - 2, n as int));
                    reveal_with_fuel(pow10, 3);
                }
                if w <= MAX_AMOUNT / 100 && w * 100 + f <= MAX_AMOUNT {
                    return Some(w * 100 + f);
                } else {
                    return None;
                }
            },
            _ => {},
        }
    }
    None
}

/// The value that the digits after an optional sign write, with the sign.
pub open spec fn signed_digits(s: Seq<char>) -> Option<int> {
    let n = s.len() as int;
    if 1 <= n <= 10 && all_digits(s) {
        Some(digits_value(s))
    } else if 2 <= n <= 11 && s[0] == '+' && all_digits(s.drop_first()) {
        Some(digits_value(s.drop_first()))
    } else if 2 <= n <= 11 && s[0] == '-' && all_digits(s.drop_first()) {
        Some(-digits_value(s.drop_first()))
    } else {
        None
    }
}

/// The value of an integer id: an optional sign and up to ten digits, within
/// the range of `i32`.
pub open spec fn id_value(s: Seq<char>) -> Option<int> {
    match signed_digits(s) {
        Some(v) => if i32::MIN <= v <= i32::MAX {
            Some(v)
        } else {
            None
        },
        None => None,
    }
}

/// Parses an integer id such as `17`, `+5` or `-3`.
pub fn parse_id(s: &str) -> (r: Option<i32>)
    ensures
        match id_value(s@) {
            Some(v) => r == Some(v as i32) && v == r->0 as int,
            None => r is None,
        },
{
    let n = s.unicode_len();
    if n == 0 {
        return None;
    }
    assert(s@.subrange(0, n as int) =~= s@);
    assert(s@.subrange(1, n as int) =~= s@.drop_first());
    let mut magnitude: Option<u64> = None;
    let mut negative = false;
    if n <= 10 {
        magnitude = digits_in(s, 0, n);
    }
    if magnitude.is_none() && 2 <= n && n <= 11 {
        let c = s.get_char(0);
        if c == '+' || c == '-' {
            magnitude = digits_in(s, 1, n);
            negative = c == '-';
        }
    }
    match magnitude {
        Some(m) => {
            if negative {
                if m <= 2147483648 {
                    Some((-(m as i64)) as i32)
                } else {
                    None
                }
            } else if m <= 2147483647 {
                Some(m as i32)
            } else {
                None
            }
        },
        None => None,
    }
}

/// Writes an amount of hundredths with two decimals: `1234` as `12.34`.
pub fn cents_to_string(v: i128) -> (r: String)
    requires
        -0x1000_0000_0000_0000_0000_0000_0000_0000 <= v <= 0x1000_0000_0000_0000_0000_0000_0000_0000,
    ensures
        r@ == cents_text(v as int),
{
    let a: u128 = if v < 0 {
        (-v) as u128
    } else {
        v as u128
    };
    let whole = decimal_text(a / 100);
    let tens = decimal_text((a % 100) / 10);
    let ones = decimal_text(a % 10);
    proof {
        reveal_strlit("-");
        reveal_strlit(".");
        reveal_strlit("");
    }
    let head = if v < 0 {
        String::from_str("-")
    } else {
        String::from_str("")
    };
    let r = head.concat(whole.as_str()).concat(".").concat(tens.as_str()).concat(ones.as_str());
    assert(r@ =~= cents_text(v as int));
    r
}

/// Writes an integer in decimal.
pub fn int_to_string(v: i32) -> (r: String)
    ensures
        r@ == int_text(v as int),
{
    proof {
        reveal_strlit("-");
    }
    if v < 0 {
        let digits = decimal_text((-(v as i64)) as u128);
        let r = String::from_str("-").concat(digits.as_str());
        assert(r@ =~= int_text(v as int));
        r
    } else {
        decimal_text(v as u128)
    }
}

/// Writes `n` in decimal, padded on the left with zeros to `width` digits.
pub fn padded_to_string(n: u128, width: usize) -> (r: String)
    ensures
        r@ == zero_padded(nat_text(n as nat), width as nat),
{
    let digits = decimal_text(n);
    let len = digits.as_str().unicode_len();
    let mut pad = String::from_str("");
    let mut k: usize = len;
    proof {
        reveal_strlit("");
        reveal_strlit("0");
    }
    while k < width
        invariant
            len == digits@.len(),
            digits@ == nat_text(n as nat),
            len <= k,
            k <= width || len > width,
            len >= width ==> k == len,
            pad@ =~= Seq::new((k - len) as nat, |i: int| '0'),
        decreases width - k,
    {
        proof {
            reveal_strlit("0");
        }
        pad.append("0");
        k = k + 1;
    }
    let r = pad.concat(digits.as_str());
    assert(r@ == pad@ + digits@);
    if len < width {
        assert(k == width);
    } else {
        assert(pad@ =~= Seq::<char>::empty());
    }
    assert(r@ =~= zero_padded(nat_text(n as nat), width as nat));
    r
}

} // verus!
