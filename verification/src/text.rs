//! Character-level text utilities: conversions between strings and character
//! vectors, string comparison, and decimal numerals.

use vstd::prelude::*;
use vstd::string::StrSliceExecFns;


verus! {

/// The characters of a string, as a vector.
pub fn str_to_chars(s: &str) -> (v: Vec<char>)
    ensures
        v@ == s@,
{
    let n = s.unicode_len();
    let mut v: Vec<char> = Vec::new();
    for i in 0..n
        invariant
            n == s@.len(),
            v@ == s@.take(i as int),
    {
        v.push(s.get_char(i));
        assert(v@ =~= s@.take(i + 1));
    }
    assert(v@ =~= s@);
    v
}

/// The string holding the characters `v[from..to]`.
pub fn chars_to_string(v: &Vec<char>, from: usize, to: usize) -> (r: String)
    requires
        from <= to <= v@.len(),
    ensures
        r@ == v@.subrange(from as int, to as int),
{
    let mut r = String::new();
    for i in from..to
        invariant
            from <= i <= to <= v@.len(),
            r@ == v@.subrange(from as int, i as int),
    {
        r.push(v[i]);
        assert(r@ =~= v@.subrange(from as int, i + 1));
    }
    r
}

/// Character-wise string equality.
pub fn str_eq(a: &str, b: &str) -> (r: bool)
    ensures
        r == (a@ == b@),
{
    let la = a.unicode_len();
    let lb = b.unicode_len();
    if la != lb {
        return false;
    }
    for i in 0..la
        invariant
            la == a@.len() == b@.len(),
            forall|k: int| 0 <= k < i ==> a@[k] == b@[k],
    {
        if a.get_char(i) != b.get_char(i) {
            return false;
        }
    }
    proof {
        assert(a@ =~= b@);
    }
    true
}

/// Whether a character is a decimal digit.
pub open spec fn spec_is_digit(c: char) -> bool {
    '0' <= c && c <= '9'
}

/// The numeric value of a decimal digit.
pub open spec fn spec_digit_val(c: char) -> nat
    recommends
        spec_is_digit(c),
{
    ((c as int) - ('0' as int)) as nat
}

/// The decimal digit with the given value.
pub open spec fn spec_digit_char(d: nat) -> char
    recommends
        d < 10,
{
    if d == 0 {
        '0'
    } else if d == 1 {
        '1'
    } else if d == 2 {
        '2'
    } else if d == 3 {
        '3'
    } else if d == 4 {
        '4'
    } else if d == 5 {
        '5'
    } else if d == 6 {
        '6'
    } else if d == 7 {
        '7'
    } else if d == 8 {
        '8'
    } else {
        '9'
    }
}

/// A digit character reads back as the value it was made from.
pub proof fn lemma_digit_char_val(d: nat)
    requires
        d < 10,
    ensures
        spec_is_digit(spec_digit_char(d)),
        spec_digit_val(spec_digit_char(d)) == d,
{
}

/// The decimal numeral of a natural number, most significant digit first.
pub open spec fn spec_decimal(n: nat) -> Seq<char>
    decreases n,
{
    if n < 10 {
        seq![spec_digit_char(n)]
    } else {
        spec_decimal(n / 10).push(spec_digit_char(n % 10))
    }
}

/// The value of a run of decimal digits, most significant digit first.
pub open spec fn spec_digits_val(s: Seq<char>) -> nat
    decreases s.len(),
{
    if s.len() == 0 {
        0
    } else {
        spec_digits_val(s.drop_last()) * 10 + spec_digit_val(s.last())
    }
}

/// Every character of a decimal numeral is a digit, the numeral is never
/// empty, and reading it back yields the number it was made from.
pub proof fn lemma_decimal_digits(n: nat)
    ensures
        spec_decimal(n).len() >= 1,
        forall|i: int| 0 <= i < spec_decimal(n).len() ==> spec_is_digit(#[trigger] spec_decimal(n)[i]),
        spec_digits_val(spec_decimal(n)) == n,
    decreases n,
{
    if n < 10 {
        let s = spec_decimal(n);
        assert(s =~= seq![spec_digit_char(n)]);
        assert(s.drop_last() =~= Seq::<char>::empty());
        lemma_digit_char_val(n);
        assert(s.last() == spec_digit_char(n));
        assert(spec_digits_val(s.drop_last()) == 0);
        assert(spec_digits_val(s) == 0 * 10 + spec_digit_val(spec_digit_char(n)));
    } else {
        lemma_decimal_digits(n / 10);
        lemma_digit_char_val(n % 10);
        let s = spec_decimal(n);
        assert(s.drop_last() =~= spec_decimal(n / 10));
        assert(spec_digits_val(s) == (n / 10) * 10 + n % 10);
        assert((n / 10) * 10 + n % 10 == n) by (nonlinear_arith);
    }
}

/// Reading more digits never reads a smaller value.
pub proof fn lemma_digits_val_monotone(s: Seq<char>, m: int)
    requires
        0 <= m <= s.len(),
    ensures
        spec_digits_val(s.take(m)) <= spec_digits_val(s),
    decreases s.len() - m,
{
    if m == s.len() {
        assert(s.take(m) =~= s);
    } else {
        lemma_digits_val_monotone(s, m + 1);
        let t = s.take(m + 1);
        assert(t.drop_last() =~= s.take(m));
        assert(spec_digits_val(s.take(m)) <= spec_digits_val(s.take(m)) * 10 + spec_digit_val(t.last()))
            by (nonlinear_arith);
    }
}

/// The decimal rendering of a 64-bit number.
pub fn u64_to_string(n: u64) -> (r: String)
    ensures
        r@ == spec_decimal(n as nat),
{
    let mut digits: Vec<char> = Vec::new();
    let mut m: u64 = n;
    while m >= 10
        invariant
            spec_decimal(n as nat) == spec_decimal(m as nat) + digits@.reverse(),
        decreases m,
    {
        let d: u64 = m % 10;
        let c: char = match d {
            0 => '0',
            1 => '1',
            2 => '2',
            3 => '3',
            4 => '4',
            5 => '5',
            6 => '6',
            7 => '7',
            8 => '8',
            _ => '9',
        };
        assert(c == spec_digit_char((m % 10) as nat));
        let m2: u64 = m / 10;
        let ghost old_digits = digits@;
        digits.push(c);
        proof {
            assert(m as nat / 10 == m2 as nat && m as nat % 10 == d as nat);
            assert(spec_decimal(m as nat) == spec_decimal(m2 as nat).push(c));
            assert(digits@.reverse() =~= seq![c] + old_digits.reverse());
            assert(spec_decimal(m2 as nat) + digits@.reverse() =~= spec_decimal(m2 as nat).push(c)
                + old_digits.reverse());
        }
        m = m2;
    }
    let d: u64 = m;
    let c: char = match d {
        0 => '0',
        1 => '1',
        2 => '2',
        3 => '3',
        4 => '4',
        5 => '5',
        6 => '6',
        7 => '7',
        8 => '8',
        _ => '9',
    };
    assert(c == spec_digit_char(m as nat));
    let ghost before = digits@;
    digits.push(c);
    assert(digits@.reverse() =~= seq![c] + before.reverse());
    assert(spec_decimal(n as nat) =~= digits@.reverse());
    let mut r = String::new();
    let len = digits.len();
    let mut i: usize = len;
    while i > 0
        invariant
            i <= len == digits@.len(),
            r@ == digits@.reverse().take((len - i) as int),
        decreases i,
    {
        i = i - 1;
        r.push(digits[i]);
        proof {
            assert(digits@.reverse()[len - i - 1] == digits@[i as int]);
            assert(r@ =~= digits@.reverse().take((len - i) as int));
        }
    }
    assert(r@ =~= digits@.reverse());
    r
}

/// The value of the decimal numeral `v[from..to]`: `None` when the range is
/// empty, holds a non-digit, or exceeds the 64-bit range.
pub open spec fn spec_parse_u64(s: Seq<char>) -> Option<u64> {
    if s.len() == 0 {
        None
    } else if exists|i: int| 0 <= i < s.len() && !spec_is_digit(s[i]) {
        None
    } else if spec_digits_val(s) > u64::MAX {
        None
    } else {
        Some(spec_digits_val(s) as u64)
    }
}

/// Read the decimal numeral `v[from..to]` as a 64-bit number.
pub fn parse_u64_chars(v: &Vec<char>, from: usize, to: usize) -> (r: Option<u64>)
    requires
        from <= to <= v@.len(),
    ensures
        r == spec_parse_u64(v@.subrange(from as int, to as int)),
{
    let ghost s = v@.subrange(from as int, to as int);
    if from == to {
        return None;
    }
    let mut acc: u64 = 0;
    let mut i: usize = from;
    while i < to
        invariant
            from <= i <= to <= v@.len(),
            s == v@.subrange(from as int, to as int),
            forall|k: int| from <= k < i ==> spec_is_digit(#[trigger] v@[k]),
            acc as nat == spec_digits_val(s.take(i - from)),
        decreases to - i,
    {
        let c = v[i];
        if !(c >= '0' && c <= '9') {
            assert(!spec_is_digit(s[i - from]));
            return None;
        }
        let d: u64 = (c as u32 as u64) - ('0' as u32 as u64);
        assert(d as nat == spec_digit_val(c) && d < 10);
        let next = match acc.checked_mul(10) {
            Some(t) => t.checked_add(d),
            None => None,
        };
        proof {
            assert(s.take(i + 1 - from).drop_last() =~= s.take(i - from));
            assert(s.take(i + 1 - from).last() == v@[i as int]);
        }
        match next {
            Some(t) => {
                acc = t;
            },
            None => {
                proof {
                    assert(spec_digits_val(s.take(i + 1 - from)) > u64::MAX);
                    lemma_digits_val_monotone(s, i + 1 - from);
                    if forall|k: int| 0 <= k < s.len() ==> spec_is_digit(#[trigger] s[k]) {
                        assert(spec_digits_val(s) > u64::MAX);
                    }
                }
                return None;
            },
        }
        i = i + 1;
    }
    proof {
        assert(s.take(to - from) =~= s);
        assert(forall|k: int| 0 <= k < s.len() ==> spec_is_digit(#[trigger] s[k]));
    }
    Some(acc)
}

/// Read a whole string as a decimal 64-bit number.
pub fn parse_u64_str(s: &str) -> (r: Option<u64>)
    ensures
        r == spec_parse_u64(s@),
{
    let v = str_to_chars(s);
    let n = v.len();
    let r = parse_u64_chars(&v, 0, n);
    proof {
        assert(v@.subrange(0, n as int) =~= s@);
    }
    r
}

} // verus!
