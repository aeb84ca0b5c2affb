//! Character-level helpers: whitespace classes, digit runs, and numerals.
//!
//! All text the library handles is a sequence of characters; numerals are
//! decoded into exact fixed-point values (see [`crate::statements::Number`]).

use vstd::prelude::*;

use crate::statements::Number;

verus! {

/// The whitespace characters of the statement grammar.
pub open spec fn is_ws(c: char) -> bool {
    c == ' ' || c == '\t' || c == '\r' || c == '\n'
}

pub fn ws_char(c: char) -> (r: bool)
    ensures
        r == is_ws(c),
{
    c == ' ' || c == '\t' || c == '\r' || c == '\n'
}

/// The characters of a text, in order.
pub fn chars_of(s: &str) -> (v: Vec<char>)
    ensures
        v@ == s@,
{
    let n = s.unicode_len();
    let mut v: Vec<char> = Vec::new();
    let mut i: usize = 0;
    while i < n
        invariant
            i <= n,
            n == s@.len(),
            v@ == s@.take(i as int),
        decreases n - i,
    {
        let c = s.get_char(i);
        v.push(c);
        proof {
            assert(v@ =~= s@.take(i as int + 1));
        }
        i += 1;
    }
    proof {
        assert(s@.take(n as int) =~= s@);
    }
    v
}

/// Whether a character slice spells the same text as a literal.
pub fn slice_eq_str(t: &[char], lit: &str) -> (r: bool)
    ensures
        r == (t@ == lit@),
{
    let n = lit.unicode_len();
    if t.len() != n {
        assert(t@.len() != lit@.len());
        return false;
    }
    let mut i: usize = 0;
    while i < n
        invariant
            i <= n,
            n == lit@.len(),
            t@.len() == n,
            forall|j: int| 0 <= j < i ==> t@[j] == lit@[j],
        decreases n - i,
    {
        if t[i] != lit.get_char(i) {
            return false;
        }
        i += 1;
    }
    proof {
        assert(t@ =~= lit@);
    }
    true
}

pub open spec fn is_digit(c: char) -> bool {
    48 <= c as u32 <= 57
}

pub fn digit_char(c: char) -> (r: bool)
    ensures
        r == is_digit(c),
{
    let u = c as u32;
    48 <= u && u <= 57
}

pub open spec fn digit_val(c: char) -> int {
    c as u32 - 48
}

pub open spec fn all_digits(s: Seq<char>) -> bool {
    forall|i: int| 0 <= i < s.len() ==> is_digit(#[trigger] s[i])
}

/// The value of a run of decimal digits, most significant first.
pub open spec fn digits_val(s: Seq<char>) -> int
    decreases s.len(),
{
    if s.len() == 0 {
        0
    } else {
        digits_val(s.drop_last()) * 10 + digit_val(s.last())
    }
}

pub open spec fn pow10(n: nat) -> int
    decreases n,
{
    if n == 0 {
        1
    } else {
        10 * pow10((n - 1) as nat)
    }
}

pub proof fn lemma_digits_val_bounds(s: Seq<char>)
    requires
        all_digits(s),
    ensures
        0 <= digits_val(s) < pow10(s.len()),
    decreases s.len(),
{
    if s.len() > 0 {
        assert(all_digits(s.drop_last())) by {
            assert(forall|i: int|
                0 <= i < s.len() - 1 ==> s.drop_last()[i] == #[trigger] s[i]);
        }
        lemma_digits_val_bounds(s.drop_last());
        assert(is_digit(s.last()));
    }
}

/// A digit run keeps at least the value of any of its prefixes.
pub proof fn lemma_digits_val_prefix(s: Seq<char>, k: int)
    requires
        all_digits(s),
        0 <= k <= s.len(),
    ensures
        digits_val(s) >= digits_val(s.take(k)),
    decreases s.len() - k,
{
    if k < s.len() {
        lemma_digits_val_prefix(s, k + 1);
        assert(s.take(k + 1).drop_last() =~= s.take(k));
        assert(all_digits(s.take(k + 1))) by {
            assert(forall|i: int|
                0 <= i < k + 1 ==> s.take(k + 1)[i] == #[trigger] s[i]);
        }
        lemma_digits_val_bounds(s.take(k));
        assert(is_digit(s.take(k + 1).last()));
        assert(digits_val(s.take(k + 1))
            == digits_val(s.take(k)) * 10 + digit_val(s.take(k + 1).last()));
    } else {
        assert(s.take(k) =~= s);
    }
}

/// The value of a digit run, or `None` when it exceeds `i64::MAX`.
pub fn digits_value(t: &[char]) -> (r: Option<u64>)
    requires
        all_digits(t@),
    ensures
        match r {
            Some(v) => v == digits_val(t@) && v <= i64::MAX,
            None => digits_val(t@) > i64::MAX,
        },
{
    let mut acc: u64 = 0;
    let mut i: usize = 0;
    let n = t.len();
    while i < n
        invariant
            i <= n,
            n == t@.len(),
            all_digits(t@),
            acc == digits_val(t@.take(i as int)),
            acc <= i64::MAX,
        decreases n - i,
    {
        let c = t[i];
        let d: u64 = (c as u32 - 48) as u64;
        proof {
            assert(is_digit(t@[i as int]));
        }
        if acc > 922_337_203_685_477_580 {
            proof {
                assert(t@.take(i as int + 1).drop_last() =~= t@.take(i as int));
                assert(digits_val(t@.take(i as int + 1)) == acc * 10 + d);
                lemma_digits_val_prefix(t@, i as int + 1);
            }
            return None;
        }
        proof {
            assert(t@.take(i as int + 1).drop_last() =~= t@.take(i as int));
        }
        acc = acc * 10 + d;
        if acc > 0x7fff_ffff_ffff_ffff {
            proof {
                lemma_digits_val_prefix(t@, i as int + 1);
            }
            return None;
        }
        i += 1;
    }
    proof {
        assert(t@.take(n as int) =~= t@);
    }
    Some(acc)
}

/// The first position of a dot in `s`, or `-1` when there is none.
pub open spec fn dot_index(s: Seq<char>) -> int
    decreases s.len(),
{
    if s.len() == 0 {
        -1
    } else if s[0] == '.' {
        0
    } else if dot_index(s.skip(1)) < 0 {
        -1
    } else {
        dot_index(s.skip(1)) + 1
    }
}

pub proof fn lemma_dot_index(s: Seq<char>)
    ensures
        dot_index(s) == -1 ==> forall|i: int| 0 <= i < s.len() ==> s[i] != '.',
        dot_index(s) >= 0 ==> {
            &&& dot_index(s) < s.len()
            &&& s[dot_index(s)] == '.'
            &&& forall|i: int| 0 <= i < dot_index(s) ==> s[i] != '.'
        },
    decreases s.len(),
{
    if s.len() > 0 && s[0] != '.' {
        lemma_dot_index(s.skip(1));
        let d1 = dot_index(s.skip(1));
        if d1 >= 0 {
            assert(s.skip(1)[d1] == s[d1 + 1]);
            assert forall|i: int| 0 <= i < d1 + 1 implies s[i] != '.' by {
                if i > 0 {
                    assert(s.skip(1)[i - 1] == s[i]);
                }
            }
        } else {
            assert forall|i: int| 0 <= i < s.len() implies s[i] != '.' by {
                if i > 0 {
                    assert(s.skip(1)[i - 1] == s[i]);
                }
            }
        }
    }
}

/// Finds the first dot in a token, as the spec function `dot_index` names it.
pub fn find_dot(t: &[char]) -> (r: Option<usize>)
    ensures
        match r {
            Some(p) => dot_index(t@) == p as int,
            None => dot_index(t@) == -1,
        },
{
    let n = t.len();
    let mut i: usize = 0;
    while i < n
        invariant
            i <= n,
            n == t@.len(),
            forall|j: int| 0 <= j < i ==> t@[j] != '.',
        decreases n - i,
    {
        if t[i] == '.' {
            proof {
                lemma_dot_index(t@);
            }
            return Some(i);
        }
        i += 1;
    }
    proof {
        lemma_dot_index(t@);
    }
    None
}

/// The shape of a signed decimal numeral: an optional sign, a digit run,
/// and an optional fractional digit run after a single dot.
pub open spec fn numeral_shape(s: Seq<char>) -> bool {
    let b = if s.len() > 0 && (s[0] == '-' || s[0] == '+') {
        s.skip(1)
    } else {
        s
    };
    let d = dot_index(b);
    if d < 0 {
        b.len() > 0 && all_digits(b)
    } else {
        &&& 0 < d < b.len() - 1
        &&& all_digits(b.take(d))
        &&& all_digits(b.skip(d + 1))
    }
}

/// The exact value of a numeral: an integer when it has no dot, else a
/// fixed-point value in millionths. `None` when the value does not fit,
/// or when more than six fractional digits are given.
pub open spec fn numeral_value(s: Seq<char>) -> Option<Number> {
    let neg = s.len() > 0 && s[0] == '-';
    let b = if s.len() > 0 && (s[0] == '-' || s[0] == '+') {
        s.skip(1)
    } else {
        s
    };
    let d = dot_index(b);
    if d < 0 {
        let v = digits_val(b);
        if v <= i32::MAX {
            Some(Number::Integer(if neg { (-v) as i32 } else { v as i32 }))
        } else {
            None
        }
    } else {
        let ip = b.take(d);
        let fp = b.skip(d + 1);
        if fp.len() > 6 {
            None
        } else {
            let m = digits_val(ip) * 1_000_000 + digits_val(fp) * pow10((6 - fp.len()) as nat);
            if m <= i64::MAX {
                Some(Number::Decimal(if neg { (-m) as i64 } else { m as i64 }))
            } else {
                None
            }
        }
    }
}

/// Tests a token for numeral shape.
pub fn numeral_shaped(t: &[char]) -> (r: bool)
    ensures
        r == numeral_shape(t@),
{
    let n = t.len();
    let signed: bool = n > 0 && (t[0] == '-' || t[0] == '+');
    let start: usize = if signed { 1 } else { 0 };
    let ghost b = if signed { t@.skip(1) } else { t@ };
    assert(b =~= t@.skip(start as int));
    let dot = find_dot_from(t, start);
    match dot {
        None => {
            proof {
                lemma_dot_skip(t@, start as int);
            }
            if n == start {
                return false;
            }
            range_digits(t, start, n)
        }
        Some(p) => {
            proof {
                lemma_dot_skip(t@, start as int);
                assert(dot_index(b) == p - start);
            }
            if p == start || p + 1 >= n {
                return false;
            }
            proof {
                assert(b.take(dot_index(b)) =~= t@.subrange(start as int, p as int));
                assert(b.skip(dot_index(b) + 1) =~= t@.subrange(p as int + 1, n as int));
            }
            let head = range_digits(t, start, p);
            if !head {
                return false;
            }
            let tail = range_digits(t, p + 1, n);
            head && tail
        }
    }
}

/// Relates the dot position of a suffix to positions in the whole token.
proof fn lemma_dot_skip(s: Seq<char>, k: int)
    requires
        0 <= k <= s.len(),
    ensures
        dot_index(s.skip(k)) >= 0 ==> {
            &&& k + dot_index(s.skip(k)) < s.len()
            &&& s[k + dot_index(s.skip(k))] == '.'
            &&& forall|i: int| k <= i < k + dot_index(s.skip(k)) ==> s[i] != '.'
        },
        dot_index(s.skip(k)) == -1 ==> forall|i: int| k <= i < s.len() ==> s[i] != '.',
{
    lemma_dot_index(s.skip(k));
    let d = dot_index(s.skip(k));
    if d >= 0 {
        assert(s.skip(k)[d] == s[k + d]);
        assert forall|i: int| k <= i < k + d implies s[i] != '.' by {
            assert(s.skip(k)[i - k] == s[i]);
        }
    } else {
        assert forall|i: int| k <= i < s.len() implies s[i] != '.' by {
            assert(s.skip(k)[i - k] == s[i]);
        }
    }
}

/// Finds the first dot at or after `from`.
fn find_dot_from(t: &[char], from: usize) -> (r: Option<usize>)
    requires
        from <= t@.len(),
    ensures
        match r {
            Some(p) => dot_index(t@.skip(from as int)) >= 0
                && from + dot_index(t@.skip(from as int)) == p as int,
            None => dot_index(t@.skip(from as int)) == -1,
        },
{
    let sub = slice_range(t, from, t.len());
    proof {
        assert(sub@ =~= t@.skip(from as int));
    }
    match find_dot(sub) {
        Some(p) => {
            proof {
                lemma_dot_index(t@.skip(from as int));
            }
            Some(from + p)
        }
        None => None,
    }
}

/// A view onto `t[from..to]`.
pub fn slice_range<'a>(t: &'a [char], from: usize, to: usize) -> (r: &'a [char])
    requires
        from <= to <= t@.len(),
    ensures
        r@ == t@.subrange(from as int, to as int),
{
    vstd::slice::slice_subrange(t, from, to)
}

/// Whether every character in `t[from..to)` is a digit.
pub fn range_digits(t: &[char], from: usize, to: usize) -> (r: bool)
    requires
        from <= to <= t@.len(),
    ensures
        r == all_digits(t@.subrange(from as int, to as int)),
{
    let mut i: usize = from;
    while i < to
        invariant
            from <= i <= to <= t@.len(),
            forall|j: int| from <= j < i ==> is_digit(#[trigger] t@[j]),
        decreases to - i,
    {
        if !digit_char(t[i]) {
            assert(!is_digit(t@.subrange(from as int, to as int)[i - from]));
            return false;
        }
        i += 1;
    }
    assert(forall|j: int| 0 <= j < to - from
        ==> #[trigger] t@.subrange(from as int, to as int)[j] == t@[j + from]);
    true
}

/// Decodes a numeral-shaped token into its exact value.
pub fn numeral_parse(t: &[char]) -> (r: Option<Number>)
    requires
        numeral_shape(t@),
    ensures
        r == numeral_value(t@),
{
    let n = t.len();
    let signed: bool = n > 0 && (t[0] == '-' || t[0] == '+');
    let neg: bool = n > 0 && t[0] == '-';
    let start: usize = if signed { 1 } else { 0 };
    let ghost b = if signed { t@.skip(1) } else { t@ };
    assert(b =~= t@.skip(start as int));
    let dot = find_dot_from(t, start);
    proof {
        lemma_dot_skip(t@, start as int);
    }
    match dot {
        None => {
            let run = slice_range(t, start, n);
            assert(run@ =~= b);
            let v = digits_value(run);
            match v {
                Some(v) => {
                    if v <= 0x7fff_ffff {
                        if neg {
                            Some(Number::Integer(-(v as i32)))
                        } else {
                            Some(Number::Integer(v as i32))
                        }
                    } else {
                        None
                    }
                }
                None => None,
            }
        }
        Some(p) => {
            proof {
                assert(dot_index(b) == p - start);
            }
            let ip = slice_range(t, start, p);
            let fp = slice_range(t, p + 1, n);
            proof {
                assert(ip@ =~= b.take(dot_index(b)));
                assert(fp@ =~= b.skip(dot_index(b) + 1));
            }
            if fp.len() > 6 {
                return None;
            }
            let iv = match digits_value(ip) {
                Some(iv) => iv,
                None => {
                    proof {
                        lemma_digits_val_bounds(fp@);
                        lemma_pow10_low((6 - fp@.len()) as nat);
                        lemma_mul_bound(digits_val(fp@), pow10(fp@.len()) - 1,
                            pow10((6 - fp@.len()) as nat));
                    }
                    return None;
                }
            };
            let fv0 = match digits_value(fp) {
                Some(fv0) => fv0,
                None => {
                    proof {
                        lemma_digits_val_bounds(fp@);
                        lemma_pow10_small();
                    }
                    assert(false);
                    return None;
                }
            };
            proof {
                lemma_digits_val_bounds(fp@);
                lemma_pow10_small();
            }
            let scale: u64 = pow10_exec(6 - fp.len());
            proof {
                lemma_pow10_val(fp@.len() as nat);
                assert(fv0 * scale <= 1_000_000 * 1_000_000) by (nonlinear_arith)
                    requires 0 <= fv0 <= 1_000_000, 0 <= scale <= 1_000_000;
            }
            let fv: u64 = fv0 * scale;
            proof {
                lemma_frac_bound(fp@.len() as nat, digits_val(fp@), pow10((6 - fp@.len()) as nat));
            }
            if iv > 9_223_372_036_854 {
                proof {
                    lemma_scaled_overflow(digits_val(ip@), digits_val(fp@) * pow10((6 - fp@.len()) as nat));
                }
                return None;
            }
            let m: u64 = iv * 1_000_000 + fv;
            if m > 0x7fff_ffff_ffff_ffff {
                None
            } else {
                if neg {
                    Some(Number::Decimal(-(m as i64)))
                } else {
                    Some(Number::Decimal(m as i64))
                }
            }
        }
    }
}

/// Ten to a small power, for fractional padding.
fn pow10_exec(n: usize) -> (r: u64)
    requires
        n <= 6,
    ensures
        r == pow10(n as nat),
        r <= 1_000_000,
{
    let mut r: u64 = 1;
    let mut i: usize = 0;
    while i < n
        invariant
            i <= n <= 6,
            r == pow10(i as nat),
            r <= 1_000_000,
        decreases n - i,
    {
        proof {
            lemma_pow10_val(i as nat + 1);
            lemma_pow10_val(i as nat);
        }
        r = r * 10;
        i += 1;
    }
    r
}

proof fn lemma_pow10_val(n: nat)
    ensures
        n <= 6 ==> pow10(n) == [1int, 10, 100, 1000, 10000, 100000, 1000000][n as int],
    decreases n,
{
    if n > 0 {
        lemma_pow10_val((n - 1) as nat);
    }
}

proof fn lemma_pow10_small()
    ensures
        forall|n: nat| n <= 6 ==> #[trigger] pow10(n) <= 1_000_000 && pow10(n) >= 1,
{
    assert forall|n: nat| n <= 6 implies #[trigger] pow10(n) <= 1_000_000 && pow10(n) >= 1 by {
        lemma_pow10_val(n);
    }
}

proof fn lemma_pow10_low(n: nat)
    ensures
        pow10(n) >= 1,
    decreases n,
{
    if n > 0 {
        lemma_pow10_low((n - 1) as nat);
    }
}

/// A fractional part of at most six digits pads to under a million.
proof fn lemma_frac_bound(len: nat, dv: int, p: int)
    requires
        len <= 6,
        0 <= dv < pow10(len),
        p == pow10((6 - len) as nat),
    ensures
        0 <= dv * p <= 999_999,
        dv * p == dv * pow10((6 - len) as nat),
{
    lemma_pow10_val(len);
    lemma_pow10_val((6 - len) as nat);
    lemma_mul_bound(dv, pow10(len) - 1, p);
    lemma_pow10_mul(len, (6 - len) as nat);
}

proof fn lemma_mul_bound(a: int, amax: int, b: int)
    requires
        0 <= a <= amax,
        0 <= b,
    ensures
        a * b <= amax * b,
        0 <= a * b,
{
    assert(a * b <= amax * b) by (nonlinear_arith)
        requires 0 <= a <= amax, 0 <= b;
    assert(0 <= a * b) by (nonlinear_arith)
        requires 0 <= a, 0 <= b;
}

proof fn lemma_pow10_mul(a: nat, b: nat)
    ensures
        pow10(a) * pow10(b) == pow10(a + b),
    decreases a,
{
    if a == 0 {
        assert(pow10(0) == 1);
    } else {
        lemma_pow10_mul((a - 1) as nat, b);
        assert(pow10(a) == 10 * pow10((a - 1) as nat));
        assert((10 * pow10((a - 1) as nat)) * pow10(b) == 10 * (pow10((a - 1) as nat) * pow10(b)))
            by (nonlinear_arith);
        assert(pow10(a + b) == 10 * pow10((a + b - 1) as nat));
    }
}

/// When the integer part alone exceeds the representable range, the whole
/// scaled value does too.
proof fn lemma_scaled_overflow(iv: int, fv: int)
    requires
        iv > 9_223_372_036_854,
        fv >= 0,
    ensures
        iv * 1_000_000 + fv > i64::MAX,
{
    assert(iv * 1_000_000 >= 9_223_372_036_855 * 1_000_000) by (nonlinear_arith)
        requires iv >= 9_223_372_036_855;
}

/// A fresh vector with the same characters.
pub fn copy_chars(v: &Vec<char>) -> (r: Vec<char>)
    ensures
        r@ == v@,
{
    let mut r: Vec<char> = Vec::new();
    let mut i: usize = 0;
    while i < v.len()
        invariant
            i <= v@.len(),
            r@ == v@.take(i as int),
        decreases v@.len() - i,
    {
        r.push(v[i]);
        proof {
            assert(r@ =~= v@.take(i as int + 1));
        }
        i += 1;
    }
    proof {
        assert(v@.take(v@.len() as int) =~= v@);
    }
    r
}

/// A fresh vector with the same elements.
pub fn copy_vec<T: Copy>(v: &Vec<T>) -> (r: Vec<T>)
    ensures
        r@ == v@,
{
    let mut r: Vec<T> = Vec::new();
    let mut i: usize = 0;
    while i < v.len()
        invariant
            i <= v@.len(),
            r@ == v@.take(i as int),
        decreases v@.len() - i,
    {
        r.push(v[i]);
        proof {
            assert(r@ =~= v@.take(i as int + 1));
        }
        i += 1;
    }
    proof {
        assert(v@.take(v@.len() as int) =~= v@);
    }
    r
}

} // verus!
