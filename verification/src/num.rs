use vstd::prelude::*;

verus! {

/// An ASCII decimal digit.
pub open spec fn spec_is_digit(c: char) -> bool {
    '0' <= c && c <= '9'
}

/// True when `s` is non-empty and consists of ASCII decimal digits only.
pub open spec fn spec_is_num(s: Seq<char>) -> bool {
    forall|i: int| 0 <= i < s.len() ==> #[trigger] spec_is_digit(s[i])
}

/// Whether every character of the text is an ASCII decimal digit.
pub fn is_num(input: String) -> (r: bool)
    ensures
        r == spec_is_num(input@),
{
    let s = input.as_str();
    let n = s.unicode_len();
    let mut i: usize = 0;
    while i < n
        invariant
            s@ == input@,
            n == s@.len(),
            0 <= i <= n,
            forall|j: int| 0 <= j < i ==> #[trigger] spec_is_digit(s@[j]),
        decreases n - i,
    {
        let c = s.get_char(i);
        if !(c >= '0' && c <= '9') {
            assert(!spec_is_digit(s@[i as int]));
            return false;
        }
        i += 1;
    }
    true
}

/// The number a digit string denotes, most significant digit first.
pub open spec fn spec_digits_val(s: Seq<char>) -> int
    decreases s.len(),
{
    if s.len() == 0 {
        0
    } else {
        spec_digits_val(s.drop_last()) * 10 + (s.last() as int - '0' as int)
    }
}

pub proof fn lemma_digits_val_nonneg(s: Seq<char>)
    requires
        spec_is_num(s),
    ensures
        spec_digits_val(s) >= 0,
    decreases s.len(),
{
    if s.len() > 0 {
        assert(spec_is_digit(s[s.len() - 1]));
        assert(forall|i: int|
            0 <= i < s.drop_last().len() ==> #[trigger] s.drop_last()[i] == s[i]);
        lemma_digits_val_nonneg(s.drop_last());
    }
}

/// Extending a digit string never shrinks its value.
pub proof fn lemma_digits_val_prefix_le(s: Seq<char>, i: int)
    requires
        spec_is_num(s),
        0 <= i <= s.len(),
    ensures
        spec_digits_val(s.take(i)) <= spec_digits_val(s),
    decreases s.len() - i,
{
    if i < s.len() {
        lemma_digits_val_prefix_le(s, i + 1);
        assert(s.take(i + 1).drop_last() =~= s.take(i));
        assert(s.take(i + 1).last() == s[i]);
        assert(spec_is_digit(s[i]));
        assert(forall|k: int| 0 <= k < i ==> #[trigger] s.take(i)[k] == s[k]);
        assert(spec_is_num(s.take(i))) by {
            assert(forall|k: int|
                0 <= k < s.take(i).len() ==> #[trigger] spec_is_digit(s.take(i)[k]));
        };
        lemma_digits_val_nonneg(s.take(i));
        assert(spec_digits_val(s.take(i + 1)) == spec_digits_val(s.take(i)) * 10 + (
        s[i] as int - '0' as int));
    } else {
        assert(s.take(i) =~= s);
    }
}

/// The value of a non-empty digit string, if it fits in a `u64`.
pub open spec fn spec_parse_u64(s: Seq<char>) -> Option<u64> {
    if s.len() > 0 && spec_is_num(s) && spec_digits_val(s) <= u64::MAX as int {
        Option::Some(spec_digits_val(s) as u64)
    } else {
        Option::None
    }
}

/// A decimal integer with an optional leading sign, if it fits in an `i64`.
pub open spec fn spec_parse_i64(s: Seq<char>) -> Option<i64> {
    if s.len() == 0 {
        Option::None
    } else {
        let neg = s[0] == '-';
        let digits = if s[0] == '-' || s[0] == '+' {
            s.drop_first()
        } else {
            s
        };
        if digits.len() > 0 && spec_is_num(digits) {
            let m = spec_digits_val(digits);
            if neg && -m >= i64::MIN as int {
                Option::Some((-m) as i64)
            } else if !neg && m <= i64::MAX as int {
                Option::Some(m as i64)
            } else {
                Option::None
            }
        } else {
            Option::None
        }
    }
}

/// Parses a non-empty digit string as a `u64`, exactly as `spec_parse_u64`
/// says: `None` when a character is no digit or the value overflows.
pub fn parse_u64(s: &str) -> (r: Option<u64>)
    ensures
        r == spec_parse_u64(s@),
{
    let n = s.unicode_len();
    if n == 0 {
        return None;
    }
    let mut acc: u64 = 0;
    let mut i: usize = 0;
    while i < n
        invariant
            n == s@.len(),
            0 < n,
            0 <= i <= n,
            spec_is_num(s@.take(i as int)),
            acc as int == spec_digits_val(s@.take(i as int)),
        decreases n - i,
    {
        let c = s.get_char(i);
        if !(c >= '0' && c <= '9') {
            proof {
                assert(!spec_is_digit(s@[i as int]));
            }
            return None;
        }
        let d: u64 = (c as u32 as u64) - 48;
        proof {
            assert(s@.take(i + 1 as int).drop_last() =~= s@.take(i as int));
            assert(s@.take(i + 1 as int).last() == s@[i as int]);
            assert(forall|k: int|
                0 <= k < i + 1 ==> #[trigger] s@.take(i + 1 as int)[k] == s@[k]);
        }
        if acc > 1844674407370955161u64 || (acc == 1844674407370955161u64 && d > 5) {
            proof {
                assert(spec_digits_val(s@.take(i + 1 as int)) > u64::MAX as int);
                if spec_is_num(s@) {
                    lemma_digits_val_prefix_le(s@, i + 1);
                    assert(spec_digits_val(s@) > u64::MAX as int);
                }
            }
            return None;
        }
        acc = acc * 10 + d;
        i += 1;
    }
    proof {
        assert(s@.take(n as int) =~= s@);
    }
    Some(acc)
}

/// Parses an optionally signed decimal string as an `i64`, exactly as
/// `spec_parse_i64` says.
pub fn parse_i64(s: &str) -> (r: Option<i64>)
    ensures
        r == spec_parse_i64(s@),
{
    let n = s.unicode_len();
    if n == 0 {
        return None;
    }
    let c0 = s.get_char(0);
    let neg = c0 == '-';
    let digits = if c0 == '-' || c0 == '+' {
        s.substring_char(1, n)
    } else {
        s
    };
    proof {
        if c0 == '-' || c0 == '+' {
            assert(digits@ =~= s@.drop_first());
        }
    }
    match parse_u64(digits) {
        None => {
            proof {
                if spec_parse_i64(s@) is Some {
                    assert(digits@.len() > 0 && spec_is_num(digits@));
                    lemma_digits_val_nonneg(digits@);
                    assert(spec_digits_val(digits@) <= u64::MAX as int);
                    assert(spec_parse_u64(digits@) is Some);
                }
            }
            None
        },
        Some(m) => {
            proof {
                lemma_digits_val_nonneg(digits@);
            }
            if neg {
                if m <= 9223372036854775808u64 {
                    let r: i64 = if m == 9223372036854775808u64 {
                        i64::MIN
                    } else {
                        -(m as i64)
                    };
                    Some(r)
                } else {
                    None
                }
            } else {
                if m <= i64::MAX as u64 {
                    Some(m as i64)
                } else {
                    None
                }
            }
        },
    }
}

/// The character of one decimal digit.
pub open spec fn spec_digit_char(d: int) -> char {
    ((48 + d) as u8) as char
}

/// The decimal text of a non-negative number, most significant digit
/// first.
pub open spec fn spec_u64_digits(u: int) -> Seq<char>
    decreases u,
{
    if u < 10 {
        seq![spec_digit_char(if u < 0 { 0 } else { u })]
    } else {
        spec_u64_digits(u / 10) + seq![spec_digit_char(u % 10)]
    }
}

/// The decimal text of an integer: a minus sign for negatives, then the
/// digits of the magnitude.
pub open spec fn spec_i64_text(i: int) -> Seq<char> {
    if i < 0 {
        seq!['-'] + spec_u64_digits(-i)
    } else {
        spec_u64_digits(i)
    }
}

pub proof fn lemma_u64_digits_are_digits(u: int)
    requires
        u >= 0,
    ensures
        spec_u64_digits(u).len() >= 1,
        spec_is_num(spec_u64_digits(u)),
    decreases u,
{
    if u < 10 {
        assert(spec_is_digit(spec_digit_char(u)));
        assert(spec_u64_digits(u) =~= seq![spec_digit_char(u)]);
    } else {
        lemma_u64_digits_are_digits(u / 10);
        assert(0 <= u % 10 < 10);
        assert(spec_is_digit(spec_digit_char(u % 10)));
        let w = spec_u64_digits(u / 10) + seq![spec_digit_char(u % 10)];
        assert(forall|k: int|
            0 <= k < w.len() ==> #[trigger] spec_is_digit(w[k])) by {
            assert(forall|k: int|
                0 <= k < spec_u64_digits(u / 10).len() ==> w[k] == spec_u64_digits(u / 10)[k]
                    && spec_is_digit(#[trigger] spec_u64_digits(u / 10)[k]));
            assert(w[w.len() - 1] == spec_digit_char(u % 10));
        };
    }
}

/// Rendering a number and reading the digits back gives the number.
pub proof fn lemma_u64_digits_val(u: int)
    requires
        u >= 0,
    ensures
        spec_digits_val(spec_u64_digits(u)) == u,
    decreases u,
{
    if u < 10 {
        assert('0' as int == 48);
        assert(spec_u64_digits(u) =~= seq![spec_digit_char(u)]);
        assert(spec_u64_digits(u).drop_last() =~= Seq::<char>::empty());
        assert(spec_u64_digits(u).last() == spec_digit_char(u));
        assert(spec_digit_char(u) as int == 48 + u);
        assert(spec_digits_val(spec_u64_digits(u)) == spec_digits_val(Seq::<char>::empty()) * 10
            + (spec_digit_char(u) as int - 48));
    } else {
        lemma_u64_digits_val(u / 10);
        let w = spec_u64_digits(u / 10) + seq![spec_digit_char(u % 10)];
        assert(w.drop_last() =~= spec_u64_digits(u / 10));
        assert(w.last() == spec_digit_char(u % 10));
        assert('0' as int == 48);
        assert(spec_digit_char(u % 10) as int == 48 + u % 10);
        assert(spec_digits_val(w) == spec_digits_val(spec_u64_digits(u / 10)) * 10 + (
        spec_digit_char(u % 10) as int - 48));
        assert(spec_digits_val(w) == (u / 10) * 10 + u % 10);
        assert((u / 10) * 10 + u % 10 == u) by (nonlinear_arith);
    }
}

/// The decimal digits of a number, exactly as `spec_u64_digits` says.
pub fn u64_digits(u: u64) -> (r: Vec<char>)
    ensures
        r@ == spec_u64_digits(u as int),
    decreases u,
{
    if u < 10 {
        let d: u8 = 48 + (u as u8);
        let mut r: Vec<char> = Vec::new();
        r.push(d as char);
        proof {
            assert(r@ =~= seq![spec_digit_char(u as int)]);
        }
        r
    } else {
        let mut r = u64_digits(u / 10);
        let d: u8 = 48 + ((u % 10) as u8);
        r.push(d as char);
        proof {
            assert(r@ =~= spec_u64_digits(u as int / 10) + seq![
                spec_digit_char(u as int % 10),
            ]);
        }
        r
    }
}

/// The decimal text of a signed integer, exactly as `spec_i64_text` says.
pub fn i64_digits(i: i64) -> (r: Vec<char>)
    ensures
        r@ == spec_i64_text(i as int),
{
    if i >= 0 {
        u64_digits(i as u64)
    } else {
        let m: u64 = if i == i64::MIN {
            9223372036854775808u64
        } else {
            (-i) as u64
        };
        let digits = u64_digits(m);
        let mut r: Vec<char> = Vec::new();
        r.push('-');
        let n = digits.len();
        let mut k: usize = 0;
        while k < n
            invariant
                n == digits@.len(),
                0 <= k <= n,
                r@ == seq!['-'] + digits@.take(k as int),
            decreases n - k,
        {
            r.push(digits[k]);
            proof {
                assert(seq!['-'] + digits@.take(k + 1 as int) =~= (seq!['-'] + digits@.take(
                    k as int,
                )).push(digits@[k as int]));
            }
            k += 1;
        }
        proof {
            assert(digits@.take(n as int) =~= digits@);
            assert(m as int == -(i as int));
        }
        r
    }
}

/// Digits with at most one decimal point among them, at least one digit:
/// the mantissa of a floating-point literal.
pub open spec fn spec_mantissa_ok(digits: Seq<char>) -> bool {
    &&& (forall|i: int|
        0 <= i < digits.len() ==> spec_is_digit(#[trigger] digits[i]) || digits[i] == '.')
    &&& (exists|i: int| 0 <= i < digits.len() && spec_is_digit(#[trigger] digits[i]))
    &&& (forall|i: int, j: int|
        0 <= i < j < digits.len() ==> !(#[trigger] digits[i] == '.' && #[trigger] digits[j]
            == '.'))
}

/// An exponent part: `e` or `E`, an optional sign, then at least one digit.
pub open spec fn spec_exponent_ok(e: Seq<char>) -> bool {
    if e.len() >= 1 && (e[0] == 'e' || e[0] == 'E') {
        ({
            let ds = if e.len() >= 2 && (e[1] == '-' || e[1] == '+') {
                e.skip(2)
            } else {
                e.skip(1)
            };
            ds.len() > 0 && spec_is_num(ds)
        })
    } else {
        false
    }
}

/// A mantissa, optionally followed by an exponent part.
pub open spec fn spec_float_digits_ok(digits: Seq<char>) -> bool {
    exists|m: int|
        0 <= m <= digits.len() && spec_mantissa_ok(#[trigger] digits.take(m)) && (m
            == digits.len() || spec_exponent_ok(digits.skip(m)))
}

/// The shape of a floating-point literal: an optional sign, then digits
/// with at most one decimal point among them and at least one digit, then
/// an optional exponent (`e` or `E`, an optional sign, digits). The word
/// forms `inf` and `NaN` are not literals of this pipeline and stay
/// rejected.
pub open spec fn spec_is_float(s: Seq<char>) -> bool {
    if s.len() > 0 && (s[0] == '-' || s[0] == '+') {
        spec_float_digits_ok(s.drop_first())
    } else {
        spec_float_digits_ok(s)
    }
}

/// Checks a digit-or-dot run for the mantissa shape.
fn mantissa_check(s: &str, from: usize, to: usize) -> (r: bool)
    requires
        from <= to <= s@.len(),
    ensures
        r == spec_mantissa_ok(s@.subrange(from as int, to as int)),
{
    let ghost mant = s@.subrange(from as int, to as int);
    let mut saw_digit = false;
    let mut saw_dot = false;
    let mut i: usize = from;
    while i < to
        invariant
            from <= i <= to <= s@.len(),
            mant == s@.subrange(from as int, to as int),
            forall|k: int|
                0 <= k < i - from ==> #[trigger] spec_is_digit(mant[k]) || mant[k] == '.',
            saw_digit == exists|k: int| 0 <= k < i - from && spec_is_digit(#[trigger] mant[k]),
            saw_dot == exists|k: int| 0 <= k < i - from && #[trigger] mant[k] == '.',
            forall|a: int, b: int|
                0 <= a < b < i - from ==> !(#[trigger] mant[a] == '.' && #[trigger] mant[b]
                    == '.'),
        decreases to - i,
    {
        let c = s.get_char(i);
        proof {
            assert(mant[i - from] == s@[i as int]);
        }
        if c >= '0' && c <= '9' {
            saw_digit = true;
        } else if c == '.' {
            if saw_dot {
                proof {
                    let b = i - from;
                    let a = choose|a: int| 0 <= a < b && #[trigger] mant[a] == '.';
                    assert(mant[a] == '.' && mant[b as int] == '.');
                    assert(!spec_mantissa_ok(mant));
                }
                return false;
            }
            saw_dot = true;
        } else {
            proof {
                assert(0 <= i - from < mant.len());
                assert(!spec_is_digit(mant[i - from]) && mant[i - from] != '.');
                assert(!spec_mantissa_ok(mant));
            }
            return false;
        }
        i += 1;
    }
    proof {
        if saw_digit {
            assert(spec_mantissa_ok(mant));
        } else {
            assert(!spec_mantissa_ok(mant));
        }
    }
    saw_digit
}

/// Checks an exponent run starting at the `e`/`E`.
fn exponent_check(s: &str, from: usize, to: usize) -> (r: bool)
    requires
        from < to <= s@.len(),
        s@[from as int] == 'e' || s@[from as int] == 'E',
    ensures
        r == spec_exponent_ok(s@.subrange(from as int, to as int)),
{
    let ghost e = s@.subrange(from as int, to as int);
    let dstart: usize = if from + 1 < to && (s.get_char(from + 1) == '-' || s.get_char(from + 1)
        == '+') {
        from + 2
    } else {
        from + 1
    };
    let ghost ds = if e.len() >= 2 && (e[1] == '-' || e[1] == '+') {
        e.skip(2)
    } else {
        e.skip(1)
    };
    proof {
        assert(ds =~= s@.subrange(dstart as int, to as int));
    }
    if dstart >= to {
        proof {
            assert(e.len() >= 1);
            assert(e[0] == s@[from as int]);
            assert(ds.len() == 0);
            assert(!spec_exponent_ok(e));
        }
        return false;
    }
    let mut i: usize = dstart;
    while i < to
        invariant
            from < to <= s@.len(),
            dstart <= i <= to,
            dstart < to,
            s@[from as int] == 'e' || s@[from as int] == 'E',
            e == s@.subrange(from as int, to as int),
            ds == (if e.len() >= 2 && (e[1] == '-' || e[1] == '+') {
                e.skip(2)
            } else {
                e.skip(1)
            }),
            ds == s@.subrange(dstart as int, to as int),
            forall|k: int| 0 <= k < i - dstart ==> #[trigger] spec_is_digit(ds[k]),
        decreases to - i,
    {
        let c = s.get_char(i);
        proof {
            assert(ds[i - dstart] == s@[i as int]);
        }
        if !(c >= '0' && c <= '9') {
            proof {
                assert(!spec_is_digit(ds[i - dstart]));
            }
            return false;
        }
        i += 1;
    }
    proof {
        assert(spec_is_num(ds));
    }
    true
}

/// Whether the text has the shape of a floating-point literal, exactly as
/// `spec_is_float` says.
pub fn is_float_literal(s: &str) -> (r: bool)
    ensures
        r == spec_is_float(s@),
{
    let n = s.unicode_len();
    let start: usize = if n > 0 && (s.get_char(0) == '-' || s.get_char(0) == '+') {
        1
    } else {
        0
    };
    let ghost digits = if s@.len() > 0 && (s@[0] == '-' || s@[0] == '+') {
        s@.drop_first()
    } else {
        s@
    };
    proof {
        assert(digits =~= s@.subrange(start as int, n as int));
        assert(spec_is_float(s@) == spec_float_digits_ok(digits));
    }

    // the split point is the first `e`/`E`, if any: a mantissa holds neither
    let mut p: usize = start;
    while p < n && !(s.get_char(p) == 'e' || s.get_char(p) == 'E')
        invariant
            start <= p <= n,
            n == s@.len(),
            digits == s@.subrange(start as int, n as int),
            forall|k: int|
                0 <= k < p - start ==> !(#[trigger] digits[k] == 'e' || digits[k] == 'E'),
        decreases n - p,
    {
        proof {
            assert(digits[p - start] == s@[p as int]);
        }
        p += 1;
    }
    let ghost mrel = p - start;
    proof {
        if p < n {
            assert(digits[mrel] == s@[p as int]);
            assert(digits[mrel] == 'e' || digits[mrel] == 'E');
        }
        assert(digits.take(mrel) =~= s@.subrange(start as int, p as int));
        if p < n {
            assert(digits.skip(mrel) =~= s@.subrange(p as int, n as int));
        }
    }

    let mant_ok = mantissa_check(s, start, p);
    let r = if p >= n {
        mant_ok
    } else {
        mant_ok && exponent_check(s, p, n)
    };
    proof {
        if r {
            assert(spec_mantissa_ok(digits.take(mrel)));
            assert(mrel == digits.len() || spec_exponent_ok(digits.skip(mrel)));
            assert(spec_float_digits_ok(digits));
        } else {
            assert forall|m: int|
                0 <= m <= digits.len() implies !(spec_mantissa_ok(#[trigger] digits.take(m)) && (m
                == digits.len() || spec_exponent_ok(digits.skip(m)))) by {
                if m == mrel {
                } else if m < mrel {
                    // too short for the exponent to begin with `e`/`E`
                    if spec_exponent_ok(digits.skip(m)) {
                        assert(digits.skip(m)[0] == digits[m]);
                        assert(digits[m] == 'e' || digits[m] == 'E');
                    }
                    if m == digits.len() {
                        assert(mrel <= digits.len());
                    }
                } else {
                    // the mantissa would contain the `e`/`E`
                    if spec_mantissa_ok(digits.take(m)) {
                        assert(digits.take(m)[mrel] == digits[mrel]);
                        assert(spec_is_digit(digits[mrel]) || digits[mrel] == '.');
                    }
                }
            };
            assert(!spec_float_digits_ok(digits));
        }
    }
    r
}

} // verus!
