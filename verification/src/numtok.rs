//! Numeric tokens. Scalars are kept as their source tokens, so what the
//! parsers decide is whether a token is a well-formed number: this module
//! gives the exact grammar of Rust's standard unsigned-integer parser
//! (with the value), and of its decimal float parser (validity only).

use vstd::prelude::*;
use vstd::string::StrSliceExecFns;

verus! {

// ------------------------------------------------------------------- digits

pub open spec fn is_digit(c: char) -> bool {
    0x30 <= c as u32 && c as u32 <= 0x39
}

pub open spec fn digit_val(c: char) -> int {
    (c as u32) as int - 0x30
}

pub open spec fn all_digits(s: Seq<char>) -> bool {
    forall|i: int| 0 <= i < s.len() ==> is_digit(s[i])
}

/// Numeric value of a string of decimal digits.
pub open spec fn digits_val(s: Seq<char>) -> int
    decreases s.len(),
{
    if s.len() == 0 {
        0
    } else {
        10 * digits_val(s.drop_last()) + digit_val(s.last())
    }
}

pub proof fn lemma_digits_val_nonneg(s: Seq<char>)
    requires
        all_digits(s),
    ensures
        digits_val(s) >= 0,
    decreases s.len(),
{
    if s.len() > 0 {
        let pre = s.drop_last();
        assert forall|i: int| 0 <= i < pre.len() implies is_digit(#[trigger] pre[i]) by {
            assert(pre[i] == s[i]);
        }
        lemma_digits_val_nonneg(pre);
        assert(is_digit(s[s.len() - 1]));
        assert(s.last() == s[s.len() - 1]);
        assert(digit_val(s.last()) >= 0);
    }
}

/// Appending digits never shrinks the value.
pub proof fn lemma_digits_val_grows(s: Seq<char>, i: int, j: int)
    requires
        all_digits(s),
        0 <= i <= j <= s.len(),
    ensures
        digits_val(s.take(i)) <= digits_val(s.take(j)),
    decreases j - i,
{
    if i < j {
        lemma_digits_val_grows(s, i, j - 1);
        let pre = s.take(j - 1);
        assert forall|k: int| 0 <= k < pre.len() implies is_digit(#[trigger] pre[k]) by {
            assert(pre[k] == s[k]);
        }
        lemma_digits_val_nonneg(pre);
        assert(s.take(j).drop_last() =~= pre);
        assert(s.take(j).last() == s[j - 1]);
        assert(is_digit(s[j - 1]));
        assert(digits_val(s.take(j)) == 10 * digits_val(pre) + digit_val(s[j - 1]));
        assert(digits_val(s.take(j)) >= digits_val(pre));
    }
}

// ----------------------------------------------------------- unsigned token

/// Length of a leading `+` or `-` sign: one character or none.
pub open spec fn sign_len(s: Seq<char>) -> int {
    if s.len() > 0 && (s[0] == '+' || s[0] == '-') {
        1
    } else {
        0
    }
}

/// The tokens Rust's standard `u32` parser accepts: an optional sign, then
/// at least one decimal digit, with a value that fits in `u32`; a `-` sign
/// is accepted only when the digits spell zero.
pub open spec fn is_uint_token(s: Seq<char>) -> bool {
    let d = s.skip(sign_len(s));
    &&& d.len() >= 1
    &&& all_digits(d)
    &&& digits_val(d) <= u32::MAX
    &&& (s.len() > 0 && s[0] == '-' ==> digits_val(d) == 0)
}

pub open spec fn uint_token_val(s: Seq<char>) -> int {
    digits_val(s.skip(sign_len(s)))
}

/// Parse a token as `u32`, accepting exactly the strings Rust's standard
/// unsigned-integer parser accepts.
pub fn parse_uint(s: &str) -> (r: Option<u32>)
    ensures
        (match r {
            Some(v) => is_uint_token(s@) && v as int == uint_token_val(s@),
            None => !is_uint_token(s@),
        }),
{
    let n = s.unicode_len();
    if n == 0 {
        assert(s@.skip(0) =~= s@);
        return None;
    }
    let c0 = s.get_char(0);
    let neg = c0 == '-';
    let start: usize = if c0 == '+' || c0 == '-' {
        1
    } else {
        0
    };
    proof {
        assert(start as int == sign_len(s@));
    }
    let ghost d = s@.skip(start as int);
    if start == n {
        assert(d.len() == 0);
        return None;
    }
    let mut i = start;
    let mut acc: u32 = 0;
    proof {
        assert(s@.subrange(start as int, start as int) =~= Seq::<char>::empty());
    }
    while i < n
        invariant
            start <= i <= n,
            n == s@.len(),
            start as int == sign_len(s@),
            d == s@.skip(start as int),
            forall|k: int| start <= k < i ==> is_digit(s@[k]),
            acc as int == digits_val(s@.subrange(start as int, i as int)),
        decreases n - i,
    {
        let c = s.get_char(i);
        let u = c as u32;
        if u < 0x30 || u > 0x39 {
            proof {
                assert(d[i - start] == s@[i as int]);
                assert(!all_digits(d));
            }
            return None;
        }
        let dv = u - 0x30;
        proof {
            assert(dv as int == digit_val(s@[i as int]));
        }
        if acc > (u32::MAX - dv) / 10 {
            // the value can only grow from here: the token does not fit
            proof {
                let pre = s@.subrange(start as int, i as int + 1);
                assert(pre.drop_last() =~= s@.subrange(start as int, i as int));
                assert(pre.last() == s@[i as int]);
                assert(acc as int > (u32::MAX - dv) as int / 10);
                assert(digits_val(pre) > u32::MAX) by (nonlinear_arith)
                    requires
                        digits_val(pre) == 10 * (acc as int) + dv as int,
                        acc as int > (u32::MAX - dv) as int / 10,
                        0 <= dv as int <= 9,
                {
                }
                if all_digits(d) {
                    assert(pre =~= d.take(i - start + 1));
                    lemma_digits_val_grows(d, i - start + 1, d.len() as int);
                    assert(d.take(d.len() as int) =~= d);
                    assert(digits_val(d) > u32::MAX);
                }
            }
            return None;
        }
        proof {
            assert(10 * (acc as int) + dv as int <= u32::MAX) by (nonlinear_arith)
                requires
                    acc as int <= (u32::MAX - dv) as int / 10,
                    0 <= dv as int <= 9,
                    0 <= acc as int,
            {
            }
            let pre = s@.subrange(start as int, i as int + 1);
            assert(pre.drop_last() =~= s@.subrange(start as int, i as int));
            assert(pre.last() == s@[i as int]);
        }
        acc = acc * 10 + dv;
        i += 1;
    }
    proof {
        assert(s@.subrange(start as int, n as int) =~= d);
        assert forall|k: int| 0 <= k < d.len() implies is_digit(d[k]) by {
            assert(d[k] == s@[start + k]);
        }
    }
    if neg && acc != 0 {
        return None;
    }
    Some(acc)
}

// -------------------------------------------------------------- float token

/// Case-insensitive match of `a` against a lower-case letter `b`.
pub open spec fn char_eq_ci(a: char, b: char) -> bool {
    a == b || (0x41 <= a as u32 && a as u32 <= 0x5a && a as u32 + 0x20 == b as u32)
}

/// Case-insensitive match of `a` against an all-lower-case word `b`.
pub open spec fn eq_ci(a: Seq<char>, b: Seq<char>) -> bool {
    a.len() == b.len() && forall|i: int| 0 <= i < a.len() ==> char_eq_ci(a[i], b[i])
}

pub open spec fn inf_chars() -> Seq<char> {
    seq!['i', 'n', 'f']
}

pub open spec fn infinity_chars() -> Seq<char> {
    seq!['i', 'n', 'f', 'i', 'n', 'i', 't', 'y']
}

pub open spec fn nan_chars() -> Seq<char> {
    seq!['n', 'a', 'n']
}

/// The named special values the standard float parser accepts.
pub open spec fn is_special_float_word(b: Seq<char>) -> bool {
    eq_ci(b, inf_chars()) || eq_ci(b, infinity_chars()) || eq_ci(b, nan_chars())
}

pub open spec fn is_exp_mark(c: char) -> bool {
    c == 'e' || c == 'E'
}

/// Index of the first exponent marker in `s`, or `s.len()`.
pub open spec fn find_exp(s: Seq<char>) -> int
    decreases s.len(),
{
    if s.len() == 0 {
        0
    } else if is_exp_mark(s[0]) {
        0
    } else {
        1 + find_exp(s.drop_first())
    }
}

pub proof fn lemma_find_exp_is(s: Seq<char>, m: int)
    requires
        0 <= m <= s.len(),
        forall|j: int| 0 <= j < m ==> !is_exp_mark(s[j]),
        m < s.len() ==> is_exp_mark(s[m]),
    ensures
        find_exp(s) == m,
    decreases s.len(),
{
    if s.len() == 0 {
    } else if is_exp_mark(s[0]) {
        assert(m == 0);
    } else {
        assert(m >= 1);
        assert forall|j: int| 0 <= j < m - 1 implies !is_exp_mark(s.drop_first()[j]) by {
            assert(s.drop_first()[j] == s[j + 1]);
        }
        if m - 1 < s.drop_first().len() {
            assert(s.drop_first()[m - 1] == s[m]);
        }
        lemma_find_exp_is(s.drop_first(), m - 1);
    }
}

/// A mantissa: decimal digits with at most one dot and at least one digit.
pub open spec fn is_mantissa(m: Seq<char>) -> bool {
    let dot = crate::text::find_char(m, '.');
    if dot == m.len() {
        m.len() >= 1 && all_digits(m)
    } else {
        let before = m.take(dot);
        let after = m.skip(dot + 1);
        all_digits(before) && all_digits(after) && before.len() + after.len() >= 1
    }
}

/// An exponent tail (after the `e` marker): an optional sign and digits.
pub open spec fn is_exponent_tail(y: Seq<char>) -> bool {
    let d = y.skip(sign_len(y));
    d.len() >= 1 && all_digits(d)
}

/// An unsigned decimal float: a mantissa and an optional exponent.
pub open spec fn is_decimal_body(b: Seq<char>) -> bool {
    let e = find_exp(b);
    &&& is_mantissa(b.take(e))
    &&& (e == b.len() || is_exponent_tail(b.skip(e + 1)))
}

/// The tokens Rust's standard float parser accepts: an optional sign, then
/// `inf`, `infinity` or `nan` in any case, or a decimal number.
pub open spec fn is_float_token(s: Seq<char>) -> bool {
    let body = s.skip(sign_len(s));
    body.len() > 0 && (is_special_float_word(body) || is_decimal_body(body))
}

/// The default weight token `"1"` is itself a valid float token.
pub proof fn lemma_one_is_float_token()
    ensures
        is_float_token("1"@),
{
    reveal_strlit("1");
    let s = "1"@;
    assert(s.len() == 1);
    assert(s[0] == '1');
    assert(sign_len(s) == 0);
    let body = s.skip(0);
    assert(body =~= s);
    assert(body.drop_first() =~= Seq::<char>::empty());
    assert(find_exp(body.drop_first()) == 0);
    assert(find_exp(body) == 1);
    let m = body.take(1);
    assert(m =~= body);
    assert(crate::text::find_char(m.drop_first(), '.') == 0);
    assert(crate::text::find_char(m, '.') == 1);
    assert(all_digits(m));
    assert(is_mantissa(m));
    assert(is_decimal_body(body));
}

fn char_ci(a: char, b: char) -> (r: bool)
    ensures
        r == char_eq_ci(a, b),
{
    a == b || (a as u32 >= 0x41 && a as u32 <= 0x5a && a as u32 + 0x20 == b as u32)
}

fn all_digits_range(s: &str, from: usize, to: usize) -> (r: bool)
    requires
        from <= to,
        to as int <= s@.len(),
    ensures
        r == all_digits(s@.subrange(from as int, to as int)),
{
    let ghost sub = s@.subrange(from as int, to as int);
    let mut i = from;
    while i < to
        invariant
            from <= i <= to,
            to as int <= s@.len(),
            sub == s@.subrange(from as int, to as int),
            forall|k: int| from <= k < i ==> is_digit(s@[k]),
        decreases to - i,
    {
        let u = s.get_char(i) as u32;
        if u < 0x30 || u > 0x39 {
            proof {
                assert(sub[i - from] == s@[i as int]);
            }
            return false;
        }
        i += 1;
    }
    proof {
        assert forall|k: int| 0 <= k < sub.len() implies is_digit(sub[k]) by {
            assert(sub[k] == s@[from + k]);
        }
    }
    true
}

fn is_special_at(s: &str, start: usize) -> (r: bool)
    requires
        start as int <= s@.len(),
    ensures
        r == is_special_float_word(s@.skip(start as int)),
{
    let ghost b = s@.skip(start as int);
    let n = s.unicode_len();
    let rem = n - start;
    proof {
        assert(b.len() == n - start);
    }
    if rem == 3 {
        let a0 = s.get_char(start);
        let a1 = s.get_char(start + 1);
        let a2 = s.get_char(start + 2);
        proof {
            assert(b[0] == s@[start as int]);
            assert(b[1] == s@[start as int + 1]);
            assert(b[2] == s@[start as int + 2]);
        }
        let inf = char_ci(a0, 'i') && char_ci(a1, 'n') && char_ci(a2, 'f');
        let nan = char_ci(a0, 'n') && char_ci(a1, 'a') && char_ci(a2, 'n');
        proof {
            if inf {
                assert forall|i: int| 0 <= i < b.len() implies char_eq_ci(
                    b[i],
                    inf_chars()[i],
                ) by {
                    if i == 0 {
                    } else if i == 1 {
                    } else {
                        assert(i == 2);
                    }
                }
            }
            if nan {
                assert forall|i: int| 0 <= i < b.len() implies char_eq_ci(
                    b[i],
                    nan_chars()[i],
                ) by {
                    if i == 0 {
                    } else if i == 1 {
                    } else {
                        assert(i == 2);
                    }
                }
            }
            if eq_ci(b, inf_chars()) {
                assert(char_eq_ci(b[0], 'i') && char_eq_ci(b[1], 'n') && char_eq_ci(b[2], 'f'));
            }
            if eq_ci(b, nan_chars()) {
                assert(char_eq_ci(b[0], 'n') && char_eq_ci(b[1], 'a') && char_eq_ci(b[2], 'n'));
            }
            assert(!eq_ci(b, infinity_chars()));
        }
        inf || nan
    } else if rem == 8 {
        let m = char_ci(s.get_char(start), 'i') && char_ci(s.get_char(start + 1), 'n') && char_ci(
            s.get_char(start + 2),
            'f',
        ) && char_ci(s.get_char(start + 3), 'i') && char_ci(s.get_char(start + 4), 'n') && char_ci(
            s.get_char(start + 5),
            'i',
        ) && char_ci(s.get_char(start + 6), 't') && char_ci(s.get_char(start + 7), 'y');
        proof {
            assert forall|i: int| 0 <= i < b.len() implies b[i] == s@[start + i] by {}
            if m {
                assert forall|i: int| 0 <= i < b.len() implies char_eq_ci(
                    b[i],
                    infinity_chars()[i],
                ) by {
                    if i == 0 {
                    } else if i == 1 {
                    } else if i == 2 {
                    } else if i == 3 {
                    } else if i == 4 {
                    } else if i == 5 {
                    } else if i == 6 {
                    } else {
                        assert(i == 7);
                    }
                }
            }
            if eq_ci(b, infinity_chars()) {
                assert(char_eq_ci(b[0], 'i') && char_eq_ci(b[1], 'n') && char_eq_ci(b[2], 'f')
                    && char_eq_ci(b[3], 'i') && char_eq_ci(b[4], 'n') && char_eq_ci(b[5], 'i')
                    && char_eq_ci(b[6], 't') && char_eq_ci(b[7], 'y'));
            }
            assert(!eq_ci(b, inf_chars()));
            assert(!eq_ci(b, nan_chars()));
        }
        m
    } else {
        proof {
            assert(!eq_ci(b, inf_chars()));
            assert(!eq_ci(b, infinity_chars()));
            assert(!eq_ci(b, nan_chars()));
        }
        false
    }
}

fn check_exp_mark(c: char) -> (r: bool)
    ensures
        r == is_exp_mark(c),
{
    c == 'e' || c == 'E'
}

/// Decide whether a token is a number the standard float parser accepts.
pub fn check_float(s: &str) -> (r: bool)
    ensures
        r == is_float_token(s@),
{
    let n = s.unicode_len();
    if n == 0 {
        assert(s@.skip(0) =~= s@);
        return false;
    }
    let c0 = s.get_char(0);
    let start: usize = if c0 == '+' || c0 == '-' {
        1
    } else {
        0
    };
    proof {
        assert(start as int == sign_len(s@));
    }
    let ghost body = s@.skip(start as int);
    if start == n {
        assert(body.len() == 0);
        return false;
    }
    if is_special_at(s, start) {
        return true;
    }
    // find the exponent marker, if any
    let mut e = start;
    while e < n && !check_exp_mark(s.get_char(e))
        invariant
            start <= e <= n,
            n == s@.len(),
            forall|k: int| start <= k < e ==> !is_exp_mark(s@[k]),
        decreases n - e,
    {
        e += 1;
    }
    proof {
        assert forall|k: int| 0 <= k < e - start implies !is_exp_mark(body[k]) by {
            assert(body[k] == s@[start + k]);
        }
        if (e as int) < n as int {
            assert(body[e - start] == s@[e as int]);
        }
        lemma_find_exp_is(body, e - start);
    }
    let ghost mant = body.take(e - start);
    // find the dot inside the mantissa
    let mut dot = start;
    while dot < e && s.get_char(dot) != '.'
        invariant
            start <= dot <= e,
            e as int <= s@.len(),
            forall|k: int| start <= k < dot ==> s@[k] != '.',
        decreases e - dot,
    {
        dot += 1;
    }
    proof {
        assert forall|k: int| 0 <= k < dot - start implies mant[k] != '.' by {
            assert(mant[k] == s@[start + k]);
        }
        if (dot as int) < e as int {
            assert(mant[dot - start] == s@[dot as int]);
        }
        crate::text::lemma_find_char_is(mant, '.', dot - start);
    }
    let m_ok: bool = if dot == e {
        proof {
            assert(mant =~= s@.subrange(start as int, e as int));
        }
        e > start && all_digits_range(s, start, e)
    } else {
        proof {
            assert(mant.take(dot - start) =~= s@.subrange(start as int, dot as int));
            assert(mant.skip(dot - start + 1) =~= s@.subrange(dot as int + 1, e as int));
        }
        let before_ok = all_digits_range(s, start, dot);
        let after_ok = all_digits_range(s, dot + 1, e);
        before_ok && after_ok && e - start >= 2
    };
    if !m_ok {
        return false;
    }
    if e == n {
        return true;
    }
    // exponent tail after the marker
    let ghost tail = body.skip(e - start + 1);
    proof {
        assert(tail =~= s@.skip(e as int + 1));
    }
    let x = e + 1;
    if x == n {
        assert(tail.len() == 0);
        return false;
    }
    let cx = s.get_char(x);
    let xs: usize = if cx == '+' || cx == '-' {
        x + 1
    } else {
        x
    };
    proof {
        assert(tail[0] == s@[x as int]);
        assert(xs as int - x as int == sign_len(tail));
        assert(tail.skip(sign_len(tail)) =~= s@.subrange(xs as int, n as int));
    }
    if xs == n {
        return false;
    }
    all_digits_range(s, xs, n)
}

} // verus!
