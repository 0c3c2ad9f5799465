//! Recognisers for the literal forms that a configuration value can take:
//! decimal integers, floating-point literals, booleans and identifiers.
//!
//! The integer, float and boolean forms are those that the standard library's
//! `FromStr` implementations accept for `i32`, `u32`, `f32` and `bool`, as
//! their documentation describes them.
use vstd::prelude::*;

verus! {

/// Bound above which decimal digit runs are not evaluated further; it lies
/// above every value an `i32` or `u32` can take.
pub const DECIMAL_LIMIT: u64 = 4294967296u64;

pub open spec fn is_digit(c: char) -> bool {
    '0' <= c && c <= '9'
}

pub open spec fn is_sign(c: char) -> bool {
    c == '+' || c == '-'
}

pub open spec fn all_digits(s: Seq<char>) -> bool {
    forall|i: int| 0 <= i < s.len() ==> #[trigger] is_digit(s[i])
}

/// The number that a run of decimal digits denotes.
pub open spec fn digits_value(s: Seq<char>) -> nat
    decreases s.len(),
{
    if s.len() == 0 {
        0
    } else {
        digits_value(s.drop_last()) * 10 + ((s.last() as u32) - ('0' as u32)) as nat
    }
}

/// What `i32::from_str` gives back: an optional `+` or `-` followed by at
/// least one decimal digit, with the value in range.
pub open spec fn spec_parse_i32(s: Seq<char>) -> Option<i32> {
    if s.len() == 0 {
        None
    } else if is_sign(s[0]) {
        let d = s.skip(1);
        if d.len() > 0 && all_digits(d) {
            let v: int = if s[0] == '-' {
                -(digits_value(d) as int)
            } else {
                digits_value(d) as int
            };
            if i32::MIN <= v && v <= i32::MAX {
                Some(v as i32)
            } else {
                None
            }
        } else {
            None
        }
    } else if all_digits(s) && digits_value(s) <= i32::MAX {
        Some(digits_value(s) as i32)
    } else {
        None
    }
}

/// What `u32::from_str` gives back: an optional `+` followed by at least one
/// decimal digit, with the value in range.
pub open spec fn spec_parse_u32(s: Seq<char>) -> Option<u32> {
    let d = if s.len() > 0 && s[0] == '+' {
        s.skip(1)
    } else {
        s
    };
    if d.len() > 0 && all_digits(d) && digits_value(d) <= u32::MAX {
        Some(digits_value(d) as u32)
    } else {
        None
    }
}

/// What `bool::from_str` gives back: exactly `true` or `false`.
pub open spec fn spec_parse_bool(s: Seq<char>) -> Option<bool> {
    if s == seq!['t', 'r', 'u', 'e'] {
        Some(true)
    } else if s == seq!['f', 'a', 'l', 's', 'e'] {
        Some(false)
    } else {
        None
    }
}

/// `c` is the lower-case ASCII letter `l` or its upper-case form.
pub open spec fn ci_char(c: char, l: char) -> bool {
    c == l || (c as u32) + 32 == (l as u32)
}

/// `s` spells the lower-case word `w`, ignoring ASCII case.
pub open spec fn ci_word(s: Seq<char>, w: Seq<char>) -> bool {
    s.len() == w.len() && forall|i: int| 0 <= i < s.len() ==> #[trigger] ci_char(s[i], w[i])
}

/// Digits with at most one decimal point, holding at least one digit:
/// `Digit+ | Digit+ '.' Digit* | Digit* '.' Digit+`.
pub open spec fn is_mantissa(m: Seq<char>) -> bool {
    &&& forall|i: int| 0 <= i < m.len() ==> is_digit(#[trigger] m[i]) || m[i] == '.'
    &&& forall|i: int, j: int| 0 <= i < j < m.len() && #[trigger] m[i] == '.' ==> #[trigger] m[j] != '.'
    &&& exists|i: int| 0 <= i < m.len() && is_digit(#[trigger] m[i])
}

/// `Sign? Digit+`
pub open spec fn is_exponent_digits(x: Seq<char>) -> bool {
    if x.len() > 0 && is_sign(x[0]) {
        x.len() > 1 && all_digits(x.skip(1))
    } else {
        x.len() > 0 && all_digits(x)
    }
}

/// `Number ::= Mantissa ('e' Exponent)?`, the exponent marker in either case.
pub open spec fn is_number(b: Seq<char>) -> bool {
    ||| is_mantissa(b)
    ||| exists|k: int|
        0 <= k < b.len() && #[trigger] ci_char(b[k], 'e') && is_mantissa(b.take(k))
            && is_exponent_digits(b.skip(k + 1))
}

/// The strings that `f32::from_str` accepts:
/// `Sign? ('inf' | 'infinity' | 'nan' | Number)`, letters in either case.
pub open spec fn is_float_literal(s: Seq<char>) -> bool {
    let b = if s.len() > 0 && is_sign(s[0]) {
        s.skip(1)
    } else {
        s
    };
    ||| ci_word(b, seq!['i', 'n', 'f'])
    ||| ci_word(b, seq!['i', 'n', 'f', 'i', 'n', 'i', 't', 'y'])
    ||| ci_word(b, seq!['n', 'a', 'n'])
    ||| is_number(b)
}

pub open spec fn is_ident_start(c: char) -> bool {
    ('a' <= c && c <= 'z') || ('A' <= c && c <= 'Z') || c == '_'
}

pub open spec fn is_ident_continue(c: char) -> bool {
    is_ident_start(c) || is_digit(c)
}

/// An ASCII identifier: `[a-zA-Z_][a-zA-Z0-9_]*`.
pub open spec fn is_identifier(s: Seq<char>) -> bool {
    &&& s.len() > 0
    &&& is_ident_start(s[0])
    &&& forall|i: int| 1 <= i < s.len() ==> #[trigger] is_ident_continue(s[i])
}

/// A longer run of digits never denotes a smaller number than its prefix.
pub proof fn lemma_digits_value_prefix(s: Seq<char>, k: int)
    requires
        0 <= k <= s.len(),
        all_digits(s),
    ensures
        digits_value(s.take(k)) <= digits_value(s),
    decreases s.len(),
{
    if k < s.len() {
        let t = s.drop_last();
        assert(all_digits(t)) by {
            assert forall|i: int| 0 <= i < t.len() implies #[trigger] is_digit(t[i]) by {
                assert(is_digit(s[i]));
            }
        }
        lemma_digits_value_prefix(t, k);
        assert(t.take(k) =~= s.take(k));
    } else {
        assert(s.take(k) =~= s);
    }
}

pub fn is_digit_char(c: char) -> (r: bool)
    ensures
        r == is_digit(c),
{
    c >= '0' && c <= '9'
}

/// Reads the digits of `s` from `start` to the end. Returns their value when
/// they form a non-empty run of decimal digits whose value is at most
/// `DECIMAL_LIMIT`, and `None` otherwise.
pub fn decimal_value(s: &str, start: usize) -> (r: Option<u64>)
    requires
        start <= s@.len(),
    ensures
        ({
            let d = s@.skip(start as int);
            match r {
                Some(v) => d.len() > 0 && all_digits(d) && v as nat == digits_value(d) && v
                    <= DECIMAL_LIMIT,
                None => !(d.len() > 0 && all_digits(d) && digits_value(d) <= DECIMAL_LIMIT),
            }
        }),
{
    let len = s.unicode_len();
    if start >= len {
        return None;
    }
    let ghost d = s@.skip(start as int);
    let mut acc: u64 = 0;
    let mut i: usize = start;
    while i < len
        invariant
            len == s@.len(),
            start < len,
            start <= i <= len,
            d == s@.skip(start as int),
            all_digits(s@.subrange(start as int, i as int)),
            acc as nat == digits_value(s@.subrange(start as int, i as int)),
            acc <= DECIMAL_LIMIT,
        decreases len - i,
    {
        let c = s.get_char(i);
        if !is_digit_char(c) {
            assert(!is_digit(d[i - start]));
            return None;
        }
        let ghost prev = s@.subrange(start as int, i as int);
        let ghost next = s@.subrange(start as int, i + 1);
        assert(next.drop_last() =~= prev);
        assert(all_digits(next)) by {
            assert forall|j: int| 0 <= j < next.len() implies #[trigger] is_digit(next[j]) by {
                if j < prev.len() {
                    assert(next[j] == prev[j]);
                }
            }
        }
        let digit: u64 = (c as u32 - '0' as u32) as u64;
        acc = acc * 10 + digit;
        i = i + 1;
        if acc > DECIMAL_LIMIT {
            proof {
                if all_digits(d) {
                    lemma_digits_value_prefix(d, (i - start) as int);
                    assert(d.take((i - start) as int) =~= next);
                }
            }
            return None;
        }
    }
    assert(s@.subrange(start as int, len as int) =~= d);
    Some(acc)
}

/// `i32::from_str`, over the grammar its documentation gives.
pub fn parse_i32(s: &str) -> (r: Option<i32>)
    ensures
        r == spec_parse_i32(s@),
{
    let len = s.unicode_len();
    if len == 0 {
        return None;
    }
    let c = s.get_char(0);
    if c == '+' || c == '-' {
        match decimal_value(s, 1) {
            Some(v) => {
                if c == '-' {
                    if v <= 2147483648u64 {
                        let r: i64 = 0i64 - (v as i64);
                        Some(r as i32)
                    } else {
                        None
                    }
                } else {
                    if v <= 2147483647u64 {
                        Some(v as i32)
                    } else {
                        None
                    }
                }
            },
            None => None,
        }
    } else {
        assert(s@.skip(0) =~= s@);
        match decimal_value(s, 0) {
            Some(v) => {
                if v <= 2147483647u64 {
                    Some(v as i32)
                } else {
                    None
                }
            },
            None => None,
        }
    }
}

/// `u32::from_str`, over the grammar its documentation gives.
pub fn parse_u32(s: &str) -> (r: Option<u32>)
    ensures
        r == spec_parse_u32(s@),
{
    let len = s.unicode_len();
    let start: usize = if len > 0 && s.get_char(0) == '+' {
        1
    } else {
        0
    };
    assert(s@.skip(0) =~= s@);
    match decimal_value(s, start) {
        Some(v) => {
            if v <= 4294967295u64 {
                Some(v as u32)
            } else {
                None
            }
        },
        None => None,
    }
}

/// `bool::from_str`: exactly `true` or `false`.
pub fn parse_bool(s: &str) -> (r: Option<bool>)
    ensures
        r == spec_parse_bool(s@),
{
    let len = s.unicode_len();
    if len == 4 && s.get_char(0) == 't' && s.get_char(1) == 'r' && s.get_char(2) == 'u'
        && s.get_char(3) == 'e' {
        assert(s@ =~= seq!['t', 'r', 'u', 'e']);
        Some(true)
    } else if len == 5 && s.get_char(0) == 'f' && s.get_char(1) == 'a' && s.get_char(2) == 'l'
        && s.get_char(3) == 's' && s.get_char(4) == 'e' {
        assert(s@ =~= seq!['f', 'a', 'l', 's', 'e']);
        Some(false)
    } else {
        assert(s@ != seq!['t', 'r', 'u', 'e']) by {
            if s@ == seq!['t', 'r', 'u', 'e'] {
                assert(s@[0] == 't' && s@[1] == 'r' && s@[2] == 'u' && s@[3] == 'e');
            }
        }
        assert(s@ != seq!['f', 'a', 'l', 's', 'e']) by {
            if s@ == seq!['f', 'a', 'l', 's', 'e'] {
                assert(s@[0] == 'f' && s@[1] == 'a' && s@[2] == 'l' && s@[3] == 's' && s@[4]
                    == 'e');
            }
        }
        None
    }
}


/// `c` is the lower-case ASCII letter `l` or its upper-case form.
pub fn eq_ignore_ascii_case(c: char, l: char) -> (r: bool)
    ensures
        r == ci_char(c, l),
{
    c == l || (c as u32) + 32 == (l as u32)
}

/// Whether `s[from..to]` is a mantissa: digits with at most one decimal
/// point and at least one digit.
fn check_mantissa(s: &str, from: usize, to: usize) -> (r: bool)
    requires
        from <= to <= s@.len(),
    ensures
        r == is_mantissa(s@.subrange(from as int, to as int)),
{
    let ghost m = s@.subrange(from as int, to as int);
    let mut seen_dot = false;
    let mut seen_digit = false;
    let mut i = from;
    while i < to
        invariant
            from <= i <= to <= s@.len(),
            m == s@.subrange(from as int, to as int),
            forall|j: int| 0 <= j < i - from ==> is_digit(#[trigger] m[j]) || m[j] == '.',
            forall|a: int, b: int|
                0 <= a < b < i - from && #[trigger] m[a] == '.' ==> #[trigger] m[b] != '.',
            seen_dot <==> exists|j: int| 0 <= j < i - from && #[trigger] m[j] == '.',
            seen_digit <==> exists|j: int| 0 <= j < i - from && is_digit(#[trigger] m[j]),
        decreases to - i,
    {
        let c = s.get_char(i);
        assert(m[i - from] == c);
        if is_digit_char(c) {
            seen_digit = true;
        } else if c == '.' {
            if seen_dot {
                let ghost w = choose|j: int| 0 <= j < i - from && #[trigger] m[j] == '.';
                assert(m[w] == '.' && m[i - from] == '.');
                assert(!is_mantissa(m));
                return false;
            }
            seen_dot = true;
        } else {
            assert(!(is_digit(m[i - from]) || m[i - from] == '.'));
            assert(!is_mantissa(m));
            return false;
        }
        i = i + 1;
    }
    seen_digit
}

/// Whether `s[from..]` is `Sign? Digit+`.
fn check_exponent(s: &str, from: usize) -> (r: bool)
    requires
        from <= s@.len(),
    ensures
        r == is_exponent_digits(s@.skip(from as int)),
{
    let len = s.unicode_len();
    let ghost x = s@.skip(from as int);
    if from >= len {
        return false;
    }
    let c = s.get_char(from);
    assert(x[0] == c);
    let start = if c == '+' || c == '-' {
        from + 1
    } else {
        from
    };
    if start >= len {
        return false;
    }
    assert(is_sign(x[0]) <==> start > from);
    let mut i = start;
    while i < len
        invariant
            from <= start <= i <= len == s@.len(),
            start < len,
            start <= from + 1,
            x == s@.skip(from as int),
            (start > from) == is_sign(x[0]),
            forall|j: int| start <= j < i ==> #[trigger] is_digit(s@[j]),
        decreases len - i,
    {
        if !is_digit_char(s.get_char(i)) {
            proof {
                if start > from {
                    assert(x.skip(1)[i - start] == s@[i as int]);
                    assert(!is_digit(x.skip(1)[i - start]));
                } else {
                    assert(x[i - start] == s@[i as int]);
                    assert(!is_digit(x[i - start]));
                }
            }
            return false;
        }
        i = i + 1;
    }
    proof {
        if start > from {
            assert forall|j: int| 0 <= j < x.skip(1).len() implies #[trigger] is_digit(
                x.skip(1)[j],
            ) by {
                assert(x.skip(1)[j] == s@[start + j]);
            }
        } else {
            assert forall|j: int| 0 <= j < x.len() implies #[trigger] is_digit(x[j]) by {
                assert(x[j] == s@[start + j]);
            }
        }
    }
    true
}

/// Whether `s[from..]` spells the lower-case word `w`, ignoring ASCII case.
fn check_word(s: &str, from: usize, w: &[char]) -> (r: bool)
    requires
        from <= s@.len(),
        forall|i: int| 0 <= i < w@.len() ==> 'a' <= #[trigger] w@[i] <= 'z',
    ensures
        r == ci_word(s@.skip(from as int), w@),
{
    let len = s.unicode_len();
    let ghost b = s@.skip(from as int);
    if len - from != w.len() {
        return false;
    }
    let mut i: usize = 0;
    while i < w.len()
        invariant
            len == s@.len(),
            from <= len,
            len - from == w@.len(),
            b == s@.skip(from as int),
            forall|j: int| 0 <= j < i ==> #[trigger] ci_char(b[j], w@[j]),
        decreases w.len() - i,
    {
        if !eq_ignore_ascii_case(s.get_char(from + i), w[i]) {
            assert(!ci_char(b[i as int], w@[i as int]));
            return false;
        }
        i = i + 1;
    }
    true
}

/// Whether `s[from..]` is a `Number`: a mantissa with an optional exponent.
fn check_number(s: &str, from: usize) -> (r: bool)
    requires
        from <= s@.len(),
    ensures
        r == is_number(s@.skip(from as int)),
{
    let len = s.unicode_len();
    let ghost b = s@.skip(from as int);
    let mut k = from;
    while k < len
        invariant
            from <= k <= len == s@.len(),
            b == s@.skip(from as int),
            forall|j: int| from <= j < k ==> !#[trigger] ci_char(s@[j], 'e'),
        ensures
            from <= k <= len == s@.len(),
            forall|j: int| from <= j < k ==> !#[trigger] ci_char(s@[j], 'e'),
            k < len ==> ci_char(s@[k as int], 'e'),
        decreases len - k,
    {
        if eq_ignore_ascii_case(s.get_char(k), 'e') {
            break;
        }
        k = k + 1;
    }
    if k == len {
        let r = check_mantissa(s, from, len);
        assert(s@.subrange(from as int, len as int) =~= b);
        proof {
            assert forall|q: int| 0 <= q < b.len() implies !#[trigger] ci_char(b[q], 'e') by {
                assert(b[q] == s@[from + q]);
            }
        }
        r
    } else {
        let m = check_mantissa(s, from, k);
        let e = check_exponent(s, k + 1);
        let ghost kk = k - from;
        assert(b.take(kk) =~= s@.subrange(from as int, k as int));
        assert(b.skip(kk + 1) =~= s@.skip(k + 1));
        assert(b[kk] == s@[k as int]);
        proof {
            // the exponent marker found is the first one, so it is the only
            // place a number can split
            assert(!is_digit(b[kk]) && b[kk] != '.');
            if is_mantissa(b) {
                assert(is_digit(b[kk]) || b[kk] == '.');
            }
            assert forall|q: int|
                0 <= q < b.len() && #[trigger] ci_char(b[q], 'e') && is_mantissa(b.take(q))
                    && is_exponent_digits(b.skip(q + 1)) implies q == kk by {
                if q < kk {
                    assert(b[q] == s@[from + q]);
                } else if q > kk {
                    assert(b.take(q)[kk] == b[kk]);
                }
            }
        }
        m && e
    }
}

/// `f32::from_str` succeeds on `s`: the grammar its documentation gives.
pub fn is_float_text(s: &str) -> (r: bool)
    ensures
        r == is_float_literal(s@),
{
    let len = s.unicode_len();
    let from: usize = if len > 0 && (s.get_char(0) == '+' || s.get_char(0) == '-') {
        1
    } else {
        0
    };
    assert(s@.skip(0) =~= s@);
    let inf = ['i', 'n', 'f'];
    let infinity = ['i', 'n', 'f', 'i', 'n', 'i', 't', 'y'];
    let nan = ['n', 'a', 'n'];
    assert(inf@ =~= seq!['i', 'n', 'f']);
    assert(infinity@ =~= seq!['i', 'n', 'f', 'i', 'n', 'i', 't', 'y']);
    assert(nan@ =~= seq!['n', 'a', 'n']);
    check_word(s, from, &inf) || check_word(s, from, &infinity) || check_word(s, from, &nan)
        || check_number(s, from)
}

} // verus!
