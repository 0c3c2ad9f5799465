//! Module configuration values and how they are read from text.
//!
//! A value is tried, in order, as an `i32`, a `u32`, a floating-point
//! literal, a boolean, a localisation key (`$key`), an enumeration name (an
//! identifier), a quoted string, and finally as a comma-separated array whose
//! items are values themselves.
use vstd::prelude::*;

use crate::lexical::{is_float_text, parse_bool, parse_i32, parse_u32};

verus! {

#[verifier::external_type_specification]
#[verifier::external_body]
pub struct ExRegexError(regex::Error);

/// What `regex::Regex::is_match` reports for the regular expression compiled
/// from `pattern` on `haystack`.
pub uninterp spec fn regex_match(pattern: Seq<char>, haystack: Seq<char>) -> bool;

/// The pattern of an enumeration name.
pub open spec fn identifier_pattern() -> Seq<char> {
    "^[a-zA-Z_][a-zA-Z0-9_]*$"@
}

/// Compiles `pattern` with `regex::Regex::new` and, when that succeeds, asks
/// `regex::Regex::is_match` whether it matches `haystack`.
///
/// Trusted: a successful match result is the named `regex_match` of the two
/// texts. For the identifier pattern the regex syntax documentation fixes the
/// result: the pattern is valid, `^` and `$` anchor at the ends of the
/// haystack (no multi-line flag), and the classes are the ASCII letters,
/// digits and `_`, so the match succeeds exactly on ASCII identifiers. When
/// compilation fails for any other pattern nothing is said of the error.
#[verifier::external_body]
fn regex_is_match(pattern: &str, haystack: &str) -> (r: Result<bool, regex::Error>)
    ensures
        r is Ok ==> r->Ok_0 == regex_match(pattern@, haystack@),
        pattern@ == identifier_pattern() ==> (r is Ok && r->Ok_0 == crate::lexical::is_identifier(haystack@)),
{
    match regex::Regex::new(pattern) {
        Ok(re) => Ok(re.is_match(haystack)),
        Err(e) => Err(e),
    }
}

/// A key into the localisation tables, written `$key`.
#[derive(Debug, Clone)]
pub struct LocalizationKey(pub String);

/// The name of an enumeration variant.
#[derive(Debug, Clone)]
pub struct Enum(pub String);

/// A comma-separated list of values.
#[derive(Debug)]
pub struct Array(pub Vec<Value>);

/// A quoted string, held without its quotes.
#[derive(Debug, Clone)]
pub struct Str(pub String);

/// A configuration value. A floating-point value is held as the literal text
/// that denotes it.
#[derive(Debug)]
pub enum Value {
    Integer(i32),
    UnsignedInteger(u32),
    Float(String),
    Boolean(bool),
    Enumeration(Enum),
    LocalizationKey(LocalizationKey),
    String(Str),
    Array(Array),
}

/// The mathematical model of a configuration value.
pub enum ValueView {
    Integer(i32),
    UnsignedInteger(u32),
    Float(Seq<char>),
    Boolean(bool),
    Enumeration(Seq<char>),
    LocalizationKey(Seq<char>),
    String(Seq<char>),
    Array(Seq<ValueView>),
}

pub open spec fn value_view(v: Value) -> ValueView
    decreases v, 0nat,
{
    match v {
        Value::Integer(i) => ValueView::Integer(i),
        Value::UnsignedInteger(u) => ValueView::UnsignedInteger(u),
        Value::Float(t) => ValueView::Float(t@),
        Value::Boolean(b) => ValueView::Boolean(b),
        Value::Enumeration(e) => ValueView::Enumeration(e.0@),
        Value::LocalizationKey(k) => ValueView::LocalizationKey(k.0@),
        Value::String(s) => ValueView::String(s.0@),
        Value::Array(a) => ValueView::Array(values_view(a.0@, a.0@.len())),
    }
}

/// The models of the first `n` values of `s`.
pub open spec fn values_view(s: Seq<Value>, n: nat) -> Seq<ValueView>
    decreases s, n,
{
    if n == 0 || n > s.len() {
        Seq::empty()
    } else {
        values_view(s, (n - 1) as nat).push(value_view(s[n - 1]))
    }
}

impl View for Value {
    type V = ValueView;

    open spec fn view(&self) -> ValueView {
        value_view(*self)
    }
}

pub open spec fn vec_view(v: Vec<Value>) -> Seq<ValueView> {
    values_view(v@, v@.len())
}

pub open spec fn option_view(r: Option<Value>) -> Option<ValueView> {
    match r {
        Some(v) => Some(value_view(v)),
        None => None,
    }
}

pub proof fn lemma_values_view(s: Seq<Value>, n: nat)
    requires
        n <= s.len(),
    ensures
        values_view(s, n).len() == n,
        forall|i: int| 0 <= i < n ==> #[trigger] values_view(s, n)[i] == value_view(s[i]),
    decreases n,
{
    if n > 0 {
        lemma_values_view(s, (n - 1) as nat);
    }
}

/// Where the first `,` of `s` stands, or `s.len()` when there is none.
pub open spec fn first_comma(s: Seq<char>) -> int
    decreases s.len(),
{
    if s.len() == 0 {
        0
    } else if s[0] == ',' {
        0
    } else {
        1 + first_comma(s.skip(1))
    }
}

pub proof fn lemma_first_comma(s: Seq<char>)
    ensures
        0 <= first_comma(s) <= s.len(),
        first_comma(s) < s.len() ==> s[first_comma(s)] == ',',
        forall|j: int| 0 <= j < first_comma(s) ==> s[j] != ',',
    decreases s.len(),
{
    if s.len() > 0 && s[0] != ',' {
        lemma_first_comma(s.skip(1));
        assert forall|j: int| 0 <= j < first_comma(s) implies s[j] != ',' by {
            if j > 0 {
                assert(s[j] == s.skip(1)[j - 1]);
            }
        }
    }
}

/// `$key`: the text after the `$`.
pub open spec fn spec_localization_key(s: Seq<char>) -> Option<Seq<char>> {
    if s.len() > 0 && s[0] == '$' {
        Some(s.skip(1))
    } else {
        None
    }
}

/// The text starts and ends with `"`.
pub open spec fn is_quoted(s: Seq<char>) -> bool {
    s.len() > 0 && s[0] == '"' && s.last() == '"'
}

/// What a value reads as, or `None` where the reading does not come to an
/// end: a lone `"` (whose unquoting would slice past its end), or a text
/// without a comma that matches none of the forms (which the array form
/// would hand back to itself without end).
pub open spec fn spec_value(s: Seq<char>) -> Option<ValueView>
    decreases s.len(), 1nat,
{
    if crate::lexical::spec_parse_i32(s) is Some {
        Some(ValueView::Integer(crate::lexical::spec_parse_i32(s)->0))
    } else if crate::lexical::spec_parse_u32(s) is Some {
        Some(ValueView::UnsignedInteger(crate::lexical::spec_parse_u32(s)->0))
    } else if crate::lexical::is_float_literal(s) {
        Some(ValueView::Float(s))
    } else if crate::lexical::spec_parse_bool(s) is Some {
        Some(ValueView::Boolean(crate::lexical::spec_parse_bool(s)->0))
    } else if spec_localization_key(s) is Some {
        Some(ValueView::LocalizationKey(s.skip(1)))
    } else if crate::lexical::is_identifier(s) {
        Some(ValueView::Enumeration(s))
    } else if is_quoted(s) {
        if s.len() == 1 {
            None
        } else {
            Some(ValueView::String(s.subrange(1, s.len() - 1)))
        }
    } else {
        proof {
            lemma_first_comma(s);
        }
        let k = first_comma(s);
        if k < s.len() {
            match (spec_value(s.take(k)), spec_pieces(s.skip(k + 1))) {
                (Some(v), Some(rest)) => Some(ValueView::Array(seq![v] + rest)),
                _ => None,
            }
        } else {
            None
        }
    }
}

/// The values of the comma-separated pieces of `t`, or `None` when one of
/// them has none.
pub open spec fn spec_pieces(t: Seq<char>) -> Option<Seq<ValueView>>
    decreases t.len(), 2nat,
{
    proof {
        lemma_first_comma(t);
    }
    let k = first_comma(t);
    if k < t.len() {
        match (spec_value(t.take(k)), spec_pieces(t.skip(k + 1))) {
            (Some(v), Some(rest)) => Some(seq![v] + rest),
            _ => None,
        }
    } else {
        match spec_value(t) {
            Some(v) => Some(seq![v]),
            None => None,
        }
    }
}

/// Where the first `,` of `s` stands, or its length when there is none.
fn find_comma(s: &str) -> (r: usize)
    ensures
        r == first_comma(s@),
{
    proof {
        lemma_first_comma(s@);
    }
    let len = s.unicode_len();
    let mut i: usize = 0;
    while i < len
        invariant
            len == s@.len(),
            0 <= i <= len,
            i <= first_comma(s@) <= len,
            first_comma(s@) < len ==> s@[first_comma(s@)] == ',',
            forall|j: int| 0 <= j < first_comma(s@) ==> s@[j] != ',',
        decreases len - i,
    {
        if s.get_char(i) == ',' {
            return i;
        }
        i = i + 1;
    }
    i
}

impl LocalizationKey {
    /// Reads `$key`; any text that does not start with `$` is refused.
    pub fn from_str(s: &str) -> (r: Result<LocalizationKey, ()>)
        ensures
            match r {
                Ok(k) => spec_localization_key(s@) == Some(k.0@),
                Err(_) => spec_localization_key(s@) is None,
            },
    {
        let len = s.unicode_len();
        if len > 0 && s.get_char(0) == '$' {
            let rest = s.substring_char(1, len);
            assert(rest@ =~= s@.skip(1));
            Ok(LocalizationKey(rest.to_owned()))
        } else {
            Err(())
        }
    }
}

impl Enum {
    /// Reads an enumeration name, an ASCII identifier, as the regular
    /// expression `^[a-zA-Z_][a-zA-Z0-9_]*$` matches it.
    pub fn from_str(s: &str) -> (r: Result<Enum, ()>)
        ensures
            match r {
                Ok(e) => crate::lexical::is_identifier(s@) && e.0@ == s@,
                Err(_) => !crate::lexical::is_identifier(s@),
            },
    {
        match regex_is_match("^[a-zA-Z_][a-zA-Z0-9_]*$", s) {
            Ok(matched) => Enum::from_match(s, matched),
            Err(_) => Err(()),
        }
    }

    /// An enumeration name from `s`, given whether the identifier pattern
    /// matched it.
    pub fn from_match(s: &str, matched: bool) -> (r: Result<Enum, ()>)
        ensures
            match r {
                Ok(e) => matched && e.0@ == s@,
                Err(_) => !matched,
            },
    {
        if matched {
            Ok(Enum(s.to_owned()))
        } else {
            Err(())
        }
    }
}

impl Str {
    /// Reads a quoted string: a text that starts and ends with `"`, held
    /// without the two quotes. A lone `"` is left out: unquoting it slices
    /// past its end.
    pub fn from_str(s: &str) -> (r: Result<Str, ()>)
        requires
            s@ != seq!['"'],
        ensures
            match r {
                Ok(q) => is_quoted(s@) && q.0@ == s@.subrange(1, s@.len() - 1),
                Err(_) => !is_quoted(s@),
            },
    {
        let len = s.unicode_len();
        if len > 0 && s.get_char(0) == '"' && s.get_char(len - 1) == '"' {
            if len == 1 {
                assert(s@ =~= seq!['"']);
            }
            let inner = s.substring_char(1, len - 1);
            Ok(Str(inner.to_owned()))
        } else {
            Err(())
        }
    }
}

/// Reads a value, or `None` where the reading does not come to an end.
fn parse_value(s: &str) -> (r: Option<Value>)
    ensures
        option_view(r) == spec_value(s@),
    decreases s@.len(), 1nat,
{
    if let Some(i) = parse_i32(s) {
        return Some(Value::Integer(i));
    }
    if let Some(u) = parse_u32(s) {
        return Some(Value::UnsignedInteger(u));
    }
    if is_float_text(s) {
        return Some(Value::Float(s.to_owned()));
    }
    if let Some(b) = parse_bool(s) {
        return Some(Value::Boolean(b));
    }
    if let Ok(k) = LocalizationKey::from_str(s) {
        return Some(Value::LocalizationKey(k));
    }
    if let Ok(e) = Enum::from_str(s) {
        return Some(Value::Enumeration(e));
    }
    let len = s.unicode_len();
    if len == 1 && s.get_char(0) == '"' {
        assert(is_quoted(s@));
        return None;
    }
    assert(s@ != seq!['"']);
    if let Ok(q) = Str::from_str(s) {
        return Some(Value::String(q));
    }
    proof {
        lemma_first_comma(s@);
    }
    let k = find_comma(s);
    if k < len {
        let head = s.substring_char(0, k);
        let tail = s.substring_char(k + 1, len);
        assert(head@ =~= s@.take(k as int));
        assert(tail@ =~= s@.skip(k + 1));
        match parse_value(head) {
            Some(v) => match parse_pieces(tail) {
                Some(rest) => Some(Value::Array(Array(prepend(v, rest)))),
                None => None,
            },
            None => None,
        }
    } else {
        None
    }
}

/// `v` followed by the values of `rest`.
fn prepend(v: Value, rest: Vec<Value>) -> (items: Vec<Value>)
    ensures
        vec_view(items) == seq![value_view(v)] + vec_view(rest),
{
    let ghost rest_seq = rest@;
    let ghost vv = value_view(v);
    let mut rest = rest;
    let mut items: Vec<Value> = Vec::new();
    items.push(v);
    items.append(&mut rest);
    proof {
        lemma_values_view(items@, items@.len());
        lemma_values_view(rest_seq, rest_seq.len());
        assert(vec_view(items) =~= seq![vv] + values_view(rest_seq, rest_seq.len()));
    }
    items
}

/// Reads the comma-separated pieces of `t`, or `None` when one of them has
/// no value.
fn parse_pieces(t: &str) -> (r: Option<Vec<Value>>)
    ensures
        match r {
            Some(vs) => spec_pieces(t@) == Some(vec_view(vs)),
            None => spec_pieces(t@) is None,
        },
    decreases t@.len(), 2nat,
{
    proof {
        lemma_first_comma(t@);
    }
    let len = t.unicode_len();
    let k = find_comma(t);
    if k < len {
        let head = t.substring_char(0, k);
        let tail = t.substring_char(k + 1, len);
        assert(head@ =~= t@.take(k as int));
        assert(tail@ =~= t@.skip(k + 1));
        match parse_value(head) {
            Some(v) => match parse_pieces(tail) {
                Some(rest) => Some(prepend(v, rest)),
                None => None,
            },
            None => None,
        }
    } else {
        match parse_value(t) {
            Some(v) => {
                let ghost vv = value_view(v);
                let mut items: Vec<Value> = Vec::new();
                items.push(v);
                proof {
                    lemma_values_view(items@, items@.len());
                    assert(vec_view(items) =~= seq![vv]);
                }
                Some(items)
            },
            None => None,
        }
    }
}


/// The text that `Value::as_enum` gives for an enumeration.
pub open spec fn enum_marker() -> Seq<char> {
    "enum"@
}

impl Array {
    /// Reads the comma-separated pieces of `s`, each as a value. Left out are
    /// the texts whose reading does not come to an end (see `spec_value`).
    pub fn from_str(s: &str) -> (r: Result<Array, ()>)
        requires
            spec_pieces(s@) is Some,
        ensures
            r is Ok,
            r matches Ok(a) ==> vec_view(a.0) == spec_pieces(s@)->0,
    {
        match parse_pieces(s) {
            Some(items) => Ok(Array(items)),
            None => Err(()),
        }
    }
}

impl Value {
    /// Reads a value, trying each form in turn: `i32`, `u32`, floating-point
    /// literal, boolean, `$key`, enumeration name, quoted string, and last a
    /// comma-separated array. Left out are the texts whose reading does not
    /// come to an end (see `spec_value`).
    pub fn from_str(s: &str) -> (r: Value)
        requires
            spec_value(s@) is Some,
        ensures
            r@ == spec_value(s@)->0,
    {
        match parse_value(s) {
            Some(v) => v,
            None => Value::Boolean(false),
        }
    }

    /// Reads a value as `from_str` does, giving `None` on the texts whose
    /// reading does not come to an end.
    pub fn parse(s: &str) -> (r: Option<Value>)
        ensures
            option_view(r) == spec_value(s@),
    {
        parse_value(s)
    }

    /// The marker text of an enumeration value.
    pub fn as_enum(&self) -> (r: String)
        requires
            self@ is Enumeration,
        ensures
            r@ == enum_marker(),
    {
        "enum".to_owned()
    }

    /// One marker text per item of an array whose items are all enumeration
    /// values.
    pub fn as_array_of_enum(&self) -> (r: Vec<String>)
        requires
            self@ is Array,
            forall|i: int| 0 <= i < self@->Array_0.len() ==> #[trigger] self@->Array_0[i] is Enumeration,
        ensures
            r@.len() == self@->Array_0.len(),
            forall|i: int| 0 <= i < r@.len() ==> #[trigger] r@[i]@ == enum_marker(),
    {
        match self {
            Value::Array(array) => {
                proof {
                    lemma_values_view(array.0@, array.0@.len());
                    assert(self@ == ValueView::Array(values_view(array.0@, array.0@.len())));
                    assert forall|j: int| 0 <= j < array.0@.len() implies #[trigger] values_view(
                        array.0@,
                        array.0@.len(),
                    )[j] is Enumeration by {
                        assert(self@->Array_0[j] is Enumeration);
                    }
                }
                let mut out: Vec<String> = Vec::new();
                let mut i: usize = 0;
                while i < array.0.len()
                    invariant
                        0 <= i <= array.0@.len(),
                        out@.len() == i,
                        forall|j: int| 0 <= j < i ==> #[trigger] out@[j]@ == enum_marker(),
                        forall|j: int| 0 <= j < array.0@.len() ==> #[trigger] values_view(array.0@, array.0@.len())[j] == value_view(array.0@[j]),
                        forall|j: int| 0 <= j < array.0@.len() ==> #[trigger] values_view(array.0@, array.0@.len())[j] is Enumeration,
                    decreases array.0@.len() - i,
                {
                    let item = &array.0[i];
                    assert(values_view(array.0@, array.0@.len())[i as int] is Enumeration);
                    out.push(item.as_enum());
                    i = i + 1;
                }
                out
            },
            _ => Vec::new(),
        }
    }
}


/// How many commas `s` holds.
pub open spec fn comma_count(s: Seq<char>) -> nat
    decreases s.len(),
{
    if s.len() == 0 {
        0
    } else {
        (if s[0] == ',' {
            1nat
        } else {
            0nat
        }) + comma_count(s.skip(1))
    }
}

proof fn lemma_comma_count_split(s: Seq<char>)
    ensures
        first_comma(s) < s.len() ==> comma_count(s) == 1 + comma_count(s.skip(first_comma(s) + 1)),
        first_comma(s) == s.len() ==> comma_count(s) == 0,
    decreases s.len(),
{
    lemma_first_comma(s);
    if s.len() > 0 && s[0] != ',' {
        lemma_comma_count_split(s.skip(1));
        lemma_first_comma(s.skip(1));
        assert(first_comma(s) == 1 + first_comma(s.skip(1)));
        assert(comma_count(s) == comma_count(s.skip(1)));
        if first_comma(s) < s.len() {
            assert(s.skip(1).skip(first_comma(s.skip(1)) + 1) =~= s.skip(first_comma(s) + 1));
        }
    }
}

/// An array text with n commas reads as n + 1 items.
pub proof fn law_array_item_count(t: Seq<char>)
    ensures
        spec_pieces(t) is Some ==> spec_pieces(t)->0.len() == comma_count(t) + 1,
    decreases t.len(),
{
    lemma_first_comma(t);
    lemma_comma_count_split(t);
    let k = first_comma(t);
    if k < t.len() {
        law_array_item_count(t.skip(k + 1));
    }
}

/// The first character rules out the integer, float and boolean forms when
/// it is neither a digit, a sign, a point nor a letter of those words.
proof fn lemma_not_numeric(s: Seq<char>)
    requires
        s.len() > 0,
        !crate::lexical::is_digit(s[0]),
        !crate::lexical::is_sign(s[0]),
        s[0] != '.',
        !crate::lexical::ci_char(s[0], 'i'),
        !crate::lexical::ci_char(s[0], 'n'),
    ensures
        crate::lexical::spec_parse_i32(s) is None,
        crate::lexical::spec_parse_u32(s) is None,
        !crate::lexical::is_float_literal(s),
{
    assert(!crate::lexical::is_digit(s[0]));
    assert(!crate::lexical::is_mantissa(s)) by {
        assert(!(crate::lexical::is_digit(s[0]) || s[0] == '.'));
    }
    assert forall|k: int| 0 <= k < s.len() && #[trigger] crate::lexical::ci_char(s[k], 'e') implies !(
    crate::lexical::is_mantissa(s.take(k))) by {
        if k > 0 {
            assert(s.take(k)[0] == s[0]);
            assert(!(crate::lexical::is_digit(s.take(k)[0]) || s.take(k)[0] == '.'));
        } else {
            assert(s.take(k).len() == 0);
        }
    }
    assert(!crate::lexical::ci_word(s, seq!['i', 'n', 'f'])) by {
        if s.len() == 3 {
            assert(!crate::lexical::ci_char(s[0], seq!['i', 'n', 'f'][0]));
        }
    }
    assert(!crate::lexical::ci_word(s, seq!['i', 'n', 'f', 'i', 'n', 'i', 't', 'y'])) by {
        if s.len() == 8 {
            assert(!crate::lexical::ci_char(s[0], seq!['i', 'n', 'f', 'i', 'n', 'i', 't', 'y'][0]));
        }
    }
    assert(!crate::lexical::ci_word(s, seq!['n', 'a', 'n'])) by {
        if s.len() == 3 {
            assert(!crate::lexical::ci_char(s[0], seq!['n', 'a', 'n'][0]));
        }
    }
    assert(!crate::lexical::all_digits(s)) by {
        assert(!crate::lexical::is_digit(s[0]));
    }
}

/// A text that starts with `$` reads as the localisation key after it.
pub proof fn law_dollar_reads_as_localization_key(s: Seq<char>)
    requires
        s.len() > 0,
        s[0] == '$',
    ensures
        spec_value(s) == Some(ValueView::LocalizationKey(s.skip(1))),
{
    lemma_not_numeric(s);
    assert(crate::lexical::spec_parse_bool(s) is None) by {
        if s == seq!['t', 'r', 'u', 'e'] {
            assert(s[0] == 't');
        }
        if s == seq!['f', 'a', 'l', 's', 'e'] {
            assert(s[0] == 'f');
        }
    }
}

/// A quoted text of at least two characters reads as the string between the
/// quotes, commas and all.
pub proof fn law_quoted_reads_as_string(s: Seq<char>)
    requires
        s.len() >= 2,
        s[0] == '"',
        s.last() == '"',
    ensures
        spec_value(s) == Some(ValueView::String(s.subrange(1, s.len() - 1))),
{
    lemma_not_numeric(s);
    assert(crate::lexical::spec_parse_bool(s) is None) by {
        if s == seq!['t', 'r', 'u', 'e'] {
            assert(s[0] == 't');
        }
        if s == seq!['f', 'a', 'l', 's', 'e'] {
            assert(s[0] == 'f');
        }
    }
    assert(!crate::lexical::is_identifier(s));
}

/// An identifier reads as an enumeration name unless it is a boolean or one
/// of the float words (`inf`, `infinity`, `nan`, in any case).
pub proof fn law_identifier_reads_as_enumeration(s: Seq<char>)
    requires
        crate::lexical::is_identifier(s),
        crate::lexical::spec_parse_bool(s) is None,
        !crate::lexical::ci_word(s, seq!['i', 'n', 'f']),
        !crate::lexical::ci_word(s, seq!['i', 'n', 'f', 'i', 'n', 'i', 't', 'y']),
        !crate::lexical::ci_word(s, seq!['n', 'a', 'n']),
    ensures
        spec_value(s) == Some(ValueView::Enumeration(s)),
{
    assert(!crate::lexical::is_digit(s[0]) && !crate::lexical::is_sign(s[0]) && s[0] != '.');
    assert(!crate::lexical::all_digits(s)) by {
        assert(!crate::lexical::is_digit(s[0]));
    }
    assert(!crate::lexical::is_mantissa(s)) by {
        assert(!(crate::lexical::is_digit(s[0]) || s[0] == '.'));
    }
    assert forall|k: int| 0 <= k < s.len() && #[trigger] crate::lexical::ci_char(s[k], 'e') implies !(
    crate::lexical::is_mantissa(s.take(k))) by {
        if k > 0 {
            assert(s.take(k)[0] == s[0]);
            assert(!(crate::lexical::is_digit(s.take(k)[0]) || s.take(k)[0] == '.'));
        } else {
            assert(s.take(k).len() == 0);
        }
    }
}

/// A floating-point value keeps the text it was read from, sign and all:
/// whatever reads as a float is a float literal, held exactly as written.
pub proof fn law_float_keeps_its_text(s: Seq<char>)
    ensures
        spec_value(s) matches Some(ValueView::Float(t)) ==> t == s
            && crate::lexical::is_float_literal(s),
{
}

/// A float literal that is not an `i32` or `u32` reads as a float holding
/// exactly the text.
pub proof fn law_float_literal_reads_as_float(s: Seq<char>)
    requires
        crate::lexical::is_float_literal(s),
        crate::lexical::spec_parse_i32(s) is None,
        crate::lexical::spec_parse_u32(s) is None,
    ensures
        spec_value(s) == Some(ValueView::Float(s)),
{
}

} // verus!
