//! Decoding of the literal forms: escapes, characters, strings, integers,
//! floats and boolean keywords.
use vstd::prelude::*;
use vstd::string::*;

use crate::error::DError;

verus! {

pub open spec fn is_digit_char(c: char) -> bool {
    '0' <= c && c <= '9'
}

pub open spec fn all_digits(d: Seq<char>) -> bool {
    forall|i: int| 0 <= i < d.len() ==> is_digit_char(#[trigger] d[i])
}

/// The value of a decimal digit character.
pub open spec fn digit_value(c: char) -> nat {
    ((c as u32) - ('0' as u32)) as nat
}

/// The value of a sequence of decimal digits, most significant first.
pub open spec fn digits_value(d: Seq<char>) -> nat
    decreases d.len(),
{
    if d.len() == 0 {
        0
    } else {
        digits_value(d.drop_last()) * 10 + digit_value(d.last())
    }
}

/// The character that `\c` stands for, if `c` is in the escape table.
pub open spec fn escape_target(c: char) -> Option<char> {
    if c == '0' {
        Some('\0')
    } else if c == 'n' {
        Some('\n')
    } else if c == 'r' {
        Some('\r')
    } else if c == 't' {
        Some('\t')
    } else if c == '"' {
        Some('"')
    } else if c == '\'' {
        Some('\'')
    } else if c == '\\' {
        Some('\\')
    } else {
        None
    }
}

/// The decoding of the body of a character literal (without its quotes).
pub open spec fn char_body(b: Seq<char>) -> Result<char, DError> {
    if b.len() == 0 {
        Err(DError::EmptyCharLiteral)
    } else if b[0] == '\'' {
        Err(DError::UnescapedSingleQuote)
    } else if b[0] == '\\' {
        if b.len() < 2 || escape_target(b[1]) is None {
            Err(DError::UnknownEscape)
        } else if b.len() > 2 {
            Err(DError::TooLongCharacter)
        } else {
            Ok(escape_target(b[1])->0)
        }
    } else if b.len() > 1 {
        Err(DError::TooLongCharacter)
    } else {
        Ok(b[0])
    }
}

/// `r` with `a` put in front of its success value.
pub open spec fn prepend(a: Seq<char>, r: Result<Seq<char>, DError>) -> Result<Seq<char>, DError> {
    match r {
        Ok(t) => Ok(a + t),
        Err(e) => Err(e),
    }
}

/// The decoding of the body of a string literal (without its quotes),
/// escapes decoded from left to right.
pub open spec fn string_body(b: Seq<char>) -> Result<Seq<char>, DError>
    decreases b.len(),
{
    if b.len() == 0 {
        Ok(Seq::empty())
    } else if b[0] != '\\' {
        prepend(seq![b[0]], string_body(b.skip(1)))
    } else if b.len() < 2 {
        Err(DError::UnterminatedString)
    } else {
        match escape_target(b[1]) {
            None => Err(DError::UnknownEscape),
            Some(c) => prepend(seq![c], string_body(b.skip(2))),
        }
    }
}

/// The view of a decoding result that holds a `String`.
pub open spec fn string_result(r: Result<String, DError>) -> Result<Seq<char>, DError> {
    match r {
        Ok(s) => Ok(s@),
        Err(e) => Err(e),
    }
}

/// A literal is delimited by `q` when it starts and ends with it.
pub open spec fn delimited(s: Seq<char>, q: char) -> bool {
    s.len() >= 2 && s[0] == q && s.last() == q
}

/// The text between the delimiters.
pub open spec fn inner(s: Seq<char>) -> Seq<char> {
    s.subrange(1, s.len() - 1)
}

/// A character literal, quotes included.
pub open spec fn char_literal(s: Seq<char>) -> Result<char, DError> {
    if delimited(s, '\'') {
        char_body(inner(s))
    } else {
        Err(DError::UnknownExpression)
    }
}

/// A string literal, quotes included.
pub open spec fn string_literal(s: Seq<char>) -> Result<Seq<char>, DError> {
    if delimited(s, '"') {
        string_body(inner(s))
    } else {
        Err(DError::UnknownExpression)
    }
}

/// Length of the optional leading sign.
pub open spec fn sign_len(s: Seq<char>) -> int {
    if s.len() > 0 && (s[0] == '+' || s[0] == '-') {
        1
    } else {
        0
    }
}

pub open spec fn is_negative(s: Seq<char>) -> bool {
    s.len() > 0 && s[0] == '-'
}

/// An integer literal: an optional sign and one or more digits, as a
/// 32-bit signed value.
pub open spec fn int_literal(s: Seq<char>) -> Result<i32, DError> {
    let d = s.skip(sign_len(s));
    if d.len() == 0 || !all_digits(d) {
        Err(DError::ConstValueTooLarge)
    } else {
        let v: int = if is_negative(s) {
            -digits_value(d)
        } else {
            digits_value(d) as int
        };
        if i32::MIN <= v <= i32::MAX {
            Ok(v as i32)
        } else {
            Err(DError::ConstValueTooLarge)
        }
    }
}

/// Index of the first `.` in `s`, or its length if there is none.
pub open spec fn find_dot(s: Seq<char>) -> int
    decreases s.len(),
{
    if s.len() == 0 {
        0
    } else if s[0] == '.' {
        0
    } else {
        1 + find_dot(s.skip(1))
    }
}

/// `d` without its leading zeros, keeping at least one digit.
pub open spec fn strip_leading_zeros(d: Seq<char>) -> Seq<char>
    decreases d.len(),
{
    if d.len() > 1 && d[0] == '0' {
        strip_leading_zeros(d.skip(1))
    } else {
        d
    }
}

/// `d` without its trailing zeros, keeping at least one digit.
pub open spec fn strip_trailing_zeros(d: Seq<char>) -> Seq<char>
    decreases d.len(),
{
    if d.len() > 1 && d.last() == '0' {
        strip_trailing_zeros(d.drop_last())
    } else {
        d
    }
}

/// A float literal as plain values: its sign and its digits before and
/// after the decimal point.
pub struct FloatV {
    pub negative: bool,
    pub whole: Seq<char>,
    pub frac: Seq<char>,
}

/// A float literal: an optional sign, then `digits.digits` with an optional
/// trailing `f`, or `digits` with a mandatory trailing `f`. The value keeps
/// the digits without leading zeros before the point and without trailing
/// zeros after it, so that literals of one value decode alike.
pub open spec fn float_literal(s: Seq<char>) -> Result<FloatV, DError> {
    let b = s.skip(sign_len(s));
    let suffixed = b.len() > 0 && b.last() == 'f';
    let core = if suffixed {
        b.drop_last()
    } else {
        b
    };
    let k = find_dot(core);
    if k < core.len() {
        let whole = core.take(k);
        let frac = core.skip(k + 1);
        if whole.len() > 0 && all_digits(whole) && frac.len() > 0 && all_digits(frac) {
            Ok(
                FloatV {
                    negative: is_negative(s),
                    whole: strip_leading_zeros(whole),
                    frac: strip_trailing_zeros(frac),
                },
            )
        } else {
            Err(DError::ConstValueTooLarge)
        }
    } else if suffixed && core.len() > 0 && all_digits(core) {
        Ok(FloatV { negative: is_negative(s), whole: strip_leading_zeros(core), frac: seq!['0'] })
    } else {
        Err(DError::ConstValueTooLarge)
    }
}

/// `c` is the letter `k` (an upper-case ASCII letter) in either case.
pub open spec fn same_letter(c: char, k: char) -> bool {
    c == k || (c as u32) == (k as u32) + 32
}

/// `s` spells the keyword `kw` (upper-case ASCII), ignoring case.
pub open spec fn spells(s: Seq<char>, kw: Seq<char>) -> bool {
    s.len() == kw.len() && forall|i: int| 0 <= i < s.len() ==> same_letter(#[trigger] s[i], kw[i])
}

pub open spec fn kw_igaz() -> Seq<char> {
    seq!['I', 'G', 'A', 'Z']
}

pub open spec fn kw_true() -> Seq<char> {
    seq!['T', 'R', 'U', 'E']
}

pub open spec fn kw_hamis() -> Seq<char> {
    seq!['H', 'A', 'M', 'I', 'S']
}

pub open spec fn kw_false() -> Seq<char> {
    seq!['F', 'A', 'L', 'S', 'E']
}

/// A boolean keyword, matched without regard to case.
pub open spec fn bool_literal(s: Seq<char>) -> Option<bool> {
    if spells(s, kw_igaz()) || spells(s, kw_true()) {
        Some(true)
    } else if spells(s, kw_hamis()) || spells(s, kw_false()) {
        Some(false)
    } else {
        None
    }
}

/// Relies on String::push: appends one character to the string.
#[verifier::external_body]
pub(crate) fn push_char(s: &mut String, c: char)
    ensures
        final(s)@ == old(s)@.push(c),
{
    s.push(c)
}

/// The characters of `s`, in order.
pub fn chars_of(s: &str) -> (r: Vec<char>)
    ensures
        r@ == s@,
{
    let n = s.unicode_len();
    let mut r: Vec<char> = Vec::new();
    let mut i: usize = 0;
    while i < n
        invariant
            n == s@.len(),
            i <= n,
            r@ == s@.take(i as int),
        decreases n - i,
    {
        r.push(s.get_char(i));
        proof {
            assert(r@ =~= s@.take(i + 1));
        }
        i = i + 1;
    }
    proof {
        assert(r@ =~= s@);
    }
    r
}

/// A string holding `v[lo..hi]`.
pub fn string_of(v: &Vec<char>, lo: usize, hi: usize) -> (r: String)
    requires
        lo <= hi <= v@.len(),
    ensures
        r@ == v@.subrange(lo as int, hi as int),
{
    let mut r = String::new();
    let mut i: usize = lo;
    while i < hi
        invariant
            lo <= i <= hi <= v@.len(),
            r@ == v@.subrange(lo as int, i as int),
        decreases hi - i,
    {
        push_char(&mut r, v[i]);
        proof {
            assert(r@ =~= v@.subrange(lo as int, i + 1));
        }
        i = i + 1;
    }
    r
}

pub fn is_digit(c: char) -> (r: bool)
    ensures
        r == is_digit_char(c),
{
    '0' <= c && c <= '9'
}

/// The character that `\c` stands for.
pub fn escape_of(c: char) -> (r: Option<char>)
    ensures
        r == escape_target(c),
{
    if c == '0' {
        Some('\0')
    } else if c == 'n' {
        Some('\n')
    } else if c == 'r' {
        Some('\r')
    } else if c == 't' {
        Some('\t')
    } else if c == '"' {
        Some('"')
    } else if c == '\'' {
        Some('\'')
    } else if c == '\\' {
        Some('\\')
    } else {
        None
    }
}

/// Decodes the body `v[lo..hi]` of a character literal.
pub fn decode_char(v: &Vec<char>, lo: usize, hi: usize) -> (r: Result<char, DError>)
    requires
        lo <= hi <= v@.len(),
    ensures
        r == char_body(v@.subrange(lo as int, hi as int)),
{
    let ghost b = v@.subrange(lo as int, hi as int);
    let n = hi - lo;
    if n == 0 {
        return Err(DError::EmptyCharLiteral);
    }
    let c = v[lo];
    assert(b[0] == c);
    if c == '\'' {
        Err(DError::UnescapedSingleQuote)
    } else if c == '\\' {
        if n < 2 {
            return Err(DError::UnknownEscape);
        }
        assert(b[1] == v@[lo + 1]);
        match escape_of(v[lo + 1]) {
            None => Err(DError::UnknownEscape),
            Some(e) => {
                if n > 2 {
                    Err(DError::TooLongCharacter)
                } else {
                    Ok(e)
                }
            },
        }
    } else if n > 1 {
        Err(DError::TooLongCharacter)
    } else {
        Ok(c)
    }
}

/// Decodes the body of a character literal (the text between its quotes):
/// one raw character, or a backslash and a letter of the escape table.
pub fn char_parser(c: &str) -> (r: Result<char, DError>)
    ensures
        r == char_body(c@),
{
    let v = chars_of(c);
    proof {
        assert(v@.subrange(0, v@.len() as int) =~= c@);
    }
    decode_char(&v, 0, v.len())
}

/// Decodes the body `v[lo..hi]` of a string literal.
pub fn decode_string(v: &Vec<char>, lo: usize, hi: usize) -> (r: Result<String, DError>)
    requires
        lo <= hi <= v@.len(),
    ensures
        string_result(r) == string_body(v@.subrange(lo as int, hi as int)),
{
    let ghost b = v@.subrange(lo as int, hi as int);
    let mut out = String::new();
    let mut i: usize = lo;
    while i < hi
        invariant
            lo <= i <= hi <= v@.len(),
            b == v@.subrange(lo as int, hi as int),
            string_body(b) == prepend(out@, string_body(v@.subrange(i as int, hi as int))),
        decreases hi - i,
    {
        let ghost rest = v@.subrange(i as int, hi as int);
        let c = v[i];
        assert(rest[0] == c);
        if c != '\\' {
            proof {
                assert(rest.skip(1) =~= v@.subrange(i + 1, hi as int));
                assert(out@ + (seq![c] + Seq::empty()) =~= out@.push(c) + Seq::empty());
                match string_body(rest.skip(1)) {
                    Ok(t) => {
                        assert(out@ + (seq![c] + t) =~= out@.push(c) + t);
                    },
                    Err(_) => {},
                }
            }
            push_char(&mut out, c);
            i = i + 1;
        } else {
            if i + 1 >= hi {
                return Err(DError::UnterminatedString);
            }
            assert(rest[1] == v@[i + 1]);
            match escape_of(v[i + 1]) {
                None => {
                    return Err(DError::UnknownEscape);
                },
                Some(e) => {
                    proof {
                        assert(rest.skip(2) =~= v@.subrange(i + 2, hi as int));
                        match string_body(rest.skip(2)) {
                            Ok(t) => {
                                assert(out@ + (seq![e] + t) =~= out@.push(e) + t);
                            },
                            Err(_) => {},
                        }
                    }
                    push_char(&mut out, e);
                    i = i + 2;
                },
            }
        }
    }
    proof {
        assert(v@.subrange(i as int, hi as int) =~= Seq::<char>::empty());
        assert(out@ + Seq::<char>::empty() =~= out@);
    }
    Ok(out)
}

/// Decodes the body of a string literal (the text between its quotes),
/// each backslash escape in turn.
pub fn string_parser(s: &str) -> (r: Result<String, DError>)
    ensures
        string_result(r) == string_body(s@),
{
    let v = chars_of(s);
    proof {
        assert(v@.subrange(0, v@.len() as int) =~= s@);
    }
    decode_string(&v, 0, v.len())
}

proof fn lemma_digits_value_prefix(d: Seq<char>, i: int)
    requires
        0 <= i <= d.len(),
    ensures
        digits_value(d.take(i)) <= digits_value(d),
    decreases d.len(),
{
    if i < d.len() {
        assert(d.drop_last().take(i) =~= d.take(i));
        lemma_digits_value_prefix(d.drop_last(), i);
    } else {
        assert(d.take(i) =~= d);
    }
}

const I32_LIMIT: u64 = 2147483648;

/// Decodes the integer literal `v[lo..hi]`.
pub fn lex_int(v: &Vec<char>, lo: usize, hi: usize) -> (r: Result<i32, DError>)
    requires
        lo <= hi <= v@.len(),
    ensures
        r == int_literal(v@.subrange(lo as int, hi as int)),
{
    let ghost s = v@.subrange(lo as int, hi as int);
    let mut start = lo;
    let mut negative = false;
    if lo < hi && (v[lo] == '+' || v[lo] == '-') {
        negative = v[lo] == '-';
        start = lo + 1;
    }
    let ghost d = s.skip(sign_len(s));
    assert(d =~= v@.subrange(start as int, hi as int));
    assert(negative == is_negative(s));
    if start == hi {
        return Err(DError::ConstValueTooLarge);
    }
    let mut acc: u64 = 0;
    let mut i: usize = start;
    while i < hi
        invariant
            lo <= start <= i <= hi <= v@.len(),
            d == v@.subrange(start as int, hi as int),
            s == v@.subrange(lo as int, hi as int),
            d == s.skip(sign_len(s)),
            negative == is_negative(s),
            all_digits(d.take(i - start)),
            acc as nat == digits_value(d.take(i - start)),
            acc <= I32_LIMIT,
        decreases hi - i,
    {
        let c = v[i];
        assert(d[i - start] == c);
        if !is_digit(c) {
            assert(!is_digit_char(d[i - start]));
            return Err(DError::ConstValueTooLarge);
        }
        let dv = (c as u32 - '0' as u32) as u64;
        proof {
            let t = d.take(i - start + 1);
            assert(t.drop_last() =~= d.take(i - start));
            assert(t.last() == c);
            assert(all_digits(t));
            assert(digits_value(t) == digits_value(d.take(i - start)) * 10 + digit_value(c));
        }
        acc = acc * 10 + dv;
        i = i + 1;
        if acc > I32_LIMIT {
            proof {
                if all_digits(d) {
                    lemma_digits_value_prefix(d, i - start);
                    assert(digits_value(d) > I32_LIMIT);
                }
            }
            return Err(DError::ConstValueTooLarge);
        }
    }
    proof {
        assert(d.take(i - start) =~= d);
    }
    if negative {
        Ok((0 - acc as i64) as i32)
    } else if acc < I32_LIMIT {
        Ok(acc as i32)
    } else {
        Err(DError::ConstValueTooLarge)
    }
}

proof fn lemma_find_dot(s: Seq<char>, k: int)
    requires
        0 <= k <= s.len(),
        forall|j: int| 0 <= j < k ==> s[j] != '.',
        k == s.len() || s[k] == '.',
    ensures
        find_dot(s) == k,
    decreases s.len(),
{
    if s.len() > 0 && s[0] != '.' {
        lemma_find_dot(s.skip(1), k - 1);
    }
}

/// Whether `v[lo..hi]` holds only digits.
fn only_digits(v: &Vec<char>, lo: usize, hi: usize) -> (r: bool)
    requires
        lo <= hi <= v@.len(),
    ensures
        r == all_digits(v@.subrange(lo as int, hi as int)),
{
    let mut i: usize = lo;
    while i < hi
        invariant
            lo <= i <= hi <= v@.len(),
            forall|j: int| lo <= j < i ==> is_digit_char(#[trigger] v@[j]),
        decreases hi - i,
    {
        if !is_digit(v[i]) {
            assert(v@.subrange(lo as int, hi as int)[i - lo] == v@[i as int]);
            return false;
        }
        i = i + 1;
    }
    proof {
        let t = v@.subrange(lo as int, hi as int);
        assert forall|j: int| 0 <= j < t.len() implies is_digit_char(#[trigger] t[j]) by {
            assert(t[j] == v@[lo + j]);
        }
    }
    true
}

/// A float literal as decoded: its sign and its digits before and after
/// the decimal point.
#[derive(Debug, Clone, PartialEq)]
pub struct FloatLit {
    pub negative: bool,
    pub whole: String,
    pub frac: String,
}

impl View for FloatLit {
    type V = FloatV;

    open spec fn view(&self) -> FloatV {
        FloatV { negative: self.negative, whole: self.whole@, frac: self.frac@ }
    }
}

pub open spec fn float_result(r: Result<FloatLit, DError>) -> Result<FloatV, DError> {
    match r {
        Ok(f) => Ok(f@),
        Err(e) => Err(e),
    }
}

/// Where the digits `v[lo..hi]` start once leading zeros are skipped.
fn skip_leading_zeros(v: &Vec<char>, lo: usize, hi: usize) -> (a: usize)
    requires
        lo < hi <= v@.len(),
    ensures
        lo <= a < hi,
        v@.subrange(a as int, hi as int) == strip_leading_zeros(v@.subrange(lo as int, hi as int)),
{
    let mut a: usize = lo;
    while a + 1 < hi && v[a] == '0'
        invariant
            lo <= a < hi <= v@.len(),
            strip_leading_zeros(v@.subrange(lo as int, hi as int)) == strip_leading_zeros(
                v@.subrange(a as int, hi as int),
            ),
        decreases hi - a,
    {
        assert(v@.subrange(a as int, hi as int)[0] == v@[a as int]);
        assert(v@.subrange(a as int, hi as int).skip(1) =~= v@.subrange(a + 1, hi as int));
        a = a + 1;
    }
    assert(v@.subrange(a as int, hi as int)[0] == v@[a as int]);
    a
}

/// Where the digits `v[lo..hi]` end once trailing zeros are dropped.
fn skip_trailing_zeros(v: &Vec<char>, lo: usize, hi: usize) -> (b: usize)
    requires
        lo < hi <= v@.len(),
    ensures
        lo < b <= hi,
        v@.subrange(lo as int, b as int) == strip_trailing_zeros(v@.subrange(lo as int, hi as int)),
{
    let mut b: usize = hi;
    while b - 1 > lo && v[b - 1] == '0'
        invariant
            lo < b <= hi <= v@.len(),
            strip_trailing_zeros(v@.subrange(lo as int, hi as int)) == strip_trailing_zeros(
                v@.subrange(lo as int, b as int),
            ),
        decreases b,
    {
        assert(v@.subrange(lo as int, b as int).last() == v@[b - 1]);
        assert(v@.subrange(lo as int, b as int).drop_last() =~= v@.subrange(lo as int, b - 1));
        b = b - 1;
    }
    assert(v@.subrange(lo as int, b as int).last() == v@[b - 1]);
    b
}

/// Decodes the float literal `v[lo..hi]`.
pub fn lex_float(v: &Vec<char>, lo: usize, hi: usize) -> (r: Result<FloatLit, DError>)
    requires
        lo <= hi <= v@.len(),
    ensures
        float_result(r) == float_literal(v@.subrange(lo as int, hi as int)),
{
    let ghost s = v@.subrange(lo as int, hi as int);
    let mut start = lo;
    let mut negative = false;
    if lo < hi && (v[lo] == '+' || v[lo] == '-') {
        negative = v[lo] == '-';
        start = lo + 1;
    }
    let ghost b = s.skip(sign_len(s));
    assert(b =~= v@.subrange(start as int, hi as int));
    let suffixed = start < hi && v[hi - 1] == 'f';
    let end = if suffixed {
        hi - 1
    } else {
        hi
    };
    let ghost core = v@.subrange(start as int, end as int);
    assert(core =~= (if b.len() > 0 && b.last() == 'f' {
        b.drop_last()
    } else {
        b
    }));
    let mut k: usize = start;
    while k < end && v[k] != '.'
        invariant
            start <= k <= end <= v@.len(),
            forall|j: int| start <= j < k ==> v@[j] != '.',
        decreases end - k,
    {
        k = k + 1;
    }
    proof {
        assert forall|j: int| 0 <= j < k - start implies core[j] != '.' by {
            assert(core[j] == v@[start + j]);
        }
        if k < end {
            assert(core[k - start] == v@[k as int]);
        }
        lemma_find_dot(core, k - start);
    }
    if k < end {
        assert(core.take(k - start) =~= v@.subrange(start as int, k as int));
        assert(core.skip(k - start + 1) =~= v@.subrange(k + 1, end as int));
        if start < k && only_digits(v, start, k) && k + 1 < end && only_digits(v, k + 1, end) {
            let a = skip_leading_zeros(v, start, k);
            let b = skip_trailing_zeros(v, k + 1, end);
            Ok(FloatLit { negative, whole: string_of(v, a, k), frac: string_of(v, k + 1, b) })
        } else {
            Err(DError::ConstValueTooLarge)
        }
    } else if suffixed && start < end && only_digits(v, start, end) {
        let mut frac = String::new();
        push_char(&mut frac, '0');
        assert(frac@ =~= seq!['0']);
        let a = skip_leading_zeros(v, start, end);
        Ok(FloatLit { negative, whole: string_of(v, a, end), frac })
    } else {
        Err(DError::ConstValueTooLarge)
    }
}

/// Whether `v[lo..hi]` spells the keyword `kw`, ignoring case.
fn spells_keyword(v: &Vec<char>, lo: usize, hi: usize, kw: &Vec<char>) -> (r: bool)
    requires
        lo <= hi <= v@.len(),
        forall|i: int| 0 <= i < kw@.len() ==> 'A' <= #[trigger] kw@[i] && kw@[i] <= 'Z',
    ensures
        r == spells(v@.subrange(lo as int, hi as int), kw@),
{
    let ghost s = v@.subrange(lo as int, hi as int);
    if hi - lo != kw.len() {
        return false;
    }
    let mut i: usize = 0;
    while i < kw.len()
        invariant
            lo <= hi <= v@.len(),
            hi - lo == kw@.len(),
            s == v@.subrange(lo as int, hi as int),
            i <= kw@.len(),
            forall|j: int| 'A' <= #[trigger] kw@[j] && kw@[j] <= 'Z' || !(0 <= j < kw@.len()),
            forall|j: int| 0 <= j < i ==> same_letter(#[trigger] s[j], kw@[j]),
        decreases kw@.len() - i,
    {
        let c = v[lo + i];
        let k = kw[i];
        assert(s[i as int] == c);
        assert('A' <= kw@[i as int] && kw@[i as int] <= 'Z');
        if !(c == k || c as u32 == k as u32 + 32) {
            return false;
        }
        i = i + 1;
    }
    true
}

/// Decodes the boolean keyword `v[lo..hi]`, if it is one.
pub fn lex_bool(v: &Vec<char>, lo: usize, hi: usize) -> (r: Option<bool>)
    requires
        lo <= hi <= v@.len(),
    ensures
        r == bool_literal(v@.subrange(lo as int, hi as int)),
{
    let igaz = vec!['I', 'G', 'A', 'Z'];
    let tru = vec!['T', 'R', 'U', 'E'];
    let hamis = vec!['H', 'A', 'M', 'I', 'S'];
    let fals = vec!['F', 'A', 'L', 'S', 'E'];
    assert(igaz@ =~= kw_igaz());
    assert(tru@ =~= kw_true());
    assert(hamis@ =~= kw_hamis());
    assert(fals@ =~= kw_false());
    if spells_keyword(v, lo, hi, &igaz) || spells_keyword(v, lo, hi, &tru) {
        Some(true)
    } else if spells_keyword(v, lo, hi, &hamis) || spells_keyword(v, lo, hi, &fals) {
        Some(false)
    } else {
        None
    }
}

/// Whether `v[lo..hi]` is enclosed in `q`.
fn is_delimited(v: &Vec<char>, lo: usize, hi: usize, q: char) -> (r: bool)
    requires
        lo <= hi <= v@.len(),
    ensures
        r == delimited(v@.subrange(lo as int, hi as int), q),
{
    hi - lo >= 2 && v[lo] == q && v[hi - 1] == q
}

/// Decodes the character literal `v[lo..hi]`, quotes included.
pub fn lex_char(v: &Vec<char>, lo: usize, hi: usize) -> (r: Result<char, DError>)
    requires
        lo <= hi <= v@.len(),
    ensures
        r == char_literal(v@.subrange(lo as int, hi as int)),
{
    if is_delimited(v, lo, hi, '\'') {
        assert(inner(v@.subrange(lo as int, hi as int)) =~= v@.subrange(lo + 1, hi - 1));
        decode_char(v, lo + 1, hi - 1)
    } else {
        Err(DError::UnknownExpression)
    }
}

/// Decodes the string literal `v[lo..hi]`, quotes included.
pub fn lex_string(v: &Vec<char>, lo: usize, hi: usize) -> (r: Result<String, DError>)
    requires
        lo <= hi <= v@.len(),
    ensures
        string_result(r) == string_literal(v@.subrange(lo as int, hi as int)),
{
    if is_delimited(v, lo, hi, '"') {
        assert(inner(v@.subrange(lo as int, hi as int)) =~= v@.subrange(lo + 1, hi - 1));
        decode_string(v, lo + 1, hi - 1)
    } else {
        Err(DError::UnknownExpression)
    }
}

} // verus!
