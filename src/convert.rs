//! Conversion of one line of text into a typed value.
use vstd::prelude::*;

use crate::text::{
    chars_of, string_of, trim, trim_bounds, word_bounds, words, pieces, bounds_within,
    split_words,
};

verus! {

/// The kinds of value that a line converts to.
#[derive(Clone, Copy, Debug, PartialEq, Eq, Structural)]
pub enum TargetType {
    Text,
    Integer,
    Float,
    Boolean,
    Character,
    IntegerVec,
    FloatVec,
    TextVec,
}

/// The example that a hint shows for each kind of value.
pub open spec fn example_text(t: TargetType) -> Seq<char> {
    match t {
        TargetType::Text => "Hello"@,
        TargetType::Integer => "42"@,
        TargetType::Float => "3.14"@,
        TargetType::Boolean => "true (or yes/1)"@,
        TargetType::Character => "a"@,
        TargetType::IntegerVec => "1 2 3"@,
        TargetType::FloatVec => "1.0 2.5 3.14"@,
        TargetType::TextVec => "foo bar baz"@,
    }
}

impl TargetType {
    /// A well-formed input for this kind of value, shown in hints.
    pub fn example(&self) -> (r: &'static str)
        ensures
            r@ == example_text(*self),
    {
        match self {
            TargetType::Text => "Hello",
            TargetType::Integer => "42",
            TargetType::Float => "3.14",
            TargetType::Boolean => "true (or yes/1)",
            TargetType::Character => "a",
            TargetType::IntegerVec => "1 2 3",
            TargetType::FloatVec => "1.0 2.5 3.14",
            TargetType::TextVec => "foo bar baz",
        }
    }
}

/// A line that was read but does not convert to the kind of value asked for.
#[derive(Clone, Debug, PartialEq, Eq)]
pub struct ParseError {
    /// The kind of value that was asked for.
    pub target: TargetType,
    /// The line, trimmed.
    pub literal: String,
}

impl ParseError {
    /// The example of the kind of value that was asked for.
    pub fn example(&self) -> (r: &'static str)
        ensures
            r@ == example_text(self.target),
    {
        self.target.example()
    }
}

/// Why a read gave no value.
#[derive(Clone, Debug, PartialEq, Eq)]
pub enum ReadError {
    /// The line source had no line to give.
    Io,
    /// The line did not convert.
    Parse(ParseError),
}

/// `r` is what converting `s` gives, where `want` is the value that `s` stands for
/// (`None` where it stands for none) and `target` the kind asked for.
pub open spec fn conversion_result<T: DeepView>(
    r: Result<T, ParseError>,
    s: Seq<char>,
    want: Option<T::V>,
    target: TargetType,
) -> bool {
    match r {
        Ok(v) => want == Some(v.deep_view()),
        Err(e) => want is None && e.target == target && e.literal@ == trim(s),
    }
}

// ---------------------------------------------------------------- integers

pub open spec fn is_digit(c: char) -> bool {
    '0' <= c && c <= '9'
}

pub open spec fn digit_value(c: char) -> int {
    c as int - '0' as int
}

pub open spec fn all_digits(s: Seq<char>) -> bool {
    forall|i: int| 0 <= i < s.len() ==> is_digit(#[trigger] s[i])
}

/// The number that the decimal digits `s` write.
pub open spec fn digits_value(s: Seq<char>) -> int
    decreases s.len(),
{
    if s.len() == 0 {
        0
    } else {
        digits_value(s.drop_last()) * 10 + digit_value(s.last())
    }
}

/// The length of the sign that `s` starts with: 1 for `+` or `-`, else 0.
pub open spec fn sign_len(s: Seq<char>) -> int {
    if s.len() > 0 && (s[0] == '+' || s[0] == '-') {
        1
    } else {
        0
    }
}

/// The integer that the literal `s` writes: an optional `+` or `-` followed by
/// one or more decimal digits. `None` where `s` is not such a literal.
pub open spec fn int_literal(s: Seq<char>) -> Option<int> {
    let body = s.skip(sign_len(s));
    if body.len() > 0 && all_digits(body) {
        if s[0] == '-' {
            Some(-digits_value(body))
        } else {
            Some(digits_value(body))
        }
    } else {
        None
    }
}

/// The 32-bit integer that the literal `s` writes, if any and if it is in range.
pub open spec fn int32_literal(s: Seq<char>) -> Option<i32> {
    match int_literal(s) {
        Some(v) => if i32::MIN <= v <= i32::MAX {
            Some(v as i32)
        } else {
            None
        },
        None => None,
    }
}

/// The integer that the line `s` holds, trimmed.
pub open spec fn spec_convert_int(s: Seq<char>) -> Option<i32> {
    int32_literal(trim(s))
}

proof fn lemma_digits_value_nonneg(s: Seq<char>)
    requires
        all_digits(s),
    ensures
        digits_value(s) >= 0,
    decreases s.len(),
{
    if s.len() > 0 {
        assert(all_digits(s.drop_last()));
        lemma_digits_value_nonneg(s.drop_last());
        assert(is_digit(s[s.len() - 1]));
    }
}

/// A longer prefix of a run of digits writes a number at least as large.
proof fn lemma_digits_value_prefix(s: Seq<char>, i: int, j: int)
    requires
        all_digits(s),
        0 <= i <= j <= s.len(),
    ensures
        digits_value(s.take(i)) <= digits_value(s.take(j)),
    decreases j - i,
{
    if i < j {
        lemma_digits_value_prefix(s, i, j - 1);
        assert(s.take(j).drop_last() =~= s.take(j - 1));
        assert(all_digits(s.take(j - 1)));
        lemma_digits_value_nonneg(s.take(j - 1));
        assert(is_digit(s[j - 1]));
    }
}

/// The 32-bit integer that `cs[start..end]` writes as a literal, if any.
pub fn parse_int_literal(cs: &Vec<char>, start: usize, end: usize) -> (r: Option<i32>)
    requires
        start <= end <= cs@.len(),
    ensures
        r == int32_literal(cs@.subrange(start as int, end as int)),
{
    let ghost s = cs@.subrange(start as int, end as int);
    let negative = start < end && cs[start] == '-';
    let first: usize = if start < end && (cs[start] == '+' || cs[start] == '-') {
        start + 1
    } else {
        start
    };
    let ghost body = s.skip(sign_len(s));
    assert(body =~= cs@.subrange(first as int, end as int));
    if first == end {
        return None;
    }
    let mut acc: i64 = 0;
    let mut i: usize = first;
    assert(body.take(0) =~= Seq::<char>::empty());
    while i < end
        invariant
            first <= i <= end <= cs@.len(),
            body == cs@.subrange(first as int, end as int),
            s == cs@.subrange(start as int, end as int),
            body == s.skip(sign_len(s)),
            negative == (s.len() > 0 && s[0] == '-'),
            all_digits(body.take(i - first)),
            acc == digits_value(body.take(i - first)),
            0 <= acc <= 2147483648,
        decreases end - i,
    {
        let c = cs[i];
        if !('0' <= c && c <= '9') {
            assert(body[i - first] == c);
            assert(!all_digits(body));
            return None;
        }
        let ghost k = i - first;
        assert(body.take(k + 1).drop_last() =~= body.take(k));
        acc = acc * 10 + (c as i64 - '0' as i64);
        i = i + 1;
        assert(all_digits(body.take(i - first)));
        if acc > 2147483648 {
            assert(body.take(body.len() as int) =~= body);
            proof {
                if all_digits(body) {
                    lemma_digits_value_prefix(body, i - first, body.len() as int);
                }
            }
            return None;
        }
    }
    assert(body.take(i - first) =~= body);
    if negative {
        Some((-acc) as i32)
    } else if acc <= 2147483647 {
        Some(acc as i32)
    } else {
        None
    }
}

/// Converts a line to a 32-bit integer: the trimmed line must be a decimal
/// literal with an optional sign, in range.
pub fn convert_int(s: &str) -> (r: Result<i32, ParseError>)
    ensures
        conversion_result(r, s@, spec_convert_int(s@), TargetType::Integer),
{
    let cs = chars_of(s);
    let (start, end) = trim_bounds(&cs);
    match parse_int_literal(&cs, start, end) {
        Some(v) => Ok(v),
        None => Err(ParseError { target: TargetType::Integer, literal: string_of(&cs, start, end) }),
    }
}

// ---------------------------------------------------------------- the other scalars

/// `c` is `w`, or its upper-case ASCII form where `w` is a lower-case ASCII letter.
pub open spec fn folds_to(c: char, w: char) -> bool {
    c == w || ('a' <= w && w <= 'z' && c as u32 + 32 == w as u32)
}

/// `t` is the lower-case word `w` with any of its ASCII letters in either case.
pub open spec fn matches_folded(t: Seq<char>, w: Seq<char>) -> bool {
    t.len() == w.len() && forall|i: int| 0 <= i < t.len() ==> folds_to(#[trigger] t[i], w[i])
}

/// The truth value that the word `t` names: `true`, `yes`, `1` or `y` for true,
/// `false`, `no`, `0` or `n` for false, letters in either case. Only ASCII
/// letters are folded: no other character has one of these letters as its lower
/// case.
pub open spec fn bool_literal(t: Seq<char>) -> Option<bool> {
    if matches_folded(t, seq!['t', 'r', 'u', 'e']) || matches_folded(t, seq!['y', 'e', 's'])
        || matches_folded(t, seq!['1']) || matches_folded(t, seq!['y']) {
        Some(true)
    } else if matches_folded(t, seq!['f', 'a', 'l', 's', 'e']) || matches_folded(
        t,
        seq!['n', 'o'],
    ) || matches_folded(t, seq!['0']) || matches_folded(t, seq!['n']) {
        Some(false)
    } else {
        None
    }
}

/// The truth value that the line `s` holds, trimmed.
pub open spec fn spec_convert_bool(s: Seq<char>) -> Option<bool> {
    bool_literal(trim(s))
}

/// The first character of the line `s`, trimmed.
pub open spec fn spec_convert_char(s: Seq<char>) -> Option<char> {
    if trim(s).len() > 0 {
        Some(trim(s)[0])
    } else {
        None
    }
}

/// Tests `cs[start..end]` against the lower-case word `w`, ignoring the case of
/// ASCII letters.
fn matches_word(cs: &Vec<char>, start: usize, end: usize, w: &Vec<char>) -> (r: bool)
    requires
        start <= end <= cs@.len(),
    ensures
        r == matches_folded(cs@.subrange(start as int, end as int), w@),
{
    let ghost t = cs@.subrange(start as int, end as int);
    if end - start != w.len() {
        return false;
    }
    let mut i: usize = 0;
    while i < w.len()
        invariant
            start <= end <= cs@.len(),
            t == cs@.subrange(start as int, end as int),
            t.len() == w@.len(),
            i <= w@.len(),
            forall|j: int| 0 <= j < i ==> folds_to(#[trigger] t[j], w@[j]),
        decreases w@.len() - i,
    {
        let c = cs[start + i];
        let l = w[i];
        let same = c == l || ('a' <= l && l <= 'z' && c as u32 == l as u32 - 32);
        if !same {
            assert(t[i as int] == c);
            return false;
        }
        i = i + 1;
    }
    true
}

/// Converts a line to a truth value: the trimmed line must be one of `true`,
/// `yes`, `1`, `y` (true) or `false`, `no`, `0`, `n` (false), letters in either
/// case.
pub fn convert_bool(s: &str) -> (r: Result<bool, ParseError>)
    ensures
        conversion_result(r, s@, spec_convert_bool(s@), TargetType::Boolean),
{
    let cs = chars_of(s);
    let (start, end) = trim_bounds(&cs);
    let yes = matches_word(&cs, start, end, &vec!['t', 'r', 'u', 'e'])
        || matches_word(&cs, start, end, &vec!['y', 'e', 's'])
        || matches_word(&cs, start, end, &vec!['1'])
        || matches_word(&cs, start, end, &vec!['y']);
    if yes {
        return Ok(true);
    }
    let no = matches_word(&cs, start, end, &vec!['f', 'a', 'l', 's', 'e'])
        || matches_word(&cs, start, end, &vec!['n', 'o'])
        || matches_word(&cs, start, end, &vec!['0'])
        || matches_word(&cs, start, end, &vec!['n']);
    if no {
        Ok(false)
    } else {
        Err(ParseError { target: TargetType::Boolean, literal: string_of(&cs, start, end) })
    }
}

/// Converts a line to its first character after trimming; a line that is empty
/// once trimmed has none.
pub fn convert_char(s: &str) -> (r: Result<char, ParseError>)
    ensures
        conversion_result(r, s@, spec_convert_char(s@), TargetType::Character),
{
    let cs = chars_of(s);
    let (start, end) = trim_bounds(&cs);
    if start < end {
        Ok(cs[start])
    } else {
        Err(ParseError { target: TargetType::Character, literal: string_of(&cs, start, end) })
    }
}

/// Converts a line to text: the line without whitespace at either end. It always
/// succeeds.
pub fn convert_text(s: &str) -> (r: Result<String, ParseError>)
    ensures
        conversion_result(r, s@, Some(trim(s@)), TargetType::Text),
        r is Ok,
{
    let cs = chars_of(s);
    let (start, end) = trim_bounds(&cs);
    Ok(string_of(&cs, start, end))
}

// ---------------------------------------------------------------- vectors

/// The integers that the words `ws` write, each one a literal in range; `None`
/// where any of them is not.
pub open spec fn int32_words(ws: Seq<Seq<char>>) -> Option<Seq<i32>>
    decreases ws.len(),
{
    if ws.len() == 0 {
        Some(seq![])
    } else {
        match (int32_words(ws.drop_last()), int32_literal(ws.last())) {
            (Some(v), Some(x)) => Some(v.push(x)),
            _ => None,
        }
    }
}

/// The integers that the line `s` holds, separated by whitespace.
pub open spec fn spec_convert_int_vec(s: Seq<char>) -> Option<Seq<i32>> {
    int32_words(words(s))
}

/// Where the words do not all convert, no longer run of them that starts the
/// same does either.
proof fn lemma_int32_words_prefix(ws: Seq<Seq<char>>, j: int)
    requires
        0 <= j <= ws.len(),
        int32_words(ws.take(j)) is None,
    ensures
        int32_words(ws) is None,
    decreases ws.len() - j,
{
    if j < ws.len() {
        assert(ws.take(j + 1).drop_last() =~= ws.take(j));
        lemma_int32_words_prefix(ws, j + 1);
    } else {
        assert(ws.take(j) =~= ws);
    }
}

/// Converts a line to the integers it holds, separated by whitespace. Where any
/// word is not an integer in range the whole conversion fails.
pub fn convert_int_vec(s: &str) -> (r: Result<Vec<i32>, ParseError>)
    ensures
        conversion_result(r, s@, spec_convert_int_vec(s@), TargetType::IntegerVec),
{
    let cs = chars_of(s);
    let bs = word_bounds(&cs);
    let ghost ws = pieces(cs@, bs@);
    let mut r: Vec<i32> = Vec::new();
    let mut k: usize = 0;
    assert(ws.take(0) =~= Seq::<Seq<char>>::empty());
    while k < bs.len()
        invariant
            k <= bs@.len(),
            bounds_within(bs@, cs@.len()),
            ws == pieces(cs@, bs@),
            ws == words(s@),
            cs@ == s@,
            int32_words(ws.take(k as int)) == Some(r@),
        decreases bs@.len() - k,
    {
        let (a, b) = bs[k];
        assert(ws.take(k + 1).drop_last() =~= ws.take(k as int));
        assert(ws.take(k + 1).last() == cs@.subrange(a as int, b as int));
        match parse_int_literal(&cs, a, b) {
            Some(x) => {
                r.push(x);
            },
            None => {
                proof {
                    lemma_int32_words_prefix(ws, k + 1);
                }
                let (start, end) = trim_bounds(&cs);
                return Err(
                    ParseError { target: TargetType::IntegerVec, literal: string_of(&cs, start, end) },
                );
            },
        }
        k = k + 1;
    }
    assert(ws.take(k as int) =~= ws);
    assert(r.deep_view() =~= r@);
    Ok(r)
}

/// Converts a line to its words, separated by whitespace. It always succeeds.
pub fn convert_text_vec(s: &str) -> (r: Result<Vec<String>, ParseError>)
    ensures
        conversion_result(r, s@, Some(words(s@)), TargetType::TextVec),
        r is Ok,
{
    Ok(split_words(s))
}

// ---------------------------------------------------------------- all kinds at once

/// A kind of value that a line converts to.
pub trait Convert: Sized + DeepView {
    /// The value that the line `s` stands for, if any.
    spec fn spec_convert(s: Seq<char>) -> Option<<Self as DeepView>::V>;

    /// The kind of value.
    spec fn spec_target() -> TargetType;

    fn target() -> (t: TargetType)
        ensures
            t == Self::spec_target(),
    ;

    fn convert(s: &str) -> (r: Result<Self, ParseError>)
        ensures
            conversion_result(r, s@, Self::spec_convert(s@), Self::spec_target()),
    ;
}

impl Convert for String {
    open spec fn spec_convert(s: Seq<char>) -> Option<Seq<char>> {
        Some(trim(s))
    }

    open spec fn spec_target() -> TargetType {
        TargetType::Text
    }

    fn target() -> (t: TargetType) {
        TargetType::Text
    }

    fn convert(s: &str) -> (r: Result<String, ParseError>) {
        convert_text(s)
    }
}

impl Convert for i32 {
    open spec fn spec_convert(s: Seq<char>) -> Option<i32> {
        spec_convert_int(s)
    }

    open spec fn spec_target() -> TargetType {
        TargetType::Integer
    }

    fn target() -> (t: TargetType) {
        TargetType::Integer
    }

    fn convert(s: &str) -> (r: Result<i32, ParseError>) {
        convert_int(s)
    }
}

impl Convert for bool {
    open spec fn spec_convert(s: Seq<char>) -> Option<bool> {
        spec_convert_bool(s)
    }

    open spec fn spec_target() -> TargetType {
        TargetType::Boolean
    }

    fn target() -> (t: TargetType) {
        TargetType::Boolean
    }

    fn convert(s: &str) -> (r: Result<bool, ParseError>) {
        convert_bool(s)
    }
}

impl Convert for char {
    open spec fn spec_convert(s: Seq<char>) -> Option<char> {
        spec_convert_char(s)
    }

    open spec fn spec_target() -> TargetType {
        TargetType::Character
    }

    fn target() -> (t: TargetType) {
        TargetType::Character
    }

    fn convert(s: &str) -> (r: Result<char, ParseError>) {
        convert_char(s)
    }
}

impl Convert for Vec<i32> {
    open spec fn spec_convert(s: Seq<char>) -> Option<Seq<i32>> {
        spec_convert_int_vec(s)
    }

    open spec fn spec_target() -> TargetType {
        TargetType::IntegerVec
    }

    fn target() -> (t: TargetType) {
        TargetType::IntegerVec
    }

    fn convert(s: &str) -> (r: Result<Vec<i32>, ParseError>) {
        convert_int_vec(s)
    }
}

impl Convert for Vec<String> {
    open spec fn spec_convert(s: Seq<char>) -> Option<Seq<Seq<char>>> {
        Some(words(s))
    }

    open spec fn spec_target() -> TargetType {
        TargetType::TextVec
    }

    fn target() -> (t: TargetType) {
        TargetType::TextVec
    }

    fn convert(s: &str) -> (r: Result<Vec<String>, ParseError>) {
        convert_text_vec(s)
    }
}

} // verus!
