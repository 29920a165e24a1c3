//! Properties that hold of the conversions over all inputs.
use vstd::prelude::*;

use crate::convert::{
    all_digits, digit_value, digits_value, int32_literal, int32_words, int_literal, is_digit,
    sign_len, spec_convert_int, spec_convert_int_vec,
};
use crate::text::{is_ws, trim, trim_end, trim_start, words};

verus! {

/// The decimal digit for `d`, which is below ten.
pub open spec fn digit_char(d: nat) -> char {
    seq!['0', '1', '2', '3', '4', '5', '6', '7', '8', '9'][d as int]
}

/// The decimal digits of `m`, without leading zeros.
pub open spec fn decimal(m: nat) -> Seq<char>
    decreases m,
{
    if m < 10 {
        seq![digit_char(m)]
    } else {
        decimal(m / 10).push(digit_char(m % 10))
    }
}

/// The usual decimal text of `n`: a `-` for a negative number, then its digits.
pub open spec fn int_text(n: int) -> Seq<char> {
    if n < 0 {
        seq!['-'] + decimal((-n) as nat)
    } else {
        decimal(n as nat)
    }
}

proof fn lemma_decimal(m: nat)
    ensures
        decimal(m).len() > 0,
        all_digits(decimal(m)),
        digits_value(decimal(m)) == m,
    decreases m,
{
    let ds = seq!['0', '1', '2', '3', '4', '5', '6', '7', '8', '9'];
    assert(forall|d: int| 0 <= d < 10 ==> is_digit(#[trigger] ds[d]) && digit_value(ds[d]) == d) by {
        assert(ds[0] == '0' && ds[1] == '1' && ds[2] == '2' && ds[3] == '3' && ds[4] == '4');
        assert(ds[5] == '5' && ds[6] == '6' && ds[7] == '7' && ds[8] == '8' && ds[9] == '9');
    }
    if m < 10 {
        assert(decimal(m).drop_last() =~= Seq::<char>::empty());
        assert(decimal(m)[0] == ds[m as int]);
        assert(digit_value(decimal(m).last()) == m);
        assert(digits_value(decimal(m).drop_last()) == 0);
    } else {
        lemma_decimal(m / 10);
        let s = decimal(m);
        assert(s.drop_last() =~= decimal(m / 10));
        assert(s.last() == ds[(m % 10) as int]);
        assert forall|i: int| 0 <= i < s.len() implies is_digit(#[trigger] s[i]) by {
            if i < s.len() - 1 {
                assert(s[i] == decimal(m / 10)[i]);
            }
        }
        assert(digit_value(s.last()) == m % 10);
        assert(digits_value(s) == digits_value(decimal(m / 10)) * 10 + digit_value(s.last()));
        assert((m / 10) as int * 10 + (m % 10) as int == m as int) by (nonlinear_arith);
    }
}

/// Text with no whitespace at either end is its own trimmed form.
pub proof fn lemma_trim_unchanged(s: Seq<char>)
    requires
        s.len() == 0 || (!is_ws(s[0]) && !is_ws(s.last())),
    ensures
        trim(s) == s,
{
}

proof fn lemma_trim_start_first(s: Seq<char>)
    ensures
        trim_start(s).len() == 0 || !is_ws(trim_start(s)[0]),
        trim_start(s).len() <= s.len(),
        trim_start(s) == s.skip(s.len() - trim_start(s).len()),
    decreases s.len(),
{
    if s.len() > 0 && is_ws(s[0]) {
        lemma_trim_start_first(s.drop_first());
        assert(s.skip(s.len() - trim_start(s).len()) =~= s.drop_first().skip(
            s.drop_first().len() - trim_start(s).len(),
        ));
    } else {
        assert(s.skip(0) =~= s);
    }
}

proof fn lemma_trim_end_last(s: Seq<char>)
    ensures
        trim_end(s).len() == 0 || !is_ws(trim_end(s).last()),
        trim_end(s).len() <= s.len(),
        trim_end(s) == s.take(trim_end(s).len() as int),
    decreases s.len(),
{
    if s.len() > 0 && is_ws(s.last()) {
        lemma_trim_end_last(s.drop_last());
        assert(s.take(trim_end(s).len() as int) =~= s.drop_last().take(trim_end(s).len() as int));
    } else {
        assert(s.take(s.len() as int) =~= s);
    }
}

/// Converting text is idempotent: the text that a line converts to converts to
/// itself.
pub proof fn lemma_text_idempotent(s: Seq<char>)
    ensures
        trim(trim(s)) == trim(s),
{
    let t = trim_start(s);
    lemma_trim_start_first(s);
    lemma_trim_end_last(t);
    let u = trim_end(t);
    if u.len() > 0 {
        assert(u[0] == t[0]);
    }
    lemma_trim_unchanged(u);
}

/// Every 32-bit integer converts back from its decimal text, and a
/// non-negative one also from that text with a leading `+`.
pub proof fn lemma_int_text_round_trip(n: i32)
    ensures
        spec_convert_int(int_text(n as int)) == Some(n),
        n >= 0 ==> spec_convert_int(seq!['+'] + int_text(n as int)) == Some(n),
{
    let m: nat = if n < 0 {
        (-n) as nat
    } else {
        n as nat
    };
    lemma_decimal(m);
    let d = decimal(m);
    assert(is_digit(d[0]) && is_digit(d.last()));
    if n < 0 {
        let s = seq!['-'] + d;
        assert(s.last() == d.last());
        lemma_trim_unchanged(s);
        assert(sign_len(s) == 1);
        assert(s.skip(1) =~= d);
        assert(int_literal(s) == Some(n as int));
    } else {
        lemma_trim_unchanged(d);
        assert(sign_len(d) == 0);
        assert(d.skip(0) =~= d);
        assert(int_literal(d) == Some(n as int));
        let p = seq!['+'] + d;
        assert(p.last() == d.last());
        lemma_trim_unchanged(p);
        assert(sign_len(p) == 1);
        assert(p.skip(1) =~= d);
        assert(int_literal(p) == Some(n as int));
    }
}

/// The integers of a run of words are there exactly where each word is an
/// integer literal in range, and they are those integers, in order.
pub proof fn lemma_int32_words(ws: Seq<Seq<char>>)
    ensures
        int32_words(ws) is Some <==> forall|i: int|
            0 <= i < ws.len() ==> #[trigger] int32_literal(ws[i]) is Some,
        int32_words(ws) is Some ==> int32_words(ws)->Some_0.len() == ws.len() && forall|i: int|
            0 <= i < ws.len() ==> Some(int32_words(ws)->Some_0[i]) == #[trigger] int32_literal(
                ws[i],
            ),
    decreases ws.len(),
{
    if ws.len() > 0 {
        let init = ws.drop_last();
        lemma_int32_words(init);
        assert(forall|i: int| 0 <= i < init.len() ==> init[i] == ws[i]);
        if int32_words(ws) is None && int32_words(init) is Some {
            assert(int32_literal(ws[ws.len() - 1]) is None);
        }
        if int32_words(init) is None {
            let i = choose|i: int| 0 <= i < init.len() && #[trigger] int32_literal(init[i]) is None;
            assert(int32_literal(ws[i]) is None);
        }
    }
}

/// Converting a vector of integers is all or nothing: where one word is not an
/// integer in range, the line gives no vector at all.
pub proof fn lemma_int_vec_atomic(s: Seq<char>, i: int)
    requires
        0 <= i < words(s).len(),
        int32_literal(words(s)[i]) is None,
    ensures
        spec_convert_int_vec(s) is None,
{
    lemma_int32_words(words(s));
}

/// Where a line converts to a vector of integers, it holds one integer for each
/// of its words, in order.
pub proof fn lemma_int_vec_elements(s: Seq<char>)
    requires
        spec_convert_int_vec(s) is Some,
    ensures
        spec_convert_int_vec(s)->Some_0.len() == words(s).len(),
        forall|i: int|
            0 <= i < words(s).len() ==> Some(#[trigger] spec_convert_int_vec(s)->Some_0[i])
                == int32_literal(words(s)[i]),
{
    lemma_int32_words(words(s));
}

} // verus!
