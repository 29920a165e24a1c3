//! Characters, whitespace and trimming.
use vstd::prelude::*;

verus! {

/// Whitespace as Unicode's `White_Space` property defines it, which is what
/// `char::is_whitespace` tests.
pub open spec fn is_ws(c: char) -> bool {
    ('\t' <= c && c <= '\r') || c == ' ' || c == '\u{85}' || c == '\u{a0}' || c == '\u{1680}'
        || ('\u{2000}' <= c && c <= '\u{200a}') || c == '\u{2028}' || c == '\u{2029}'
        || c == '\u{202f}' || c == '\u{205f}' || c == '\u{3000}'
}

/// The text without its leading whitespace.
pub open spec fn trim_start(s: Seq<char>) -> Seq<char>
    decreases s.len(),
{
    if s.len() > 0 && is_ws(s[0]) {
        trim_start(s.drop_first())
    } else {
        s
    }
}

/// The text without its trailing whitespace.
pub open spec fn trim_end(s: Seq<char>) -> Seq<char>
    decreases s.len(),
{
    if s.len() > 0 && is_ws(s.last()) {
        trim_end(s.drop_last())
    } else {
        s
    }
}

/// The text without whitespace at either end.
pub open spec fn trim(s: Seq<char>) -> Seq<char> {
    trim_end(trim_start(s))
}

/// Tests a character for whitespace.
pub fn is_whitespace(c: char) -> (r: bool)
    ensures
        r == is_ws(c),
{
    ('\t' <= c && c <= '\r') || c == ' ' || c == '\u{85}' || c == '\u{a0}' || c == '\u{1680}'
        || ('\u{2000}' <= c && c <= '\u{200a}') || c == '\u{2028}' || c == '\u{2029}'
        || c == '\u{202f}' || c == '\u{205f}' || c == '\u{3000}'
}

/// The characters of a string, in order.
pub fn chars_of(s: &str) -> (r: Vec<char>)
    ensures
        r@ == s@,
{
    let n = s.unicode_len();
    let mut r: Vec<char> = Vec::new();
    let mut i: usize = 0;
    while i < n
        invariant
            n == s@.len(),
            i <= n,
            r@ == s@.take(i as int),
        decreases n - i,
    {
        r.push(s.get_char(i));
        i = i + 1;
        assert(r@ =~= s@.take(i as int));
    }
    assert(r@ =~= s@);
    r
}

/// Relies on `String::push`: appends one character to the end of the string.
#[verifier::external_body]
pub(crate) fn push_char(s: &mut String, c: char)
    ensures
        final(s)@ == old(s)@.push(c),
{
    s.push(c)
}

/// The characters `cs[start..end]` as a string.
pub fn string_of(cs: &Vec<char>, start: usize, end: usize) -> (r: String)
    requires
        start <= end <= cs@.len(),
    ensures
        r@ == cs@.subrange(start as int, end as int),
{
    let mut r = String::new();
    let mut i: usize = start;
    while i < end
        invariant
            start <= i <= end <= cs@.len(),
            r@ == cs@.subrange(start as int, i as int),
        decreases end - i,
    {
        push_char(&mut r, cs[i]);
        i = i + 1;
        assert(r@ =~= cs@.subrange(start as int, i as int));
    }
    r
}

/// The bounds of the trimmed text: `cs[start..end]` is `cs` without whitespace at
/// either end.
pub fn trim_bounds(cs: &Vec<char>) -> (r: (usize, usize))
    ensures
        r.0 <= r.1 <= cs@.len(),
        cs@.subrange(r.0 as int, r.1 as int) == trim(cs@),
{
    let n = cs.len();
    let mut start: usize = 0;
    assert(cs@.skip(0) =~= cs@);
    while start < n && is_whitespace(cs[start])
        invariant
            start <= n == cs@.len(),
            trim_start(cs@) == trim_start(cs@.skip(start as int)),
        decreases n - start,
    {
        assert(cs@.skip(start as int).drop_first() =~= cs@.skip(start + 1));
        start = start + 1;
    }
    let ghost t = cs@.skip(start as int);
    assert(trim_start(cs@) == t);
    let mut end: usize = n;
    while end > start && is_whitespace(cs[end - 1])
        invariant
            start <= end <= n == cs@.len(),
            t == cs@.skip(start as int),
            trim_end(t) == trim_end(cs@.subrange(start as int, end as int)),
        decreases end,
    {
        assert(cs@.subrange(start as int, end as int).drop_last() =~= cs@.subrange(
            start as int,
            end - 1,
        ));
        end = end - 1;
    }
    assert(cs@.skip(start as int) =~= cs@.subrange(start as int, n as int));
    (start, end)
}

/// `done`, with `cur` added at its end unless `cur` is empty.
pub open spec fn flush(done: Seq<Seq<char>>, cur: Seq<char>) -> Seq<Seq<char>> {
    if cur.len() == 0 {
        done
    } else {
        done.push(cur)
    }
}

/// Splits `s` on runs of whitespace, after the words `done` and the unfinished
/// word `cur`.
pub open spec fn words_after(s: Seq<char>, done: Seq<Seq<char>>, cur: Seq<char>) -> Seq<Seq<char>>
    decreases s.len(),
{
    if s.len() == 0 {
        flush(done, cur)
    } else if is_ws(s[0]) {
        words_after(s.drop_first(), flush(done, cur), seq![])
    } else {
        words_after(s.drop_first(), done, cur.push(s[0]))
    }
}

/// The words of `s`: its maximal runs of non-whitespace characters, in order.
pub open spec fn words(s: Seq<char>) -> Seq<Seq<char>> {
    words_after(s, seq![], seq![])
}

/// Splits `s` into lines, after the lines `done` and the unfinished line `cur`.
pub open spec fn lines_after(s: Seq<char>, done: Seq<Seq<char>>, cur: Seq<char>) -> Seq<Seq<char>>
    decreases s.len(),
{
    if s.len() == 0 {
        flush(done, cur)
    } else if s[0] == '\n' {
        lines_after(s.drop_first(), done.push(cur.push('\n')), seq![])
    } else {
        lines_after(s.drop_first(), done, cur.push(s[0]))
    }
}

/// The lines of `s`, each with its terminating `'\n'`, the last one without it
/// where `s` does not end in one.
pub open spec fn lines(s: Seq<char>) -> Seq<Seq<char>> {
    lines_after(s, seq![], seq![])
}

/// The pieces of `cs` that the bounds `bs` delimit.
pub open spec fn pieces(cs: Seq<char>, bs: Seq<(usize, usize)>) -> Seq<Seq<char>> {
    bs.map(|_k, b: (usize, usize)| cs.subrange(b.0 as int, b.1 as int))
}

/// Each of the bounds `bs` delimits a piece of a text of `n` characters.
pub open spec fn bounds_within(bs: Seq<(usize, usize)>, n: nat) -> bool {
    forall|k: int| 0 <= k < bs.len() ==> #[trigger] bs[k].0 <= bs[k].1 <= n
}

proof fn lemma_pieces_push(cs: Seq<char>, bs: Seq<(usize, usize)>, b: (usize, usize))
    ensures
        pieces(cs, bs.push(b)) == pieces(cs, bs).push(cs.subrange(b.0 as int, b.1 as int)),
{
    assert(pieces(cs, bs.push(b)) =~= pieces(cs, bs).push(cs.subrange(b.0 as int, b.1 as int)));
}

/// The bounds of the words of `cs`, in order.
pub fn word_bounds(cs: &Vec<char>) -> (r: Vec<(usize, usize)>)
    ensures
        bounds_within(r@, cs@.len()),
        pieces(cs@, r@) == words(cs@),
{
    let n = cs.len();
    let mut r: Vec<(usize, usize)> = Vec::new();
    let mut start: usize = 0;
    let mut i: usize = 0;
    assert(cs@.skip(0) =~= cs@);
    assert(cs@.subrange(0, 0) =~= Seq::<char>::empty());
    assert(pieces(cs@, r@) =~= Seq::<Seq<char>>::empty());
    while i < n
        invariant
            n == cs@.len(),
            start <= i <= n,
            bounds_within(r@, n as nat),
            words(cs@) == words_after(
                cs@.skip(i as int),
                pieces(cs@, r@),
                cs@.subrange(start as int, i as int),
            ),
        decreases n - i,
    {
        let ghost cur = cs@.subrange(start as int, i as int);
        assert(cs@.skip(i as int).drop_first() =~= cs@.skip(i + 1));
        if is_whitespace(cs[i]) {
            if start < i {
                proof {
                    lemma_pieces_push(cs@, r@, (start, i));
                }
                r.push((start, i));
            }
            start = i + 1;
            assert(cs@.subrange(start as int, start as int) =~= Seq::<char>::empty());
        } else {
            assert(cur.push(cs@[i as int]) =~= cs@.subrange(start as int, i + 1));
        }
        i = i + 1;
    }
    if start < n {
        proof {
            lemma_pieces_push(cs@, r@, (start, n));
        }
        r.push((start, n));
    }
    r
}

/// The bounds of the lines of `cs`, in order.
pub fn line_bounds(cs: &Vec<char>) -> (r: Vec<(usize, usize)>)
    ensures
        bounds_within(r@, cs@.len()),
        pieces(cs@, r@) == lines(cs@),
{
    let n = cs.len();
    let mut r: Vec<(usize, usize)> = Vec::new();
    let mut start: usize = 0;
    let mut i: usize = 0;
    assert(cs@.skip(0) =~= cs@);
    assert(cs@.subrange(0, 0) =~= Seq::<char>::empty());
    assert(pieces(cs@, r@) =~= Seq::<Seq<char>>::empty());
    while i < n
        invariant
            n == cs@.len(),
            start <= i <= n,
            bounds_within(r@, n as nat),
            lines(cs@) == lines_after(
                cs@.skip(i as int),
                pieces(cs@, r@),
                cs@.subrange(start as int, i as int),
            ),
        decreases n - i,
    {
        let ghost cur = cs@.subrange(start as int, i as int);
        assert(cs@.skip(i as int).drop_first() =~= cs@.skip(i + 1));
        assert(cur.push(cs@[i as int]) =~= cs@.subrange(start as int, i + 1));
        if cs[i] == '\n' {
            proof {
                lemma_pieces_push(cs@, r@, (start, (i + 1) as usize));
            }
            r.push((start, i + 1));
            start = i + 1;
            assert(cs@.subrange(start as int, start as int) =~= Seq::<char>::empty());
        }
        i = i + 1;
    }
    if start < n {
        proof {
            lemma_pieces_push(cs@, r@, (start, n));
        }
        r.push((start, n));
    }
    r
}

/// The words of `s`: its maximal runs of non-whitespace characters, in order.
pub fn split_words(s: &str) -> (r: Vec<String>)
    ensures
        r.deep_view() == words(s@),
{
    let cs = chars_of(s);
    let bs = word_bounds(&cs);
    let mut r: Vec<String> = Vec::new();
    let mut k: usize = 0;
    assert(r.deep_view() =~= pieces(cs@, bs@).take(0));
    while k < bs.len()
        invariant
            k <= bs@.len(),
            bounds_within(bs@, cs@.len()),
            r.deep_view() == pieces(cs@, bs@).take(k as int),
        decreases bs@.len() - k,
    {
        let w = string_of(&cs, bs[k].0, bs[k].1);
        let ghost prev = r.deep_view();
        r.push(w);
        assert(r.deep_view() =~= prev.push(w@));
        assert(pieces(cs@, bs@).take(k + 1) =~= pieces(cs@, bs@).take(k as int).push(w@));
        k = k + 1;
    }
    assert(pieces(cs@, bs@).take(k as int) =~= pieces(cs@, bs@));
    r
}

} // verus!
