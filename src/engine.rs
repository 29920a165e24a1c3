//! Reading typed values from a line source: strictly, where a line that does not
//! convert is an error, or with retries, where it is answered with a hint and the
//! next line is read.
use vstd::prelude::*;

use crate::convert::{example_text, Convert, ParseError, ReadError, TargetType};
use crate::source::LineSource;
use crate::text::trim;

verus! {

/// The hint shown after a line that does not convert to a value of kind `t`.
pub open spec fn hint_text(t: TargetType) -> Seq<char> {
    "Invalid input data type. Example: "@ + example_text(t)
}

/// How a label is shown when it asks for input again.
pub open spec fn label_text(l: Seq<char>) -> Seq<char> {
    l + ": "@
}

pub open spec fn label_view(label: Option<&str>) -> Option<Seq<char>> {
    match label {
        Some(l) => Some(l@),
        None => None,
    }
}

/// What is written after one line that does not convert: the hint, then the
/// label again where there is one.
pub open spec fn notice(t: TargetType, label: Option<Seq<char>>) -> Seq<Seq<char>> {
    match label {
        Some(l) => seq![hint_text(t), label_text(l)],
        None => seq![hint_text(t)],
    }
}

/// What is written after `n` lines that do not convert.
pub open spec fn notices(t: TargetType, label: Option<Seq<char>>, n: nat) -> Seq<Seq<char>>
    decreases n,
{
    if n == 0 {
        seq![]
    } else {
        notices(t, label, (n - 1) as nat) + notice(t, label)
    }
}

/// How many of the lines `ls`, from the first, do not convert to a `T`.
pub open spec fn leading_failures<T: Convert>(ls: Seq<Seq<char>>) -> nat
    decreases ls.len(),
{
    if ls.len() == 0 {
        0
    } else if T::spec_convert(ls[0]) is Some {
        0
    } else {
        1 + leading_failures::<T>(ls.drop_first())
    }
}

/// `r` is what reading one line `line` and converting it to a `T` gives.
pub open spec fn line_result<T: Convert>(r: Result<T, ReadError>, line: Seq<char>) -> bool {
    match r {
        Ok(v) => T::spec_convert(line) == Some(v.deep_view()),
        Err(ReadError::Parse(e)) => T::spec_convert(line) is None && e.target == T::spec_target()
            && e.literal@ == trim(line),
        Err(ReadError::Io) => false,
    }
}

/// `r` and `src_after` are what a strict read of a `T` from `src_before` gives:
/// one line is read, and its conversion is the result. Where no line is left the
/// result is `ReadError::Io` and nothing is read.
pub open spec fn strict_read<T: Convert>(
    r: Result<T, ReadError>,
    src_before: LineSource,
    src_after: LineSource,
) -> bool {
    &&& src_after.wf()
    &&& if src_before@.len() == 0 {
        &&& r == Err::<T, ReadError>(ReadError::Io)
        &&& src_after@ == src_before@
        &&& src_after.count_read() == src_before.count_read()
    } else {
        &&& line_result(r, src_before@[0])
        &&& src_after@ == src_before@.drop_first()
        &&& src_after.count_read() == src_before.count_read() + 1
    }
}

/// `r`, `src_after` and `out_after` are what a read of a `T` with retries gives:
/// lines are read until one converts, and each one that does not is answered in
/// `out` with a hint and the label. Where no line converts, every line is read
/// and the result is `ReadError::Io`.
pub open spec fn retried_read<T: Convert>(
    r: Result<T, ReadError>,
    src_before: LineSource,
    src_after: LineSource,
    out_before: Seq<Seq<char>>,
    out_after: Seq<Seq<char>>,
    label: Option<Seq<char>>,
) -> bool {
    let ls = src_before@;
    let k = leading_failures::<T>(ls);
    &&& src_after.wf()
    &&& out_after == out_before + notices(T::spec_target(), label, k)
    &&& if k < ls.len() {
        &&& r is Ok
        &&& T::spec_convert(ls[k as int]) == Some(r->Ok_0.deep_view())
        &&& src_after@ == ls.skip(k + 1 as int)
        &&& src_after.count_read() == src_before.count_read() + k + 1
    } else {
        &&& r == Err::<T, ReadError>(ReadError::Io)
        &&& src_after@ == Seq::<Seq<char>>::empty()
        &&& src_after.count_read() == src_before.count_read() + ls.len()
    }
}

/// What to write after a line that does not convert to a value of kind
/// `target`: the hint, then the label again where there is one.
pub fn failure_notice(target: TargetType, label: Option<&str>) -> (r: Vec<String>)
    ensures
        r.deep_view() == notice(target, label_view(label)),
{
    let mut hint = "Invalid input data type. Example: ".to_owned();
    hint.append(target.example());
    let mut r: Vec<String> = Vec::new();
    r.push(hint);
    match label {
        Some(l) => {
            let mut again = l.to_owned();
            again.append(": ");
            r.push(again);
            assert(r.deep_view() =~= notice(target, label_view(label)));
        },
        None => {
            assert(r.deep_view() =~= notice(target, label_view(label)));
        },
    }
    r
}

/// The decision on one line read in retry mode: the value where the line
/// converts, else what to write before the next line is read.
pub fn retry_step<T: Convert>(line: &str, label: Option<&str>) -> (r: Result<T, Vec<String>>)
    ensures
        match r {
            Ok(v) => T::spec_convert(line@) == Some(v.deep_view()),
            Err(m) => T::spec_convert(line@) is None && m.deep_view() == notice(
                T::spec_target(),
                label_view(label),
            ),
        },
{
    match T::convert(line) {
        Ok(v) => Ok(v),
        Err(_) => Err(failure_notice(T::target(), label)),
    }
}

/// Reads one line and converts it to a `T`. The outer result fails only where no
/// line is left; the inner one is the conversion.
pub fn parse_from_reader<T: Convert>(src: &mut LineSource) -> (r: Result<
    Result<T, ParseError>,
    ReadError,
>)
    requires
        old(src).wf(),
    ensures
        strict_read(
            match r {
                Ok(Ok(v)) => Ok(v),
                Ok(Err(e)) => Err(ReadError::Parse(e)),
                Err(e) => Err(e),
            },
            *old(src),
            *final(src),
        ),
{
    match src.read_line() {
        Ok(line) => Ok(T::convert(line.as_str())),
        Err(_) => Err(ReadError::Io),
    }
}

/// Reads one line and converts it to a `T`; a line that does not convert is an
/// error.
pub fn read_value_from<T: Convert>(src: &mut LineSource) -> (r: Result<T, ReadError>)
    requires
        old(src).wf(),
    ensures
        strict_read(r, *old(src), *final(src)),
{
    match parse_from_reader(src) {
        Ok(Ok(v)) => Ok(v),
        Ok(Err(e)) => Err(ReadError::Parse(e)),
        Err(e) => Err(e),
    }
}

/// Reads lines until one converts to a `T`. Each line that does not convert is
/// answered in `out` with a hint and, where there is one, the label. Fails only
/// where the lines run out.
pub fn read_with_retry<T: Convert>(
    src: &mut LineSource,
    out: &mut Vec<String>,
    label: Option<&str>,
) -> (r: Result<T, ReadError>)
    requires
        old(src).wf(),
    ensures
        retried_read(
            r,
            *old(src),
            *final(src),
            old(out).deep_view(),
            final(out).deep_view(),
            label_view(label),
        ),
{
    let ghost src0 = *src;
    let ghost out0 = out.deep_view();
    let ghost ls = src@;
    let ghost mut f: int = 0;
    assert(ls.skip(0) =~= ls);
    assert(out0 + notices(T::spec_target(), label_view(label), 0) =~= out0);
    loop
        invariant
            src.wf(),
            src0 == *old(src),
            out0 == old(out).deep_view(),
            ls == src0@,
            0 <= f <= ls.len(),
            src@ == ls.skip(f),
            leading_failures::<T>(ls) == f + leading_failures::<T>(src@),
            src.count_read() == src0.count_read() + f,
            out.deep_view() == out0 + notices(T::spec_target(), label_view(label), f as nat),
        decreases src@.len(),
    {
        let ghost pending = src@;
        let line = match src.read_line() {
            Ok(l) => l,
            Err(_) => {
                assert(leading_failures::<T>(pending) == 0);
                assert(f == ls.len());
                assert(src@ =~= Seq::<Seq<char>>::empty());
                return Err(ReadError::Io);
            },
        };
        match retry_step::<T>(line.as_str(), label) {
            Ok(v) => {
                assert(leading_failures::<T>(pending) == 0);
                assert(ls[f] == pending[0]);
                assert(ls.skip(f + 1) =~= pending.drop_first());
                return Ok(v);
            },
            Err(msgs) => {
                let ghost prev = out.deep_view();
                let mut i: usize = 0;
                while i < msgs.len()
                    invariant
                        i <= msgs@.len(),
                        out.deep_view() == prev + msgs.deep_view().take(i as int),
                    decreases msgs@.len() - i,
                {
                    let ghost before = out.deep_view();
                    out.push(msgs[i].clone());
                    assert(out.deep_view() =~= before.push(msgs@[i as int]@));
                    assert(msgs.deep_view().take(i + 1) =~= msgs.deep_view().take(i as int).push(
                        msgs@[i as int]@,
                    ));
                    i = i + 1;
                }
                assert(msgs.deep_view().take(i as int) =~= msgs.deep_view());
                proof {
                    assert(ls.skip(f + 1) =~= ls.skip(f).drop_first());
                    f = f + 1;
                    assert(notices(T::spec_target(), label_view(label), f as nat) == notices(
                        T::spec_target(),
                        label_view(label),
                        (f - 1) as nat,
                    ) + notice(T::spec_target(), label_view(label)));
                    assert(out.deep_view() =~= out0 + notices(
                        T::spec_target(),
                        label_view(label),
                        f as nat,
                    ));
                }
            },
        }
    }
}

/// Reads one line as a text; a line that does not convert is an error.
pub fn read_string_from(src: &mut LineSource) -> (r: Result<String, ReadError>)
    requires
        old(src).wf(),
    ensures
        strict_read(r, *old(src), *final(src)),
{
    read_value_from(src)
}

/// Reads one line as a 32-bit integer; a line that does not convert is an error.
pub fn read_int_from(src: &mut LineSource) -> (r: Result<i32, ReadError>)
    requires
        old(src).wf(),
    ensures
        strict_read(r, *old(src), *final(src)),
{
    read_value_from(src)
}

/// Reads one line as a truth value; a line that does not convert is an error.
pub fn read_bool_from(src: &mut LineSource) -> (r: Result<bool, ReadError>)
    requires
        old(src).wf(),
    ensures
        strict_read(r, *old(src), *final(src)),
{
    read_value_from(src)
}

/// Reads one line as a character; a line that does not convert is an error.
pub fn read_char_from(src: &mut LineSource) -> (r: Result<char, ReadError>)
    requires
        old(src).wf(),
    ensures
        strict_read(r, *old(src), *final(src)),
{
    read_value_from(src)
}

/// Reads one line as a vector of 32-bit integers; a line that does not convert is an error.
pub fn read_int_vec_from(src: &mut LineSource) -> (r: Result<Vec<i32>, ReadError>)
    requires
        old(src).wf(),
    ensures
        strict_read(r, *old(src), *final(src)),
{
    read_value_from(src)
}

/// Reads one line as a vector of words; a line that does not convert is an error.
pub fn read_string_vec_from(src: &mut LineSource) -> (r: Result<Vec<String>, ReadError>)
    requires
        old(src).wf(),
    ensures
        strict_read(r, *old(src), *final(src)),
{
    read_value_from(src)
}

/// Reads lines until one converts to a 32-bit integer, answering each other one in
/// `out` with a hint and the label.
pub fn read_int_retry(src: &mut LineSource, out: &mut Vec<String>, label: Option<&str>) -> (r: Result<
    i32,
    ReadError,
>)
    requires
        old(src).wf(),
    ensures
        retried_read(
            r,
            *old(src),
            *final(src),
            old(out).deep_view(),
            final(out).deep_view(),
            label_view(label),
        ),
{
    read_with_retry(src, out, label)
}

/// Reads lines until one converts to a truth value, answering each other one in
/// `out` with a hint and the label.
pub fn read_bool_loop(src: &mut LineSource, out: &mut Vec<String>, label: Option<&str>) -> (r: Result<
    bool,
    ReadError,
>)
    requires
        old(src).wf(),
    ensures
        retried_read(
            r,
            *old(src),
            *final(src),
            old(out).deep_view(),
            final(out).deep_view(),
            label_view(label),
        ),
{
    read_with_retry(src, out, label)
}

/// Reads lines until one converts to a character, answering each other one in
/// `out` with a hint and the label.
pub fn read_char_loop(src: &mut LineSource, out: &mut Vec<String>, label: Option<&str>) -> (r: Result<
    char,
    ReadError,
>)
    requires
        old(src).wf(),
    ensures
        retried_read(
            r,
            *old(src),
            *final(src),
            old(out).deep_view(),
            final(out).deep_view(),
            label_view(label),
        ),
{
    read_with_retry(src, out, label)
}

/// Reads lines until one converts to a vector of 32-bit integers, answering each other one in
/// `out` with a hint and the label.
pub fn read_int_vec_loop(src: &mut LineSource, out: &mut Vec<String>, label: Option<&str>) -> (r: Result<
    Vec<i32>,
    ReadError,
>)
    requires
        old(src).wf(),
    ensures
        retried_read(
            r,
            *old(src),
            *final(src),
            old(out).deep_view(),
            final(out).deep_view(),
            label_view(label),
        ),
{
    read_with_retry(src, out, label)
}

} // verus!
