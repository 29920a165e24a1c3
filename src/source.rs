//! An in-memory line source: text handed out one line at a time.
use vstd::prelude::*;

use crate::convert::ReadError;
use crate::text::{bounds_within, chars_of, line_bounds, lines, pieces, string_of};

verus! {

/// Lines of text, given out in order, one per read; a read after the last line
/// fails.
pub struct LineSource {
    lines: Vec<String>,
    next: usize,
}

impl View for LineSource {
    /// The lines not read yet.
    type V = Seq<Seq<char>>;

    closed spec fn view(&self) -> Seq<Seq<char>> {
        self.lines.deep_view().skip(self.next as int)
    }
}

impl LineSource {
    /// The source is consistent: it has not read past its last line.
    pub closed spec fn wf(&self) -> bool {
        self.next <= self.lines@.len()
    }

    /// How many lines have been read.
    pub closed spec fn count_read(&self) -> nat {
        self.next as nat
    }

    /// A source of the lines of `text`, each with its `'\n'`.
    pub fn new(text: &str) -> (r: LineSource)
        ensures
            r.wf(),
            r@ == lines(text@),
            r.count_read() == 0,
    {
        let cs = chars_of(text);
        let bs = line_bounds(&cs);
        let mut ls: Vec<String> = Vec::new();
        let mut k: usize = 0;
        assert(ls.deep_view() =~= pieces(cs@, bs@).take(0));
        while k < bs.len()
            invariant
                k <= bs@.len(),
                bounds_within(bs@, cs@.len()),
                ls.deep_view() == pieces(cs@, bs@).take(k as int),
            decreases bs@.len() - k,
        {
            let l = string_of(&cs, bs[k].0, bs[k].1);
            let ghost prev = ls.deep_view();
            ls.push(l);
            assert(ls.deep_view() =~= prev.push(l@));
            assert(pieces(cs@, bs@).take(k + 1) =~= pieces(cs@, bs@).take(k as int).push(l@));
            k = k + 1;
        }
        assert(pieces(cs@, bs@).take(k as int) =~= pieces(cs@, bs@));
        let r = LineSource { lines: ls, next: 0 };
        assert(r.lines.deep_view().skip(0) =~= r.lines.deep_view());
        r
    }

    /// How many lines have been read.
    pub fn lines_read(&self) -> (r: usize)
        ensures
            r == self.count_read(),
    {
        self.next
    }

    /// Reads the next line, with its `'\n'` where it has one. Fails with
    /// `ReadError::Io`, and changes nothing, where no line is left.
    pub fn read_line(&mut self) -> (r: Result<String, ReadError>)
        requires
            old(self).wf(),
        ensures
            final(self).wf(),
            old(self)@.len() == 0 ==> r == Err::<String, ReadError>(ReadError::Io)
                && final(self)@ == old(self)@ && final(self).count_read() == old(self).count_read(),
            old(self)@.len() > 0 ==> r is Ok && r->Ok_0@ == old(self)@[0] && final(self)@ == old(
                self,
            )@.drop_first() && final(self).count_read() == old(self).count_read() + 1,
    {
        if self.next < self.lines.len() {
            let l = self.lines[self.next].clone();
            let ghost before = self@;
            self.next = self.next + 1;
            assert(self@ =~= before.drop_first());
            Ok(l)
        } else {
            Err(ReadError::Io)
        }
    }
}

} // verus!
