//! Splitting text into lines. A line ends at a line feed, or at a carriage
//! return directly followed by a line feed; neither belongs to the line. Text
//! after the last line feed is a line of its own unless it is empty.

use vstd::prelude::*;
use crate::text::{from_chars, to_chars};

verus! {

/// The index of the first line feed of `s` at or after `from`, or the length
/// of `s`.
pub open spec fn line_end(s: Seq<char>, from: int) -> int
    decreases s.len() - from,
{
    if from < 0 || from >= s.len() {
        s.len() as int
    } else if s[from] == '\n' {
        from
    } else {
        line_end(s, from + 1)
    }
}

/// The index at which the content of the line that starts at `from` ends.
pub open spec fn content_end(s: Seq<char>, from: int) -> int {
    let e = line_end(s, from);
    if e < s.len() && from < e && s[e - 1] == '\r' {
        e - 1
    } else {
        e
    }
}

/// The line of `s` that starts at `from`, without its line ending.
pub open spec fn line_at(s: Seq<char>, from: int) -> Seq<char> {
    s.subrange(from, content_end(s, from))
}

/// The lines of `s` from index `from` on.
pub open spec fn lines_from(s: Seq<char>, from: int) -> Seq<Seq<char>>
    decreases s.len() - from,
{
    if from < 0 || from >= s.len() {
        Seq::empty()
    } else if line_end(s, from) < from || line_end(s, from) >= s.len() {
        seq![line_at(s, from)]
    } else {
        seq![line_at(s, from)] + lines_from(s, line_end(s, from) + 1)
    }
}

/// The lines of `s`.
pub open spec fn split_lines(s: Seq<char>) -> Seq<Seq<char>> {
    lines_from(s, 0)
}

/// A line ends at or after its start, within the text, at a line feed or at
/// the end of the text, and holds no line feed.
pub proof fn lemma_line_end(s: Seq<char>, from: int)
    requires
        0 <= from <= s.len(),
    ensures
        from <= content_end(s, from) <= line_end(s, from) <= s.len(),
        line_end(s, from) < s.len() ==> s[line_end(s, from)] == '\n',
        forall|j: int| from <= j < line_end(s, from) ==> s[j] != '\n',
    decreases s.len() - from,
{
    if from < s.len() && s[from] != '\n' {
        lemma_line_end(s, from + 1);
    }
}

/// No line holds a line feed.
pub proof fn lemma_lines_hold_no_line_feed(s: Seq<char>, from: int)
    requires
        0 <= from,
    ensures
        forall|i: int, j: int|
            0 <= i < lines_from(s, from).len() && 0 <= j < lines_from(s, from)[i].len()
                ==> lines_from(s, from)[i][j] != '\n',
    decreases s.len() - from,
{
    if from < s.len() {
        lemma_line_end(s, from);
        if line_end(s, from) < s.len() {
            lemma_lines_hold_no_line_feed(s, line_end(s, from) + 1);
        }
        let rest = lines_from(s, line_end(s, from) + 1);
        let all = lines_from(s, from);
        assert forall|i: int, j: int| 0 <= i < all.len() && 0 <= j < all[i].len() implies all[i][j]
            != '\n' by {
            if i == 0 {
                assert(all[0] == line_at(s, from));
                assert(all[0][j] == s[from + j]);
            } else {
                assert(all[i] == rest[i - 1]);
            }
        }
    }
}

/// Where the line of `s` that starts at `from` ends: the end of its content
/// and the index of its line feed (the length of `s` if it has none).
pub fn line_bounds(s: &[char], from: usize) -> (r: (usize, usize))
    requires
        from <= s@.len(),
    ensures
        r.0 == content_end(s@, from as int),
        r.1 == line_end(s@, from as int),
        from <= r.0 <= r.1 <= s@.len(),
{
    let mut e: usize = from;
    while e < s.len() && s[e] != '\n'
        invariant
            from <= e <= s@.len(),
            line_end(s@, from as int) == line_end(s@, e as int),
        decreases s.len() - e,
    {
        e += 1;
    }
    proof {
        lemma_line_end(s@, from as int);
    }
    if e < s.len() && from < e && s[e - 1] == '\r' {
        (e - 1, e)
    } else {
        (e, e)
    }
}

/// Where each line of `s` begins and where its content ends.
pub fn line_spans(s: &[char]) -> (v: Vec<(usize, usize)>)
    ensures
        v@.len() == split_lines(s@).len(),
        forall|i: int|
            0 <= i < v@.len() ==> (#[trigger] v@[i]).0 <= v@[i].1 <= s@.len() && s@.subrange(
                v@[i].0 as int,
                v@[i].1 as int,
            ) == split_lines(s@)[i],
{
    let mut v: Vec<(usize, usize)> = Vec::new();
    let mut pos: usize = 0;
    let n: usize = s.len();
    while pos < n
        invariant
            pos <= n == s@.len(),
            split_lines(s@).len() == v@.len() + lines_from(s@, pos as int).len(),
            forall|i: int|
                0 <= i < v@.len() ==> (#[trigger] v@[i]).0 <= v@[i].1 <= s@.len() && s@.subrange(
                    v@[i].0 as int,
                    v@[i].1 as int,
                ) == split_lines(s@)[i],
            forall|i: int|
                0 <= i < lines_from(s@, pos as int).len() ==> lines_from(s@, pos as int)[i]
                    == split_lines(s@)[v@.len() + i],
        decreases n - pos,
    {
        let (stop, feed) = line_bounds(s, pos);
        let ghost here = lines_from(s@, pos as int);
        let ghost rest = lines_from(s@, feed + 1);
        proof {
            assert(here[0] == line_at(s@, pos as int));
            assert(here.len() == 1 + rest.len());
            assert forall|i: int| 0 <= i < rest.len() implies rest[i] == split_lines(
                s@,
            )[v@.len() + 1 + i] by {
                assert(rest[i] == here[i + 1]);
            }
        }
        v.push((pos, stop));
        pos = if feed < n {
            feed + 1
        } else {
            feed
        };
    }
    v
}

/// The lines of a text, one after another.
pub struct LineIter {
    text: Vec<char>,
    pos: usize,
}

impl LineIter {
    #[verifier::type_invariant]
    spec fn inv(self) -> bool {
        self.pos <= self.text@.len()
    }

    /// The lines still to come.
    pub closed spec fn remaining(self) -> Seq<Seq<char>> {
        lines_from(self.text@, self.pos as int)
    }

    /// The next line, or `None` when all lines have been handed out.
    pub fn next(&mut self) -> (r: Option<String>)
        ensures
            match r {
                Some(line) => old(self).remaining().len() > 0 && line@ == old(self).remaining()[0]
                    && final(self).remaining() == old(self).remaining().drop_first(),
                None => old(self).remaining().len() == 0 && final(self).remaining() == old(
                    self,
                ).remaining(),
            },
    {
        proof {
            use_type_invariant(&*self);
        }
        if self.pos >= self.text.len() {
            return None;
        }
        let (stop, feed) = line_bounds(self.text.as_slice(), self.pos);
        let line = from_chars(self.text.as_slice(), self.pos, stop);
        proof {
            let rest = lines_from(self.text@, feed + 1);
            assert((seq![line@] + rest).drop_first() == rest);
            assert(seq![line@].drop_first() == Seq::<Seq<char>>::empty());
        }
        self.pos = if feed < self.text.len() {
            feed + 1
        } else {
            feed
        };
        Some(line)
    }

    /// All the lines still to come.
    pub fn to_vec(self) -> (v: Vec<String>)
        ensures
            v@.len() == self.remaining().len(),
            forall|i: int| 0 <= i < v@.len() ==> (#[trigger] v@[i])@ == self.remaining()[i],
    {
        let mut it = self;
        let mut v: Vec<String> = Vec::new();
        loop
            invariant
                v@.len() + it.remaining().len() == self.remaining().len(),
                forall|i: int| 0 <= i < v@.len() ==> (#[trigger] v@[i])@ == self.remaining()[i],
                forall|i: int|
                    0 <= i < it.remaining().len() ==> it.remaining()[i] == self.remaining()[v@.len()
                        + i],
            decreases it.remaining().len(),
        {
            let ghost before = it.remaining();
            match it.next() {
                Some(line) => {
                    v.push(line);
                    assert forall|i: int| 0 <= i < it.remaining().len() implies it.remaining()[i]
                        == self.remaining()[v@.len() + i] by {
                        assert(it.remaining()[i] == before[i + 1]);
                    }
                },
                None => {
                    return v;
                },
            }
        }
    }
}

/// The lines of `text`.
pub fn lines(text: &str) -> (it: LineIter)
    ensures
        it.remaining() == split_lines(text@),
{
    LineIter { text: to_chars(text), pos: 0 }
}

} // verus!
