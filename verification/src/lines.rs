//! Splitting text into lines.
//!
//! A line ends at a line feed. A carriage return directly before that line
//! feed belongs to the line ending; any other carriage return is part of the
//! line. Text that ends without a line feed still yields its last line, and
//! text that ends with one yields no empty line after it.

use vstd::prelude::*;
use crate::text::{chars_of, string_of};

verus! {

/// Index of the first line feed in `s`, or `s.len()` where it holds none.
pub open spec fn line_end(s: Seq<char>) -> int
    decreases s.len(),
{
    if s.len() == 0 || s[0] == '\n' {
        0
    } else {
        1 + line_end(s.skip(1))
    }
}

/// `line` without the carriage return that ends it, if one does.
pub open spec fn without_cr(line: Seq<char>) -> Seq<char> {
    if line.len() > 0 && line.last() == '\r' {
        line.drop_last()
    } else {
        line
    }
}

/// The lines of `s`, in order.
pub open spec fn lines_of(s: Seq<char>) -> Seq<Seq<char>>
    decreases s.len(),
{
    let n = line_end(s);
    if s.len() == 0 {
        Seq::empty()
    } else if n < 0 || n >= s.len() {
        seq![s]
    } else {
        seq![without_cr(s.take(n))] + lines_of(s.skip(n + 1))
    }
}

/// `line_end(s)` is the position `n` once no line feed stands before `n`
/// and `n` is a line feed or the end.
pub proof fn lemma_line_end(s: Seq<char>, n: int)
    requires
        0 <= n <= s.len(),
        forall|k: int| 0 <= k < n ==> s[k] != '\n',
        n < s.len() ==> s[n] == '\n',
    ensures
        line_end(s) == n,
    decreases n,
{
    if n > 0 {
        let t = s.skip(1);
        assert forall|k: int| 0 <= k < n - 1 implies t[k] != '\n' by {
            assert(t[k] == s[k + 1]);
        }
        lemma_line_end(t, n - 1);
    }
}

/// The lines of `content`, in order.
pub fn split_lines(content: &str) -> (lines: Vec<String>)
    ensures
        lines.deep_view() == lines_of(content@),
{
    let chars = chars_of(content);
    let mut lines: Vec<String> = Vec::new();
    let mut start: usize = 0;
    let mut i: usize = 0;
    proof {
        assert(chars@.skip(0) == chars@);
        assert(lines.deep_view() == Seq::<Seq<char>>::empty());
    }
    while i < chars.len()
        invariant
            start <= i <= chars.len(),
            chars@ == content@,
            forall|k: int| start <= k < i ==> chars[k] != '\n',
            lines_of(chars@) == lines.deep_view() + lines_of(chars@.skip(start as int)),
        decreases chars.len() - i,
    {
        if chars[i] == '\n' {
            let end = if i > start && chars[i - 1] == '\r' {
                i - 1
            } else {
                i
            };
            let line = string_of(&chars, start, end);
            proof {
                let rest = chars@.skip(start as int);
                let n = i - start;
                assert forall|k: int| 0 <= k < n implies rest[k] != '\n' by {
                    assert(rest[k] == chars[start + k]);
                }
                lemma_line_end(rest, n);
                assert(rest.skip(n + 1) == chars@.skip(i + 1));
                assert(without_cr(rest.take(n)) == line@);
                assert(lines.deep_view().push(line@) == lines.deep_view() + seq![line@]);
            }
            let ghost before = lines.deep_view();
            lines.push(line);
            proof {
                assert(lines.deep_view() == before.push(line@));
            }
            start = i + 1;
        }
        i += 1;
    }
    if start < chars.len() {
        let line = string_of(&chars, start, chars.len());
        proof {
            let rest = chars@.skip(start as int);
            assert forall|k: int| 0 <= k < rest.len() implies rest[k] != '\n' by {
                assert(rest[k] == chars[start + k]);
            }
            lemma_line_end(rest, rest.len() as int);
            assert(rest == line@);
            assert(lines_of(rest) == seq![rest]);
        }
        let ghost before = lines.deep_view();
        lines.push(line);
        proof {
            assert(lines.deep_view() == before.push(line@));
        }
    } else {
        proof {
            assert(chars@.skip(start as int).len() == 0);
        }
    }
    lines
}

} // verus!
