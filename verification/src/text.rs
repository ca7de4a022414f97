//! Conversions between strings and sequences of characters.

use vstd::prelude::*;
use vstd::std_specs::iter::IteratorSpec;

verus! {

/// `String::push` appends one character to the end of the string.
pub assume_specification[ String::push ](s: &mut String, ch: char)
    ensures
        final(s)@ == old(s)@.push(ch),
;

/// The text that formatting the string `s` with `{:?}` gives: `s` between
/// double quotes, with the characters that `Debug` escapes written as their
/// escapes.
pub uninterp spec fn debug_quoted(s: Seq<char>) -> Seq<char>;

/// `format!("{:?}", s)`. The result is a function of the text of `s` alone,
/// which the contract names `debug_quoted`; nothing more is claimed of it.
#[verifier::external_body]
pub(crate) fn quoted(s: &str) -> (text: String)
    ensures
        text@ == debug_quoted(s@),
{
    format!("{:?}", s)
}

/// The characters of `s`, in order.
pub fn chars_of(s: &str) -> (out: Vec<char>)
    ensures
        out@ == s@,
{
    let mut out: Vec<char> = Vec::new();
    for c in it: s.chars()
        invariant
            out@ == s@.take(it.index() as int),
            it.seq() == s@,
    {
        out.push(c);
    }
    out
}

/// Appends the characters `v[from..to]` to `out`.
pub(crate) fn append_chars(out: &mut String, v: &Vec<char>, from: usize, to: usize)
    requires
        from <= to <= v.len(),
    ensures
        final(out)@ == old(out)@ + v@.subrange(from as int, to as int),
{
    let ghost start = out@;
    let mut i: usize = from;
    while i < to
        invariant
            from <= i <= to <= v.len(),
            out@ == start + v@.subrange(from as int, i as int),
        decreases to - i,
    {
        proof {
            assert(v@.subrange(from as int, i + 1) == v@.subrange(from as int, i as int).push(
                v[i as int],
            ));
        }
        out.push(v[i]);
        i += 1;
    }
}

/// The string made of the characters `v[from..to]`.
pub(crate) fn string_of(v: &Vec<char>, from: usize, to: usize) -> (out: String)
    requires
        from <= to <= v.len(),
    ensures
        out@ == v@.subrange(from as int, to as int),
{
    let mut out = String::new();
    append_chars(&mut out, v, from, to);
    out
}

/// True when `a` and `b` agree on their first `n` characters.
pub(crate) fn same_start(a: &Vec<char>, b: &Vec<char>, n: usize) -> (same: bool)
    requires
        n <= a.len(),
        n <= b.len(),
    ensures
        same == (a@.take(n as int) == b@.take(n as int)),
{
    let mut k: usize = 0;
    while k < n
        invariant
            k <= n <= a.len(),
            n <= b.len(),
            forall|j: int| 0 <= j < k ==> a[j] == b[j],
        decreases n - k,
    {
        if a[k] != b[k] {
            proof {
                assert(a@.take(n as int)[k as int] != b@.take(n as int)[k as int]);
            }
            return false;
        }
        k += 1;
    }
    proof {
        assert(a@.take(n as int) =~= b@.take(n as int));
    }
    true
}

} // verus!
