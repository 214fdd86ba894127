//! Substring substitution over character sequences.

use vstd::prelude::*;
use vstd::string::*;

verus! {

/// Whether `pattern` stands in `text` starting at index `at`.
pub open spec fn occurs_at(text: Seq<char>, pattern: Seq<char>, at: int) -> bool {
    &&& 0 <= at
    &&& at + pattern.len() <= text.len()
    &&& text.subrange(at, at + pattern.len()) == pattern
}

/// Whether `pattern` stands somewhere in `text`.
pub open spec fn occurs_in(text: Seq<char>, pattern: Seq<char>) -> bool {
    exists|at: int| occurs_at(text, pattern, at)
}

/// `text` with every occurrence of `from` replaced by `to`.
///
/// Occurrences are taken from left to right and do not overlap: once one is
/// replaced, the search goes on behind it. An empty `from` matches nowhere,
/// so the text comes back as it is.
pub open spec fn replace_all(text: Seq<char>, from: Seq<char>, to: Seq<char>) -> Seq<char>
    decreases text.len(),
{
    if from.len() == 0 || text.len() < from.len() {
        text
    } else if occurs_at(text, from, 0) {
        to + replace_all(text.skip(from.len() as int), from, to)
    } else {
        seq![text[0]] + replace_all(text.skip(1), from, to)
    }
}

/// What holds of an occurrence one character into a text holds of it in the
/// text as a whole, one index further on.
proof fn lemma_occurs_at_shift(text: Seq<char>, pattern: Seq<char>, at: int)
    requires
        text.len() > 0,
    ensures
        occurs_at(text.skip(1), pattern, at) <==> at >= 0 && occurs_at(text, pattern, at + 1),
{
    if at >= 0 && at + pattern.len() <= text.len() - 1 {
        assert(text.skip(1).subrange(at, at + pattern.len()) =~= text.subrange(
            at + 1,
            at + 1 + pattern.len(),
        ));
    }
}

/// A replacement by something at least as long never shortens the text, and
/// one by something at most as long never lengthens it.
proof fn lemma_replace_all_len(text: Seq<char>, from: Seq<char>, to: Seq<char>)
    ensures
        to.len() >= from.len() ==> replace_all(text, from, to).len() >= text.len(),
        to.len() <= from.len() ==> replace_all(text, from, to).len() <= text.len(),
    decreases text.len(),
{
    if from.len() == 0 || text.len() < from.len() {
    } else if occurs_at(text, from, 0) {
        lemma_replace_all_len(text.skip(from.len() as int), from, to);
    } else {
        lemma_replace_all_len(text.skip(1), from, to);
    }
}

/// A text that does not hold the pattern comes back unchanged.
pub proof fn lemma_replace_all_absent(text: Seq<char>, from: Seq<char>, to: Seq<char>)
    requires
        !occurs_in(text, from),
    ensures
        replace_all(text, from, to) == text,
    decreases text.len(),
{
    if from.len() == 0 || text.len() < from.len() {
    } else {
        assert(!occurs_at(text, from, 0));
        assert forall|at: int| !occurs_at(text.skip(1), from, at) by {
            lemma_occurs_at_shift(text, from, at);
            assert(!occurs_at(text, from, at + 1));
        }
        lemma_replace_all_absent(text.skip(1), from, to);
        assert(seq![text[0]] + text.skip(1) =~= text);
    }
}

/// Replacing a pattern by itself changes nothing.
pub proof fn lemma_replace_all_by_itself(text: Seq<char>, from: Seq<char>)
    ensures
        replace_all(text, from, from) == text,
    decreases text.len(),
{
    if from.len() == 0 || text.len() < from.len() {
    } else if occurs_at(text, from, 0) {
        lemma_replace_all_by_itself(text.skip(from.len() as int), from);
        assert(text.subrange(0, from.len() as int) + text.skip(from.len() as int) =~= text);
    } else {
        lemma_replace_all_by_itself(text.skip(1), from);
        assert(seq![text[0]] + text.skip(1) =~= text);
    }
}

/// A text that holds the pattern does not come back unchanged, unless the
/// pattern is replaced by itself.
pub proof fn lemma_replace_all_present(text: Seq<char>, from: Seq<char>, to: Seq<char>)
    requires
        occurs_in(text, from),
        from.len() > 0,
        from != to,
    ensures
        replace_all(text, from, to) != text,
    decreases text.len(),
{
    let at = choose|at: int| occurs_at(text, from, at);
    if occurs_at(text, from, 0) {
        let rest = text.skip(from.len() as int);
        lemma_replace_all_len(rest, from, to);
        if to.len() == from.len() {
            let out = to + replace_all(rest, from, to);
            if out == text {
                assert(out.subrange(0, from.len() as int) =~= to);
                assert(to =~= from);
            }
        }
    } else {
        lemma_occurs_at_shift(text, from, at - 1);
        assert(occurs_at(text.skip(1), from, at - 1));
        lemma_replace_all_present(text.skip(1), from, to);
        let out = seq![text[0]] + replace_all(text.skip(1), from, to);
        if out == text {
            assert(out.skip(1) =~= replace_all(text.skip(1), from, to));
        }
    }
}

/// The texts that a replacement leaves as they are: all of them where the
/// pattern is empty or replaced by itself, and otherwise those that do not
/// hold the pattern.
pub proof fn lemma_replace_all_fixed(text: Seq<char>, from: Seq<char>, to: Seq<char>)
    ensures
        replace_all(text, from, to) == text <==> from.len() == 0 || from == to || !occurs_in(
            text,
            from,
        ),
{
    if from.len() == 0 {
    } else if from == to {
        lemma_replace_all_by_itself(text, from);
    } else if occurs_in(text, from) {
        lemma_replace_all_present(text, from, to);
    } else {
        lemma_replace_all_absent(text, from, to);
    }
}

/// Up to the first occurrence of the pattern, a replacement copies the text.
proof fn lemma_replace_all_head(text: Seq<char>, from: Seq<char>, to: Seq<char>, upto: int)
    requires
        0 <= upto <= text.len(),
        forall|at: int| 0 <= at < upto ==> !occurs_at(text, from, at),
    ensures
        replace_all(text, from, to) == text.take(upto) + replace_all(text.skip(upto), from, to),
    decreases upto,
{
    if upto == 0 {
        assert(text.skip(0) =~= text);
        assert(text.take(0) + text =~= text);
    } else if from.len() == 0 || text.len() < from.len() {
        assert(text.take(upto) + text.skip(upto) =~= text);
    } else {
        let tail = text.skip(1);
        assert(!occurs_at(text, from, 0));
        assert forall|at: int| 0 <= at < upto - 1 implies !occurs_at(tail, from, at) by {
            lemma_occurs_at_shift(text, from, at);
        }
        lemma_replace_all_head(tail, from, to, upto - 1);
        assert(tail.skip(upto - 1) =~= text.skip(upto));
        assert(seq![text[0]] + tail.take(upto - 1) =~= text.take(upto));
        assert(seq![text[0]] + (tail.take(upto - 1) + replace_all(text.skip(upto), from, to))
            =~= text.take(upto) + replace_all(text.skip(upto), from, to));
    }
}

/// Whether no occurrence of `from` can form where kept text meets an
/// inserted `to`: `to` is not empty, it does not hold the first character
/// of `from`, and `from` does not hold the first character of `to`.
pub open spec fn seams_stay_clear(from: Seq<char>, to: Seq<char>) -> bool {
    &&& from.len() > 0
    &&& to.len() > 0
    &&& !to.contains(from[0])
    &&& !from.contains(to[0])
}

/// What a replacement gives does not begin with the pattern, where the text
/// holds no occurrence before index `upto`.
proof fn lemma_replace_all_clears_head(
    text: Seq<char>,
    from: Seq<char>,
    to: Seq<char>,
    upto: int,
)
    requires
        seams_stay_clear(from, to),
        0 <= upto <= from.len(),
        forall|at: int| 0 <= at < upto ==> !occurs_at(text, from, at),
    ensures
        !occurs_at(replace_all(text, from, to), from, 0),
    decreases from.len() - upto,
{
    let out = replace_all(text, from, to);
    if occurs_at(out, from, 0) {
        assert forall|i: int| 0 <= i < from.len() implies out[i] == from[i] by {
            assert(out.subrange(0, from.len() as int)[i] == out[i]);
        }
        if text.len() < from.len() {
            assert(out == text);
        } else {
            lemma_replace_all_head(text, from, to, upto);
            if upto == from.len() {
                assert(text.subrange(0, from.len() as int) =~= out.subrange(0, from.len() as int));
                assert(occurs_at(text, from, 0));
            } else if occurs_at(text, from, upto) {
                let rest = text.skip(upto);
                assert(rest.subrange(0, from.len() as int) =~= text.subrange(
                    upto,
                    upto + from.len(),
                ));
                assert(occurs_at(rest, from, 0));
                assert(out[upto] == to[0]);
                assert(from[upto] == to[0]);
            } else {
                lemma_replace_all_clears_head(text, from, to, upto + 1);
            }
        }
    }
}

/// Where seams stay clear, what a replacement gives no longer holds the
/// pattern.
pub proof fn lemma_replace_all_clears(text: Seq<char>, from: Seq<char>, to: Seq<char>)
    requires
        seams_stay_clear(from, to),
    ensures
        !occurs_in(replace_all(text, from, to), from),
    decreases text.len(),
{
    let out = replace_all(text, from, to);
    assert forall|at: int| !occurs_at(out, from, at) by {
        if occurs_at(out, from, at) {
            assert(out.subrange(at, at + from.len())[0] == out[at]);
            if at == 0 {
                lemma_replace_all_clears_head(text, from, to, 0);
            } else if text.len() < from.len() {
            } else if occurs_at(text, from, 0) {
                let rest = replace_all(text.skip(from.len() as int), from, to);
                lemma_replace_all_clears(text.skip(from.len() as int), from, to);
                if at < to.len() {
                    assert(to[at] == from[0]);
                } else {
                    assert(rest.subrange(at - to.len(), at - to.len() + from.len())
                        =~= out.subrange(at, at + from.len()));
                    assert(occurs_at(rest, from, at - to.len()));
                }
            } else {
                let rest = replace_all(text.skip(1), from, to);
                lemma_replace_all_clears(text.skip(1), from, to);
                assert(rest.subrange(at - 1, at - 1 + from.len()) =~= out.subrange(
                    at,
                    at + from.len(),
                ));
                assert(occurs_at(rest, from, at - 1));
            }
        }
    }
}

/// Reads the characters of `s` into a vector.
fn chars_of(s: &str) -> (out: Vec<char>)
    ensures
        out@ == s@,
{
    let mut out: Vec<char> = Vec::new();
    for c in it: s.chars()
        invariant
            out@ == it.seq().take(it.index() as int),
            it.seq() == s@,
    {
        out.push(c);
    }
    out
}

/// Tests whether `pattern` stands in `text` at index `at`.
fn matches_at(text: &Vec<char>, pattern: &Vec<char>, at: usize) -> (found: bool)
    requires
        at + pattern.len() <= text.len(),
    ensures
        found == occurs_at(text@, pattern@, at as int),
{
    let mut k: usize = 0;
    while k < pattern.len()
        invariant
            at + pattern.len() <= text.len(),
            k <= pattern.len(),
            forall|j: int| 0 <= j < k ==> text@[at + j] == pattern@[j],
        decreases pattern.len() - k,
    {
        if text[at + k] != pattern[k] {
            assert(text@.subrange(at as int, at + pattern.len())[k as int] != pattern@[k as int]);
            return false;
        }
        k = k + 1;
    }
    assert(text@.subrange(at as int, at + pattern.len()) =~= pattern@);
    true
}

/// Replaces every occurrence of `source` in `path` by `target`.
pub fn substitute(path: &str, source: &str, target: &str) -> (out: String)
    ensures
        out@ == replace_all(path@, source@, target@),
{
    let text = chars_of(path);
    let pattern = chars_of(source);
    let n = text.len();
    let m = pattern.len();
    if m == 0 || n < m {
        return path.to_owned();
    }
    let mut out = String::new();
    let mut kept: usize = 0;
    let mut at: usize = 0;
    proof {
        assert(path@.skip(0) =~= path@);
        assert(out@ + path@.subrange(0, 0) =~= Seq::<char>::empty());
    }
    while at <= n - m
        invariant
            text@ == path@,
            pattern@ == source@,
            n == text.len(),
            m == pattern.len(),
            0 < m <= n,
            kept <= at <= n,
            replace_all(path@, source@, target@) == out@ + path@.subrange(kept as int, at as int)
                + replace_all(path@.skip(at as int), source@, target@),
        decreases n - at,
    {
        let ghost rest = path@.skip(at as int);
        if matches_at(&text, &pattern, at) {
            proof {
                assert(rest.subrange(0, m as int) =~= path@.subrange(at as int, at + m));
                assert(rest.skip(m as int) =~= path@.skip(at + m));
                assert(path@.subrange((at + m) as int, (at + m) as int) =~= Seq::<char>::empty());
            }
            out.append(path.substring_char(kept, at));
            out.append(target);
            at = at + m;
            kept = at;
        } else {
            proof {
                assert(rest.subrange(0, m as int) =~= path@.subrange(at as int, at + m));
                assert(rest.skip(1) =~= path@.skip(at + 1));
                assert(path@.subrange(kept as int, at as int) + seq![rest[0]]
                    =~= path@.subrange(kept as int, at + 1));
            }
            at = at + 1;
        }
    }
    proof {
        assert(path@.subrange(kept as int, at as int) + path@.skip(at as int)
            =~= path@.subrange(kept as int, n as int));
    }
    out.append(path.substring_char(kept, n));
    out
}

} // verus!
