//! Tokenization: a token is a maximal run of characters that are not white
//! space; the token sequence of a text lists those runs in order.

use crate::text::is_space;
use crate::text::is_space_char;
use vstd::prelude::*;

verus! {

/// The token sequence of `s`: the maximal white-space-free runs of `s`, in
/// order. Defined by how one more character extends the tokens of the text
/// before it: white space closes the current run, a character after white
/// space (or at the start) opens a new run, and any other character extends
/// the last run.
pub open spec fn tokens(s: Seq<char>) -> Seq<Seq<char>>
    decreases s.len(),
{
    if s.len() == 0 {
        Seq::empty()
    } else {
        let prefix = tokens(s.drop_last());
        let c = s.last();
        if is_space(c) {
            prefix
        } else if s.len() == 1 || is_space(s[s.len() - 2]) {
            prefix.push(seq![c])
        } else {
            prefix.update(prefix.len() - 1, prefix.last().push(c))
        }
    }
}

/// Appending a white-space character leaves the token sequence unchanged.
proof fn lemma_tokens_space_step(s: Seq<char>, i: int)
    requires
        0 <= i < s.len(),
        is_space(s[i]),
    ensures
        tokens(s.take(i + 1)) == tokens(s.take(i)),
{
    let t = s.take(i + 1);
    assert(t.drop_last() =~= s.take(i));
    assert(t.last() == s[i]);
}

/// Appending a whole white-space-free run, entered from a boundary, pushes
/// exactly one new token: the run itself.
proof fn lemma_tokens_token_step(s: Seq<char>, start: int, end: int)
    requires
        0 <= start < end <= s.len(),
        forall|j: int| start <= j < end ==> !is_space(s[j]),
        start == 0 || is_space(s[start - 1]),
    ensures
        tokens(s.take(end)) == tokens(s.take(start)).push(s.subrange(start, end)),
    decreases end - start,
{
    let t = s.take(end);
    assert(t.drop_last() =~= s.take(end - 1));
    assert(t.last() == s[end - 1]);
    assert(!is_space(t.last()));
    if end == start + 1 {
        if start == 0 {
            assert(t.len() == 1);
        } else {
            assert(t[t.len() - 2] == s[start - 1]);
            assert(is_space(t[t.len() - 2]));
        }
        assert(tokens(t) == tokens(s.take(start)).push(seq![s[start]]));
        assert(seq![s[start]] =~= s.subrange(start, end));
    } else {
        lemma_tokens_token_step(s, start, end - 1);
        let x = tokens(s.take(start));
        let prev = x.push(s.subrange(start, end - 1));
        assert(tokens(s.take(end - 1)) == prev);
        assert(t.len() >= 2);
        assert(t[t.len() - 2] == s[end - 2]);
        assert(!is_space(t[t.len() - 2]));
        assert(tokens(t) == prev.update(prev.len() - 1, prev.last().push(s[end - 1])));
        assert(prev.last() == s.subrange(start, end - 1));
        assert(s.subrange(start, end - 1).push(s[end - 1]) =~= s.subrange(start, end));
        assert(prev.update(prev.len() - 1, prev.last().push(s[end - 1])) =~= x.push(
            s.subrange(start, end),
        ));
    }
}

/// Splits `s` into its tokens.
pub fn tokenize(s: &str) -> (r: Vec<String>)
    ensures
        r.deep_view() == tokens(s@),
{
    let n = s.unicode_len();
    let mut r: Vec<String> = Vec::new();
    let mut i: usize = 0;
    while i < n
        invariant
            i <= n,
            n == s@.len(),
            r.deep_view() == tokens(s@.take(i as int)),
            i < n && !is_space(s@[i as int]) ==> i == 0 || is_space(s@[i - 1]),
        decreases n - i,
    {
        if is_space_char(s.get_char(i)) {
            proof {
                lemma_tokens_space_step(s@, i as int);
            }
            i = i + 1;
        } else {
            let ghost pre = r.deep_view();
            let start = i;
            i = i + 1;
            while i < n && !is_space_char(s.get_char(i))
                invariant
                    start < i <= n,
                    n == s@.len(),
                    forall|j: int| start <= j < i ==> !is_space(s@[j]),
                    start == 0 || is_space(s@[start - 1]),
                decreases n - i,
            {
                i = i + 1;
            }
            let tok = s.substring_char(start, i);
            let t = String::from_str(tok);
            r.push(t);
            proof {
                lemma_tokens_token_step(s@, start as int, i as int);
                assert(r.deep_view() =~= pre.push(s@.subrange(start as int, i as int)));
            }
        }
    }
    proof {
        assert(s@.take(n as int) =~= s@);
    }
    r
}

} // verus!
