//! Segmentation: the token sequence is cut into consecutive slices of at
//! most `m` tokens each; the slices cover the whole sequence, in order,
//! without overlap.

use vstd::prelude::*;

verus! {

/// How many segments a sequence of `n` tokens yields under limit `m`: the
/// least number of slices of at most `m` tokens that cover all `n`, which
/// is `n / m` rounded up. Zero tokens yield zero segments.
pub open spec fn num_segments(n: int, m: int) -> int {
    (n + m - 1) / m
}

/// Where segment `i` ends: `m` tokens past its start, capped at the end of
/// the token sequence.
pub open spec fn segment_end(n: int, m: int, i: int) -> int {
    if (i + 1) * m <= n {
        (i + 1) * m
    } else {
        n
    }
}

/// The tokens of segment `i`: the slice from `i * m` to [`segment_end`].
pub open spec fn segment_tokens(toks: Seq<Seq<char>>, m: int, i: int) -> Seq<Seq<char>> {
    toks.subrange(i * m, segment_end(toks.len() as int, m, i))
}

/// All segments of `toks` under limit `m`, in order.
pub open spec fn segments(toks: Seq<Seq<char>>, m: int) -> Seq<Seq<Seq<char>>> {
    Seq::new(num_segments(toks.len() as int, m) as nat, |i: int| segment_tokens(toks, m, i))
}

/// The segment count is zero exactly on an empty token sequence, and
/// otherwise is the least count whose segments of `m` tokens reach `n`.
pub proof fn lemma_segment_count(n: int, m: int)
    requires
        m >= 1,
        n >= 0,
    ensures
        num_segments(n, m) == (n + m - 1) / m,
        n == 0 ==> num_segments(n, m) == 0,
        n > 0 ==> n <= num_segments(n, m) * m < n + m,
{
    if n == 0 {
        assert((m - 1) / m == 0) by (nonlinear_arith)
            requires
                m >= 1,
        ;
    } else {
        assert(n <= ((n + m - 1) / m) * m < n + m) by (nonlinear_arith)
            requires
                m >= 1,
                n > 0,
        ;
    }
}

/// A non-empty token sequence splits as one leading segment followed by the
/// segments of what remains.
proof fn lemma_segments_step(toks: Seq<Seq<char>>, m: int)
    requires
        m >= 1,
        toks.len() > 0,
    ensures
        num_segments(toks.len() as int, m) == 1 + num_segments(
            toks.skip(segment_end(toks.len() as int, m, 0)).len() as int,
            m,
        ),
        segments(toks, m) =~~= seq![segment_tokens(toks, m, 0)] + segments(
            toks.skip(segment_end(toks.len() as int, m, 0)),
            m,
        ),
{
    let n = toks.len() as int;
    let k = segment_end(n, m, 0);
    assert(1 * m == m) by (nonlinear_arith);
    let rest = toks.skip(k);
    lemma_segment_count(n, m);
    if n <= m {
        assert(k == n);
        assert(num_segments(n, m) == 1) by (nonlinear_arith)
            requires
                m >= 1,
                0 < n <= m,
        ;
        assert(num_segments(0, m) == 0) by (nonlinear_arith)
            requires
                m >= 1,
        ;
        assert(rest.len() == 0);
        assert(segment_tokens(toks, m, 0) =~= toks);
        assert(segments(toks, m) =~~= seq![segment_tokens(toks, m, 0)] + segments(rest, m));
    } else {
        assert(k == m);
        assert(rest.len() == n - m);
        assert(num_segments(n, m) == 1 + num_segments(n - m, m)) by (nonlinear_arith)
            requires
                m >= 1,
                n > m,
        ;
        let c = num_segments(n, m);
        assert(c * m < n + m);
        assert forall|i: int| 1 <= i < c implies segment_tokens(toks, m, i) == segment_tokens(
            rest,
            m,
            i - 1,
        ) by {
            assert(i * m < n && (i - 1) * m == i * m - m && (i + 1) * m == i * m + m)
                by (nonlinear_arith)
                requires
                    m >= 1,
                    1 <= i < c,
                    c * m < n + m,
            ;
            assert(segment_end(n - m, m, i - 1) == segment_end(n, m, i) - m);
            assert(segment_tokens(rest, m, i - 1) =~= toks.subrange(i * m, segment_end(n, m, i)));
        }
        assert(segments(toks, m) =~~= seq![segment_tokens(toks, m, 0)] + segments(rest, m));
    }
}

/// Partition law: the ordered concatenation of all segments' token lists is
/// exactly the original token sequence; no token is dropped or duplicated.
pub proof fn lemma_segments_partition(toks: Seq<Seq<char>>, m: int)
    requires
        m >= 1,
    ensures
        segments(toks, m).flatten() == toks,
    decreases toks.len(),
{
    if toks.len() == 0 {
        lemma_segment_count(0, m);
        assert(segments(toks, m).len() == 0);
        assert(segments(toks, m).flatten() =~= toks);
    } else {
        let n = toks.len() as int;
        let k = segment_end(n, m, 0);
        let rest = toks.skip(k);
        lemma_segments_step(toks, m);
        assert(1 * m == m) by (nonlinear_arith);
        assert(k >= 1);
        lemma_segments_partition(rest, m);
        let whole = seq![segment_tokens(toks, m, 0)] + segments(rest, m);
        assert(whole.first() == segment_tokens(toks, m, 0));
        assert(whole.drop_first() =~~= segments(rest, m));
        assert(whole.flatten() == segment_tokens(toks, m, 0) + segments(rest, m).flatten());
        assert(segment_tokens(toks, m, 0) =~= toks.take(k));
        assert(toks.take(k) + toks.skip(k) =~= toks);
    }
}

/// Cuts the tokens into consecutive slices of at most `m` tokens. The
/// result has exactly `ceil(len / m)` slices; slice `i` holds the tokens
/// from position `i * m` up to `i * m + m` (capped at the end), in order.
pub fn split_into_segments(toks: &Vec<String>, m: usize) -> (segs: Vec<Vec<String>>)
    requires
        m >= 1,
    ensures
        segs.deep_view() == segments(toks.deep_view(), m as int),
        segs@.len() == num_segments(toks@.len() as int, m as int),
{
    let n = toks.len();
    let mut segs: Vec<Vec<String>> = Vec::new();
    proof {
        assert(segs@.len() * m == 0) by (nonlinear_arith)
            requires
                segs@.len() == 0,
        ;
    }
    let mut start: usize = 0;
    while start < n
        invariant
            m >= 1,
            n == toks@.len(),
            start <= n,
            segs@.len() * m <= n ==> start == segs@.len() * m,
            segs@.len() * m > n ==> start == n,
            segs@.len() == 0 ==> start == 0,
            segs@.len() >= 1 ==> (segs@.len() - 1) * m < n,
            forall|i: int|
                0 <= i < segs@.len() ==> segs.deep_view()[i] == segment_tokens(
                    toks.deep_view(),
                    m as int,
                    i,
                ),
        decreases n - start,
    {
        let ghost k = segs@.len() as int;
        proof {
            assert(start == k * m) by {
                if k * m > n {
                    assert(start == n);
                    assert(false);
                }
            }
        }
        let end = if n - start < m {
            n
        } else {
            start + m
        };
        proof {
            assert((k + 1) * m == k * m + m) by (nonlinear_arith);
            assert(end == segment_end(n as int, m as int, k));
        }
        let mut part: Vec<String> = Vec::new();
        proof {
            assert(part.deep_view() =~= toks.deep_view().subrange(start as int, start as int));
        }
        let mut j = start;
        while j < end
            invariant
                start <= j <= end,
                end <= n == toks@.len(),
                part.deep_view() == toks.deep_view().subrange(start as int, j as int),
            decreases end - j,
        {
            let ghost prev = part.deep_view();
            let t = toks[j].clone();
            proof {
                assert(t.deep_view() == toks.deep_view()[j as int]);
            }
            part.push(t);
            proof {
                assert(part.deep_view() =~= prev.push(toks.deep_view()[j as int]));
                assert(part.deep_view() =~= toks.deep_view().subrange(start as int, j + 1));
            }
            j = j + 1;
        }
        let ghost pre = segs.deep_view();
        segs.push(part);
        proof {
            assert(segs.deep_view() =~= pre.push(part.deep_view()));
            assert(part.deep_view() == segment_tokens(toks.deep_view(), m as int, k));
        }
        start = end;
        proof {
            assert((k + 1) * m == k * m + m) by (nonlinear_arith);
        }
    }
    proof {
        let dv = toks.deep_view();
        let k = segs@.len() as int;
        lemma_segment_count(n as int, m as int);
        if n == 0 {
            assert(k == 0);
        } else {
            assert(k >= 1);
            assert(k * m >= n) by {
                if k * m < n {
                    assert(start == k * m);
                    assert(false);
                }
            }
            assert(k == num_segments(n as int, m as int)) by (nonlinear_arith)
                requires
                    m >= 1,
                    n >= 1,
                    k >= 1,
                    (k - 1) * m < n <= k * m,
                    num_segments(n as int, m as int) == (n as int + m as int - 1) / (m as int),
            ;
        }
        assert(segs.deep_view() =~~= segments(dv, m as int));
    }
    segs
}

} // verus!
