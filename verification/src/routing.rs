//! Ordering of peers by round-trip time.

use vstd::prelude::*;

use crate::discovery::LocalPeer;

verus! {

/// Engine that decides in which order peers are contacted.
pub struct RoutingEngine;

/// The peers are in ascending order of round-trip time.
pub open spec fn sorted_by_rtt(s: Seq<LocalPeer>) -> bool {
    forall|i: int, j: int| 0 <= i < j < s.len() ==> s[i].rtt_us <= s[j].rtt_us
}

/// `out` is `input` rearranged by the index map `p` (`out[i]` is
/// `input[p[i]]`, and `p` is a permutation of the indices), and peers
/// with equal round-trip time keep the order in which they were given.
pub open spec fn stable_rearrangement(input: Seq<LocalPeer>, out: Seq<LocalPeer>, p: Seq<int>) -> bool {
    &&& out.len() == input.len()
    &&& p.len() == input.len()
    &&& forall|i: int| 0 <= i < p.len() ==> 0 <= #[trigger] p[i] < input.len()
    &&& forall|i: int| 0 <= i < p.len() ==> #[trigger] out[i] == input[p[i]]
    &&& forall|i: int, j: int| 0 <= i < j < p.len() ==> p[i] != p[j]
    &&& forall|k: int| 0 <= k < input.len() ==> #[trigger] has_preimage(p, k)
    &&& forall|i: int, j: int|
        0 <= i < j < p.len() && #[trigger] out[i].rtt_us == #[trigger] out[j].rtt_us ==> p[i] < p[j]
}

/// Some index maps to `k` under `p`.
pub open spec fn has_preimage(p: Seq<int>, k: int) -> bool {
    exists|i: int| 0 <= i < p.len() && p[i] == k
}

/// `out` is the stable sort of `input` by round-trip time.
pub open spec fn is_stable_sort(input: Seq<LocalPeer>, out: Seq<LocalPeer>) -> bool {
    &&& sorted_by_rtt(out)
    &&& exists|p: Seq<int>| stable_rearrangement(input, out, p)
}

impl RoutingEngine {
    /// Orders peers by ascending round-trip time so that the fastest is
    /// tried first; peers with equal times keep their order.
    pub fn prioritize_peers(peers: Vec<LocalPeer>) -> (sorted: Vec<LocalPeer>)
        ensures
            is_stable_sort(peers@, sorted@),
    {
        let ghost input = peers@;
        let n = peers.len();
        let mut rest = peers;
        let mut out: Vec<LocalPeer> = Vec::new();
        let ghost mut p: Seq<int> = Seq::empty();
        let mut i: usize = 0;
        while i < n
            invariant
                n == input.len(),
                i <= n,
                rest@ == input.subrange(i as int, n as int),
                out@.len() == i,
                sorted_by_rtt(out@),
                p.len() == i,
                forall|k: int| 0 <= k < i ==> 0 <= #[trigger] p[k] < i,
                forall|k: int| 0 <= k < i ==> #[trigger] out@[k] == input[p[k]],
                forall|a: int, b: int| 0 <= a < b < i ==> p[a] != p[b],
                forall|k: int| 0 <= k < i ==> #[trigger] has_preimage(p, k),
                forall|a: int, b: int|
                    0 <= a < b < i && #[trigger] out@[a].rtt_us == #[trigger] out@[b].rtt_us
                        ==> p[a] < p[b],
            decreases n - i,
        {
            let x = rest.remove(0);
            assert(x == input[i as int]);
            let key = x.rtt_us;
            let mut pos = out.len();
            while pos > 0 && out[pos - 1].rtt_us > key
                invariant
                    pos <= out@.len(),
                    forall|k: int| pos <= k < out@.len() ==> #[trigger] out@[k].rtt_us > key,
                decreases pos,
            {
                pos = pos - 1;
            }
            let ghost old_out = out@;
            let ghost old_p = p;
            out.insert(pos, x);
            proof {
                p = old_p.insert(pos as int, i as int);
                old_out.insert_ensures(pos as int, x);
                old_p.insert_ensures(pos as int, i as int);
                assert forall|a: int, b: int| 0 <= a < b < out@.len() implies out@[a].rtt_us
                    <= out@[b].rtt_us by {
                    if a < pos && b < pos {
                        assert(out@[a] == old_out[a] && out@[b] == old_out[b]);
                    } else if a < pos && b == pos {
                        assert(out@[a] == old_out[a]);
                        assert(old_out[a].rtt_us <= old_out[pos - 1].rtt_us);
                    } else if a < pos {
                        assert(out@[a] == old_out[a] && out@[b] == old_out[b - 1]);
                    } else if a == pos {
                        assert(out@[b] == old_out[b - 1]);
                    } else {
                        assert(out@[a] == old_out[a - 1] && out@[b] == old_out[b - 1]);
                    }
                }
                assert forall|k: int| 0 <= k < i + 1 implies 0 <= #[trigger] p[k] < i + 1
                    && out@[k] == input[p[k]] by {
                    if k < pos {
                        assert(p[k] == old_p[k] && out@[k] == old_out[k]);
                    } else if k > pos {
                        assert(p[k] == old_p[k - 1] && out@[k] == old_out[k - 1]);
                    }
                }
                assert forall|a: int, b: int| 0 <= a < b < i + 1 implies p[a] != p[b] by {
                    if a < pos && b < pos {
                        assert(p[a] == old_p[a] && p[b] == old_p[b]);
                    } else if a < pos && b > pos {
                        assert(p[a] == old_p[a] && p[b] == old_p[b - 1]);
                    } else if a > pos {
                        assert(p[a] == old_p[a - 1] && p[b] == old_p[b - 1]);
                    } else if a == pos {
                        assert(p[b] == old_p[b - 1]);
                    } else {
                        assert(p[a] == old_p[a]);
                    }
                }
                assert forall|k: int| 0 <= k < i + 1 implies #[trigger] has_preimage(p, k) by {
                    if k == i {
                        assert(p[pos as int] == k);
                    } else {
                        assert(has_preimage(old_p, k));
                        let j0 = choose|j: int| 0 <= j < old_p.len() && old_p[j] == k;
                        if j0 < pos {
                            assert(p[j0] == k);
                        } else {
                            assert(p[j0 + 1] == k);
                        }
                    }
                }
                assert forall|a: int, b: int|
                    0 <= a < b < i + 1 && #[trigger] out@[a].rtt_us == #[trigger] out@[b].rtt_us
                        implies p[a] < p[b] by {
                    if a < pos && b < pos {
                        assert(p[a] == old_p[a] && p[b] == old_p[b]);
                        assert(out@[a] == old_out[a] && out@[b] == old_out[b]);
                    } else if a < pos && b > pos {
                        assert(p[a] == old_p[a] && p[b] == old_p[b - 1]);
                        assert(out@[a] == old_out[a] && out@[b] == old_out[b - 1]);
                    } else if a > pos {
                        assert(p[a] == old_p[a - 1] && p[b] == old_p[b - 1]);
                        assert(out@[a] == old_out[a - 1] && out@[b] == old_out[b - 1]);
                    } else if a == pos {
                        assert(out@[b] == old_out[b - 1]);
                    } else {
                        assert(p[a] == old_p[a]);
                    }
                }
            }
            i = i + 1;
        }
        assert(stable_rearrangement(input, out@, p));
        out
    }
}

proof fn lemma_increasing_index_map_is_identity(p: Seq<int>, n: int)
    requires
        p.len() == n,
        forall|i: int| 0 <= i < n ==> 0 <= #[trigger] p[i] < n,
        forall|i: int, j: int| 0 <= i < j < n ==> p[i] < p[j],
    ensures
        forall|i: int| 0 <= i < n ==> #[trigger] p[i] == i,
{
    assert forall|i: int| 0 <= i < n implies #[trigger] p[i] >= i by {
        lemma_lower_bound(p, n, i);
    }
    assert forall|i: int| 0 <= i < n implies #[trigger] p[i] <= i by {
        lemma_upper_bound(p, n, i);
    }
}

proof fn lemma_lower_bound(p: Seq<int>, n: int, i: int)
    requires
        p.len() == n,
        0 <= i < n,
        forall|k: int| 0 <= k < n ==> 0 <= #[trigger] p[k] < n,
        forall|a: int, b: int| 0 <= a < b < n ==> p[a] < p[b],
    ensures
        p[i] >= i,
    decreases i,
{
    if i > 0 {
        lemma_lower_bound(p, n, i - 1);
    }
}

proof fn lemma_upper_bound(p: Seq<int>, n: int, i: int)
    requires
        p.len() == n,
        0 <= i < n,
        forall|k: int| 0 <= k < n ==> 0 <= #[trigger] p[k] < n,
        forall|a: int, b: int| 0 <= a < b < n ==> p[a] < p[b],
    ensures
        p[i] <= i,
    decreases n - i,
{
    if i < n - 1 {
        lemma_upper_bound(p, n, i + 1);
    }
}

/// Ordering peers that are already in ascending order of round-trip
/// time leaves them as they are.
pub proof fn law_prioritize_sorted_is_identity(input: Seq<LocalPeer>, out: Seq<LocalPeer>)
    requires
        sorted_by_rtt(input),
        is_stable_sort(input, out),
    ensures
        out == input,
{
    let p = choose|p: Seq<int>| stable_rearrangement(input, out, p);
    let n = input.len() as int;
    assert forall|i: int, j: int| 0 <= i < j < n implies p[i] < p[j] by {
        if p[i] > p[j] {
            assert(out[i] == input[p[i]]);
            assert(out[j] == input[p[j]]);
            assert(input[p[j]].rtt_us <= input[p[i]].rtt_us);
            assert(out[i].rtt_us <= out[j].rtt_us);
        }
    }
    lemma_increasing_index_map_is_identity(p, n);
    assert forall|i: int| 0 <= i < n implies out[i] == input[i] by {
        assert(p[i] == i);
    }
    assert(out =~= input);
}

/// Input index `a` comes before input index `b` in the stable order:
/// smaller round-trip time first, the earlier index on ties.
pub open spec fn stable_before(input: Seq<LocalPeer>, a: int, b: int) -> bool {
    input[a].rtt_us < input[b].rtt_us || (input[a].rtt_us == input[b].rtt_us && a < b)
}

proof fn lemma_stable_sort_increasing(input: Seq<LocalPeer>, out: Seq<LocalPeer>, p: Seq<int>)
    requires
        sorted_by_rtt(out),
        stable_rearrangement(input, out, p),
    ensures
        forall|i: int, j: int| 0 <= i < j < p.len() ==> stable_before(input, p[i], p[j]),
{
    assert forall|i: int, j: int| 0 <= i < j < p.len() implies stable_before(input, p[i], p[j]) by {
        assert(out[i] == input[p[i]]);
        assert(out[j] == input[p[j]]);
        assert(out[i].rtt_us <= out[j].rtt_us);
    }
}

proof fn lemma_prefix_equal(input: Seq<LocalPeer>, p1: Seq<int>, p2: Seq<int>, i: int)
    requires
        p1.len() == input.len(),
        p2.len() == input.len(),
        0 <= i < input.len(),
        forall|k: int| 0 <= k < p1.len() ==> 0 <= #[trigger] p1[k] < input.len(),
        forall|k: int| 0 <= k < p2.len() ==> 0 <= #[trigger] p2[k] < input.len(),
        forall|a: int, b: int| 0 <= a < b < p1.len() ==> p1[a] != p1[b],
        forall|a: int, b: int| 0 <= a < b < p2.len() ==> p2[a] != p2[b],
        forall|k: int| 0 <= k < input.len() ==> #[trigger] has_preimage(p1, k),
        forall|k: int| 0 <= k < input.len() ==> #[trigger] has_preimage(p2, k),
        forall|a: int, b: int| 0 <= a < b < p1.len() ==> stable_before(input, p1[a], p1[b]),
        forall|a: int, b: int| 0 <= a < b < p2.len() ==> stable_before(input, p2[a], p2[b]),
    ensures
        forall|j: int| 0 <= j <= i ==> p1[j] == p2[j],
    decreases i,
{
    if i > 0 {
        lemma_prefix_equal(input, p1, p2, i - 1);
    }
    assert(has_preimage(p1, p2[i]));
    let j1 = choose|j: int| 0 <= j < p1.len() && p1[j] == p2[i];
    if j1 < i {
        assert(p2[j1] == p1[j1]);
        assert(false);
    }
    assert(has_preimage(p2, p1[i]));
    let j2 = choose|j: int| 0 <= j < p2.len() && p2[j] == p1[i];
    if j2 < i {
        assert(p1[j2] == p2[j2]);
        assert(false);
    }
    if p1[i] != p2[i] {
        assert(j1 > i && j2 > i);
        assert(stable_before(input, p1[i], p1[j1]));
        assert(stable_before(input, p2[i], p2[j2]));
        assert(false);
    }
}

/// The ordering is fully determined: any two results that meet the
/// contract of `prioritize_peers` for the same input are equal.
pub proof fn law_stable_sort_unique(input: Seq<LocalPeer>, out1: Seq<LocalPeer>, out2: Seq<LocalPeer>)
    requires
        is_stable_sort(input, out1),
        is_stable_sort(input, out2),
    ensures
        out1 == out2,
{
    let p1 = choose|p: Seq<int>| stable_rearrangement(input, out1, p);
    let p2 = choose|p: Seq<int>| stable_rearrangement(input, out2, p);
    lemma_stable_sort_increasing(input, out1, p1);
    lemma_stable_sort_increasing(input, out2, p2);
    if input.len() > 0 {
        lemma_prefix_equal(input, p1, p2, input.len() - 1);
        assert forall|i: int| 0 <= i < input.len() implies out1[i] == out2[i] by {
            assert(p1[i] == p2[i]);
        }
    }
    assert(out1 =~= out2);
}

} // verus!
