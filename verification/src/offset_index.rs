//! The lookup from byte positions of a source string to the grapheme
//! cluster each byte belongs to.

use unicode_segmentation::UnicodeSegmentation;
use vstd::prelude::*;
use vstd::string::StringSliceAdditionalSpecFns;
use vstd::utf8::encode_utf8;

verus! {

/// The byte offsets at which the extended grapheme clusters of `s` begin,
/// in document order, as `unicode_segmentation` reports them.
pub uninterp spec fn grapheme_starts(s: Seq<char>) -> Seq<usize>;

/// The number of bytes that `s` occupies in UTF-8.
pub open spec fn byte_len(s: Seq<char>) -> int {
    encode_utf8(s).len() as int
}

/// `starts` are the first bytes of the clusters that partition `len` bytes:
/// the first cluster begins at byte 0, each later one begins after the one
/// before it, and every cluster begins inside the text.
pub open spec fn is_segmentation(starts: Seq<usize>, len: int) -> bool {
    &&& len > 0 ==> starts.len() > 0 && starts[0] == 0
    &&& forall|i: int| 0 <= i < starts.len() ==> (#[trigger] starts[i]) < len
    &&& strictly_increasing(starts)
}

/// One past the last byte of cluster `i`.
pub open spec fn cluster_end(starts: Seq<usize>, len: int, i: int) -> int {
    if i + 1 < starts.len() {
        starts[i + 1] as int
    } else {
        len
    }
}

/// The index of the last cluster that begins at or before byte `b`
/// (-1 when none does).
pub open spec fn cluster_at(starts: Seq<usize>, b: int) -> int
    decreases starts.len(),
{
    if starts.len() == 0 {
        -1
    } else if starts.last() <= b {
        starts.len() - 1
    } else {
        cluster_at(starts.drop_last(), b)
    }
}

/// The lookup for a text of `len` bytes whose clusters begin at `starts`:
/// entry `b` is the index of the cluster that holds byte `b`.
pub open spec fn offset_index(starts: Seq<usize>, len: int) -> Seq<usize> {
    Seq::new(len as nat, |b: int| cluster_at(starts, b) as usize)
}

/// The lookup of the string `s`.
pub open spec fn offset_index_of(s: Seq<char>) -> Seq<usize> {
    offset_index(grapheme_starts(s), byte_len(s))
}

/// Calls `UnicodeSegmentation::grapheme_indices(s, true)` and keeps the byte
/// offset of each cluster. Trusted: the offsets are `grapheme_starts` of the
/// string, and they partition its bytes (the iterator starts at offset 0,
/// yields non-empty consecutive slices of the string and stops at its end).
#[verifier::external_body]
fn grapheme_offsets(s: &str) -> (offsets: Vec<usize>)
    ensures
        offsets@ == grapheme_starts(s@),
        is_segmentation(offsets@, byte_len(s@)),
{
    s.grapheme_indices(true).map(|cluster| cluster.0).collect()
}

/// Each start lies before the next.
pub open spec fn strictly_increasing(starts: Seq<usize>) -> bool {
    forall|i: int, j: int| 0 <= i < j < starts.len() ==> (#[trigger] starts[i]) < (#[trigger] starts[j])
}

/// Where the starts increase, a byte at or after the start of cluster `i`
/// and before the start of the next cluster has `i` as the last cluster
/// beginning at or before it.
pub proof fn lemma_cluster_at(starts: Seq<usize>, i: int, b: int)
    requires
        strictly_increasing(starts),
        0 <= i < starts.len(),
        starts[i] <= b,
        i + 1 < starts.len() ==> b < starts[i + 1],
    ensures
        cluster_at(starts, b) == i,
    decreases starts.len(),
{
    if i + 1 < starts.len() {
        let shorter = starts.drop_last();
        assert(starts.last() > b) by {
            if i + 1 < starts.len() - 1 {
                assert(starts[i + 1] < starts[starts.len() - 1]);
            }
        }
        assert(strictly_increasing(shorter)) by {
            assert forall|j: int, k: int| 0 <= j < k < shorter.len() implies (#[trigger] shorter[j]) < (#[trigger] shorter[k]) by {
                assert(starts[j] < starts[k]);
            }
        }
        lemma_cluster_at(shorter, i, b);
    }
}

/// The cluster found for byte `b` begins at or before `b`, and every later
/// cluster begins after `b`.
pub proof fn lemma_cluster_at_is_last(starts: Seq<usize>, b: int)
    ensures
        -1 <= cluster_at(starts, b) < starts.len(),
        cluster_at(starts, b) >= 0 ==> starts[cluster_at(starts, b)] <= b,
        forall|k: int| cluster_at(starts, b) < k < starts.len() ==> (#[trigger] starts[k]) > b,
    decreases starts.len(),
{
    if starts.len() > 0 && starts.last() > b {
        let shorter = starts.drop_last();
        lemma_cluster_at_is_last(shorter, b);
        assert forall|k: int| cluster_at(starts, b) < k < starts.len() implies (#[trigger] starts[k]) > b by {
            if k < shorter.len() {
                assert(shorter[k] == starts[k]);
            }
        }
    }
}

/// Where the starts increase, cluster `i` begins at byte `i` or later.
pub proof fn lemma_start_at_least_index(starts: Seq<usize>, i: int)
    requires
        strictly_increasing(starts),
        0 <= i < starts.len(),
    ensures
        i <= starts[i],
    decreases i,
{
    if i > 0 {
        lemma_start_at_least_index(starts, i - 1);
        assert(starts[i - 1] < starts[i]);
    }
}

/// Every byte of cluster `i` is mapped to `i`.
pub open spec fn maps_clusters(lookup: Seq<usize>, starts: Seq<usize>, len: int) -> bool {
    forall|i: int, b: int|
        #![trigger starts[i], lookup[b]]
        0 <= i < starts.len() && starts[i] <= b < cluster_end(starts, len, i) ==> lookup[b] == i
}

/// The entries begin at 0 and each is the one before it or that plus one.
pub open spec fn rises_by_steps(lookup: Seq<usize>) -> bool {
    &&& lookup.len() > 0 ==> lookup[0] == 0
    &&& forall|b: int|
        0 <= b && b + 1 < lookup.len() ==> (#[trigger] lookup[b]) <= lookup[b + 1] <= lookup[b] + 1
}

/// The shape of a lookup: it has one entry per byte, all bytes of one
/// cluster share that cluster's index, and the indices begin at 0, never
/// fall and skip no cluster; the last byte belongs to the last cluster.
pub proof fn lemma_offset_index_shape(starts: Seq<usize>, len: int)
    requires
        0 <= len,
        is_segmentation(starts, len),
    ensures
        offset_index(starts, len).len() == len,
        maps_clusters(offset_index(starts, len), starts, len),
        rises_by_steps(offset_index(starts, len)),
        forall|b: int| 0 <= b < len ==> (#[trigger] offset_index(starts, len)[b]) < starts.len(),
        len > 0 ==> offset_index(starts, len)[len - 1] == starts.len() - 1,
{
    let lookup = offset_index(starts, len);
    assert forall|i: int, b: int|
        #![trigger starts[i], lookup[b]]
        0 <= i < starts.len() && starts[i] <= b < cluster_end(starts, len, i) implies lookup[b]
        == i by {
        lemma_cluster_at(starts, i, b);
        lemma_start_at_least_index(starts, i);
        if i + 1 < starts.len() {
            assert(starts[i + 1] < len);
        }
    }
    assert forall|b: int| 0 <= b < len implies 0 <= (#[trigger] cluster_at(starts, b)) < starts.len() by {
        lemma_cluster_at_is_last(starts, b);
        assert(starts[0] <= b);
        lemma_start_at_least_index(starts, cluster_at(starts, b));
    }
    assert forall|b: int| 0 <= b && b + 1 < lookup.len() implies (#[trigger] lookup[b]) <= lookup[b
        + 1] <= lookup[b] + 1 by {
        let here = cluster_at(starts, b);
        let next = cluster_at(starts, b + 1);
        lemma_cluster_at_is_last(starts, b);
        lemma_cluster_at_is_last(starts, b + 1);
        assert(0 <= here < starts.len() && 0 <= next < starts.len());
        lemma_start_at_least_index(starts, here);
        lemma_start_at_least_index(starts, next);
        if next < here {
            assert(starts[here] > b + 1);
        }
        if next > here + 1 {
            assert(starts[here + 1] < starts[next]);
            assert(starts[here + 1] > b);
        }
    }
    if len > 0 {
        lemma_cluster_at(starts, 0, 0);
        assert(starts[starts.len() - 1] < len);
        lemma_cluster_at(starts, starts.len() - 1, len - 1);
        lemma_start_at_least_index(starts, starts.len() - 1);
    }
}

/// Building the lookup of one string twice gives the same lookup.
pub proof fn lemma_build_is_idempotent(s: Seq<char>, first: Seq<usize>, second: Seq<usize>)
    requires
        first == offset_index_of(s),
        second == offset_index_of(s),
    ensures
        first == second,
{
}

/// The lookup for a text of `len` bytes whose clusters begin at `starts`:
/// for each cluster in turn, one entry with its index for each of its
/// bytes.
pub fn lookup_from_starts(starts: &Vec<usize>, len: usize) -> (lookup: Vec<usize>)
    requires
        is_segmentation(starts@, len as int),
    ensures
        lookup@ == offset_index(starts@, len as int),
{
    let mut lookup: Vec<usize> = Vec::new();
    let mut index: usize = 0;
    while index < starts.len()
        invariant
            is_segmentation(starts@, len as int),
            0 <= index <= starts.len(),
            index < starts.len() ==> lookup@.len() == starts@[index as int],
            index == starts.len() ==> lookup@.len() == len,
            lookup@ == offset_index(starts@, len as int).take(lookup@.len() as int),
        decreases starts.len() - index,
    {
        let end: usize = if index + 1 < starts.len() {
            starts[index + 1]
        } else {
            len
        };
        assert(end == cluster_end(starts@, len as int, index as int));
        while lookup.len() < end
            invariant
                is_segmentation(starts@, len as int),
                0 <= index < starts.len(),
                end == cluster_end(starts@, len as int, index as int),
                starts@[index as int] <= lookup@.len() <= end <= len,
                lookup@ == offset_index(starts@, len as int).take(lookup@.len() as int),
            decreases end - lookup.len(),
        {
            proof {
                lemma_cluster_at(starts@, index as int, lookup@.len() as int);
            }
            lookup.push(index);
        }
        index += 1;
    }
    assert(lookup@ == offset_index(starts@, len as int));
    lookup
}

/// Builds the lookup from byte positions to cluster indices: one entry per
/// byte of `s`, holding the index of the extended grapheme cluster that the
/// byte belongs to.
pub fn build_offset_index_lookup(s: &str) -> (lookup: Vec<usize>)
    ensures
        lookup@ == offset_index_of(s@),
        lookup@.len() == byte_len(s@),
        is_segmentation(grapheme_starts(s@), byte_len(s@)),
        maps_clusters(lookup@, grapheme_starts(s@), byte_len(s@)),
        rises_by_steps(lookup@),
{
    let starts = grapheme_offsets(s);
    let len: usize = s.as_bytes().len();
    let lookup = lookup_from_starts(&starts, len);
    proof {
        lemma_offset_index_shape(starts@, len as int);
    }
    lookup
}

} // verus!
