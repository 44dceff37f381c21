//! The anchor of a parsed prefix: a fingerprint of a few samples of the
//! bytes already indexed, which tells an appended file from one rewritten
//! in place.
use vstd::prelude::*;

use crate::fingerprint::{fnv1a, hex16, FNV_OFFSET_BASIS, FNV_PRIME};
use crate::index_store::{decimal_string_u64, decimal_text};

verus! {

/// The most bytes one sample of the prefix holds.
pub const PREFIX_ANCHOR_SAMPLE_BYTES: u64 = 1024;

/// The length of each sample of a prefix of `p` bytes.
pub open spec fn sample_length(p: u64) -> u64 {
    if p < PREFIX_ANCHOR_SAMPLE_BYTES {
        p
    } else {
        PREFIX_ANCHOR_SAMPLE_BYTES
    }
}

/// Three quarters of `p`, computed with a saturating multiplication.
pub open spec fn three_quarters(p: u64) -> u64 {
    if 3 * p > u64::MAX {
        (u64::MAX / 4) as u64
    } else {
        ((3 * p) / 4) as u64
    }
}

pub open spec fn clamp_start(start: u64, p: u64) -> u64 {
    if start < p - sample_length(p) {
        start
    } else {
        (p - sample_length(p)) as u64
    }
}

/// Where the samples of a prefix of `p` bytes start: its start, its
/// quarter points and its last sample, each kept within the prefix.
pub open spec fn sample_start_candidates(p: u64) -> Seq<u64> {
    seq![
        clamp_start(0, p),
        clamp_start(p / 4, p),
        clamp_start(p / 2, p),
        clamp_start(three_quarters(p), p),
        clamp_start((p - sample_length(p)) as u64, p),
    ]
}

pub open spec fn strictly_increasing_u64(s: Seq<u64>) -> bool {
    forall|i: int, j: int| 0 <= i < j < s.len() ==> s[i] < s[j]
}

/// `after` holds the values of `before` and `x`, and no others.
pub open spec fn holds_with(after: Seq<u64>, before: Seq<u64>, x: u64) -> bool {
    forall|y: u64| #[trigger] after.contains(y) <==> (before.contains(y) || y == x)
}

#[verifier::spinoff_prover]
fn insert_sorted(values: &mut Vec<u64>, x: u64)
    requires
        strictly_increasing_u64(old(values)@),
    ensures
        strictly_increasing_u64(final(values)@),
        holds_with(final(values)@, old(values)@, x),
{
    let mut i: usize = 0;
    while i < values.len() && values[i] < x
        invariant
            i <= values@.len(),
            values@ == old(values)@,
            strictly_increasing_u64(values@),
            forall|k: int| 0 <= k < i ==> #[trigger] values@[k] < x,
        decreases values@.len() - i,
    {
        i = i + 1;
    }
    if i < values.len() && values[i] == x {
        assert forall|y: u64| values@.contains(y) <==> (old(values)@.contains(y) || y == x) by {
            if y == x {
                assert(values@[i as int] == y);
            }
        }
        assert(holds_with(values@, old(values)@, x));
        return;
    }
    let ghost before = values@;
    values.insert(i, x);
    assert(values@ =~= before.take(i as int).push(x) + before.skip(i as int));
    assert forall|y: u64| values@.contains(y) <==> (before.contains(y) || y == x) by {
        if before.contains(y) {
            let w = choose|w: int| 0 <= w < before.len() && before[w] == y;
            if w < i {
                assert(values@[w] == y);
            } else {
                assert(values@[w + 1] == y);
            }
        }
        if values@.contains(y) {
            let w = choose|w: int| 0 <= w < values@.len() && values@[w] == y;
            if w < i {
                assert(before[w] == y);
            } else if w > i {
                assert(before[w - 1] == y);
            }
        }
        if y == x {
            assert(values@[i as int] == x);
        }
    }
    assert(holds_with(values@, old(values)@, x));
}

/// The sample starts of a prefix of `parsed_offset` bytes, ascending and
/// without repeats; none for an empty prefix.
pub fn prefix_anchor_starts(parsed_offset: u64) -> (r: Vec<u64>)
    ensures
        strictly_increasing_u64(r@),
        parsed_offset == 0 ==> r@.len() == 0,
        parsed_offset > 0 ==> forall|x: u64|
            #[trigger] r@.contains(x) <==> sample_start_candidates(parsed_offset).contains(x),
{
    let mut starts: Vec<u64> = Vec::new();
    if parsed_offset == 0 {
        return starts;
    }
    let p = parsed_offset;
    let length = if p < PREFIX_ANCHOR_SAMPLE_BYTES {
        p
    } else {
        PREFIX_ANCHOR_SAMPLE_BYTES
    };
    let last = p - length;
    let three = if p > u64::MAX / 3 {
        u64::MAX / 4
    } else {
        (3 * p) / 4
    };
    assert(three == three_quarters(p)) by (nonlinear_arith)
        requires
            p > u64::MAX / 3 ==> three == u64::MAX / 4,
            p <= u64::MAX / 3 ==> three == (3 * p) / 4,
    ;
    let candidates = [0, p / 4, p / 2, three, last];
    let ghost c = sample_start_candidates(p);
    let mut k: usize = 0;
    while k < 5
        invariant
            k <= 5,
            c == sample_start_candidates(p),
            last == p - sample_length(p),
            candidates@ == seq![0u64, p / 4, p / 2, three_quarters(p), last],
            strictly_increasing_u64(starts@),
            forall|x: u64| #[trigger] starts@.contains(x) <==> c.take(k as int).contains(x),
        decreases 5 - k,
    {
        let start = if candidates[k] < last {
            candidates[k]
        } else {
            last
        };
        assert(start == c[k as int]);
        let ghost before = starts@;
        insert_sorted(&mut starts, start);
        assert(c.take(k + 1) =~= c.take(k as int).push(start));
        let ghost next = c.take(k + 1);
        let ghost prev = c.take(k as int);
        assert forall|x: u64| starts@.contains(x) <==> next.contains(x) by {
            assert(starts@.contains(x) <==> (before.contains(x) || x == start));
            assert(before.contains(x) <==> prev.contains(x));
            if x == start {
                assert(next[k as int] == x);
            }
            if next.contains(x) {
                let w = choose|w: int| 0 <= w < next.len() && #[trigger] next[w] == x;
                if w < k {
                    assert(prev[w] == x);
                }
            }
            if prev.contains(x) {
                let w = choose|w: int| 0 <= w < prev.len() && #[trigger] prev[w] == x;
                assert(next[w] == x);
            }
        }
        k = k + 1;
    }
    assert(c.take(5) =~= c);
    starts
}

/// The 8 little-endian bytes of a value.
pub open spec fn le_bytes(v: u64) -> Seq<u8> {
    Seq::new(8, |k: int| ((v >> ((8 * k) as u64)) & 255) as u8)
}

/// The bytes the anchor hashes: each sample's start and length, little
/// endian, then the sample.
pub open spec fn anchor_bytes(starts: Seq<u64>, lengths: Seq<u64>, samples: Seq<Seq<u8>>) -> Seq<u8>
    decreases starts.len(),
{
    if starts.len() == 0 {
        Seq::empty()
    } else {
        anchor_bytes(starts.drop_last(), lengths.drop_last(), samples.drop_last()) + le_bytes(
            starts.last(),
        ) + le_bytes(lengths.last()) + samples.last()
    }
}

/// The length of the sample that starts at `start`.
pub open spec fn sample_length_at(p: u64, start: u64) -> u64 {
    let rest = if start <= p {
        (p - start) as u64
    } else {
        0
    };
    if sample_length(p) < rest {
        sample_length(p)
    } else {
        rest
    }
}

/// How many bytes the sample at `start` of a prefix of `p` bytes holds.
pub fn prefix_sample_length(p: u64, start: u64) -> (r: u64)
    ensures
        r == sample_length_at(p, start),
{
    let sample_len = if p < PREFIX_ANCHOR_SAMPLE_BYTES {
        p
    } else {
        PREFIX_ANCHOR_SAMPLE_BYTES
    };
    let rest = if start <= p {
        p - start
    } else {
        0
    };
    if sample_len < rest {
        sample_len
    } else {
        rest
    }
}

/// The anchor text of a prefix whose samples were read.
pub open spec fn anchor_text(p: u64, starts: Seq<u64>, samples: Seq<Seq<u8>>) -> Seq<char> {
    "fnv1a64:"@ + hex16(
        fnv1a(
            FNV_OFFSET_BASIS,
            anchor_bytes(starts, starts.map_values(|s: u64| sample_length_at(p, s)), samples),
        ),
    ) + ":"@ + decimal_text(p as int)
}

fn hash_bytes(hash: u64, bytes: &[u8], Ghost(start): Ghost<Seq<u8>>) -> (r: u64)
    requires
        hash == fnv1a(FNV_OFFSET_BASIS, start),
    ensures
        r == fnv1a(FNV_OFFSET_BASIS, start + bytes@),
{
    let mut h = hash;
    let mut i: usize = 0;
    while i < bytes.len()
        invariant
            i <= bytes@.len(),
            h == fnv1a(FNV_OFFSET_BASIS, start + bytes@.take(i as int)),
        decreases bytes@.len() - i,
    {
        assert((start + bytes@.take(i + 1)).drop_last() =~= start + bytes@.take(i as int));
        h = (h ^ bytes[i] as u64).wrapping_mul(FNV_PRIME);
        i = i + 1;
    }
    assert(bytes@.take(bytes@.len() as int) =~= bytes@);
    h
}

fn le_array(v: u64) -> (r: [u8; 8])
    ensures
        r@ == le_bytes(v),
{
    let r = [
        (v & 255) as u8,
        ((v >> 8) & 255) as u8,
        ((v >> 16) & 255) as u8,
        ((v >> 24) & 255) as u8,
        ((v >> 32) & 255) as u8,
        ((v >> 40) & 255) as u8,
        ((v >> 48) & 255) as u8,
        ((v >> 56) & 255) as u8,
    ];
    assert(v == v >> 0u64) by (bit_vector);
    assert(r@ =~= le_bytes(v));
    r
}

/// The anchor of a prefix of `parsed_offset` bytes from the samples read
/// at `starts` (those of `prefix_anchor_starts`); none for an empty prefix.
pub fn prefix_anchor(parsed_offset: u64, starts: &Vec<u64>, samples: &Vec<Vec<u8>>) -> (r: Option<
    String,
>)
    requires
        starts@.len() == samples@.len(),
    ensures
        parsed_offset == 0 ==> r is None,
        parsed_offset > 0 ==> (r matches Some(t) && t@ == anchor_text(
            parsed_offset,
            starts@,
            samples@.map_values(|s: Vec<u8>| s@),
        )),
{
    if parsed_offset == 0 {
        return None;
    }
    let p = parsed_offset;
    let ghost lengths_all = starts@.map_values(|s: u64| sample_length_at(p, s));
    let ghost samples_all = samples@.map_values(|s: Vec<u8>| s@);
    let mut hash = FNV_OFFSET_BASIS;
    let mut i: usize = 0;
    while i < starts.len()
        invariant
            i <= starts@.len(),
            starts@.len() == samples@.len(),
            lengths_all == starts@.map_values(|s: u64| sample_length_at(p, s)),
            samples_all == samples@.map_values(|s: Vec<u8>| s@),
            hash == fnv1a(
                FNV_OFFSET_BASIS,
                anchor_bytes(
                    starts@.take(i as int),
                    lengths_all.take(i as int),
                    samples_all.take(i as int),
                ),
            ),
        decreases starts@.len() - i,
    {
        let start = starts[i];
        let length = prefix_sample_length(p, start);
        assert(length == lengths_all[i as int]);
        let ghost b0 = anchor_bytes(
            starts@.take(i as int),
            lengths_all.take(i as int),
            samples_all.take(i as int),
        );
        let start_bytes = le_array(start);
        hash = hash_bytes(hash, &start_bytes, Ghost(b0));
        let length_bytes = le_array(length);
        hash = hash_bytes(hash, &length_bytes, Ghost(b0 + le_bytes(start)));
        hash = hash_bytes(hash, samples[i].as_slice(), Ghost(b0 + le_bytes(start) + le_bytes(length)));
        assert(starts@.take(i + 1).drop_last() =~= starts@.take(i as int));
        assert(lengths_all.take(i + 1).drop_last() =~= lengths_all.take(i as int));
        assert(samples_all.take(i + 1).drop_last() =~= samples_all.take(i as int));
        assert(samples_all[i as int] == samples@[i as int]@);
        assert(anchor_bytes(starts@.take(i + 1), lengths_all.take(i + 1), samples_all.take(i + 1))
            =~= b0 + le_bytes(start) + le_bytes(length) + samples@[i as int]@);
        i = i + 1;
    }
    assert(starts@.take(starts@.len() as int) =~= starts@);
    assert(lengths_all.take(starts@.len() as int) =~= lengths_all);
    assert(samples_all.take(starts@.len() as int) =~= samples_all);
    let mut out = crate::fingerprint::hex16_string(hash, "fnv1a64:");
    out.append(":");
    let digits = decimal_string_u64(p);
    out.append(digits.as_str());
    Some(out)
}

} // verus!
