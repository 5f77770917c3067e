//! Drift analysis: walks the sampled headers window by window, measures the
//! timestamp drift of each contiguous pair, and ranks the drifts with a
//! bounded max-heap, stopping at the first record below the threshold.
use vstd::prelude::*;

use vstd::multiset::Multiset;

use crate::heap::BlockHeap;
use crate::BlockHeader;
use crate::BlockSampleData;
use crate::BlockStatistics;
use crate::BlockTimeDriftTable;
use crate::DriftAnalysis;
use crate::StatisticsError;

verus! {

/// Truncated (round toward zero) division of a number of seconds by 60,
/// matching what `i64::checked_div` computes.
pub open spec fn minutes_of(delta: int) -> int {
    if delta >= 0 {
        delta / 60
    } else {
        -((-delta) / 60)
    }
}

/// A measured pair starts at `i`: the block and its successor both exist and
/// sit inside the same window of `w` consecutive positions.
pub open spec fn pair_at(b: Seq<BlockHeader>, w: int, i: int) -> bool {
    0 <= i && i + 1 < b.len() && (i + 1) % w != 0
}

/// The timestamp difference of the pair starting at `i`, in seconds.
pub open spec fn delta_at(b: Seq<BlockHeader>, i: int) -> int {
    b[i + 1].time - b[i].time
}

/// The checked subtraction of the pair's timestamps succeeds.
pub open spec fn delta_ok(b: Seq<BlockHeader>, i: int) -> bool {
    i64::MIN <= delta_at(b, i) <= i64::MAX
}

/// The raw per-pair drifts in seconds, restricted to pairs starting before
/// position `k`, in order.  Pairs whose checked subtraction fails are
/// skipped.
pub open spec fn deltas_upto(b: Seq<BlockHeader>, w: int, k: int) -> Seq<i64>
    decreases k,
{
    if k <= 0 {
        Seq::empty()
    } else if pair_at(b, w, k - 1) && delta_ok(b, k - 1) {
        deltas_upto(b, w, k - 1).push(delta_at(b, k - 1) as i64)
    } else {
        deltas_upto(b, w, k - 1)
    }
}

/// The raw per-pair drifts in seconds over the whole sequence.
pub open spec fn spec_deltas(b: Seq<BlockHeader>, w: int) -> Seq<i64> {
    deltas_upto(b, w, b.len() as int)
}

/// The drift record of the measured pair starting at `i`.
pub open spec fn record_at(b: Seq<BlockHeader>, i: int) -> BlockTimeDriftTable {
    BlockTimeDriftTable {
        drift: minutes_of(delta_at(b, i)) as i64,
        parent_hash: b[i].hash,
        child_hash: b[i + 1].hash,
    }
}

/// The drift records of the measured pairs starting before position `k`, in
/// order.
pub open spec fn records_upto(b: Seq<BlockHeader>, w: int, k: int) -> Seq<BlockTimeDriftTable>
    decreases k,
{
    if k <= 0 {
        Seq::empty()
    } else if pair_at(b, w, k - 1) && delta_ok(b, k - 1) {
        records_upto(b, w, k - 1).push(record_at(b, k - 1))
    } else {
        records_upto(b, w, k - 1)
    }
}

/// The drift records of all measured pairs, in order.
pub open spec fn spec_records(b: Seq<BlockHeader>, w: int) -> Seq<BlockTimeDriftTable> {
    records_upto(b, w, b.len() as int)
}

/// The sequence is sorted by drift, largest first.
pub open spec fn sorted_desc(s: Seq<BlockTimeDriftTable>) -> bool {
    forall|i: int, j: int| 0 <= i < j < s.len() ==> s[i].drift >= s[j].drift
}

/// Everything the drift analysis promises of its result.
///
/// On the empty sample the analysis fails with the domain error; otherwise
/// it returns the raw drifts of every measured pair, and the ranked sample
/// holds exactly the records at or above the threshold (in minutes, by
/// truncated division), in descending drift order.
pub open spec fn drift_analysis_matches(
    b: Seq<BlockHeader>,
    drift_time: i64,
    window: u64,
    sample: bool,
    r: Result<DriftAnalysis, StatisticsError>,
) -> bool {
    let deltas = spec_deltas(b, window as int);
    let records = spec_records(b, window as int);
    let threshold = minutes_of(drift_time as int);
    match r {
        Result::Err(e) => deltas.len() == 0 && e == StatisticsError::EmptySample,
        Result::Ok(a) => deltas.len() > 0 && a.deltas_seconds@ == deltas && a.is_sample == sample
            && a.occurrences == a.ranked_sample@.len() && sorted_desc(a.ranked_sample@) && a.ranked_sample@.to_multiset()
            == records.to_multiset().filter(|rec: BlockTimeDriftTable| rec.drift >= threshold),
    }
}

/// Two sequences that are sorted by drift, largest first, and hold the same
/// multiset of records carry the same drifts at the same positions.
pub proof fn lemma_sorted_desc_unique_drifts(
    s1: Seq<BlockTimeDriftTable>,
    s2: Seq<BlockTimeDriftTable>,
)
    requires
        sorted_desc(s1),
        sorted_desc(s2),
        s1.to_multiset() == s2.to_multiset(),
    ensures
        s1.len() == s2.len(),
        forall|i: int| 0 <= i < s1.len() ==> s1[i].drift == s2[i].drift,
    decreases s1.len(),
{
    broadcast use vstd::seq_lib::group_to_multiset_ensures;

    assert(s1.len() == s1.to_multiset().len());
    assert(s2.len() == s2.to_multiset().len());
    if s1.len() > 0 {
        assert(s1.contains(s1[0]));
        assert(s2.contains(s2[0]));
        assert(s2.to_multiset().count(s1[0]) > 0);
        assert(s1.to_multiset().count(s2[0]) > 0);
        assert(s2.contains(s1[0]));
        assert(s1.contains(s2[0]));
        let j = choose|j: int| 0 <= j < s2.len() && s2[j] == s1[0];
        assert(s1[0].drift == s2[0].drift) by {
            let k = choose|k: int| 0 <= k < s1.len() && s1[k] == s2[0];
            assert(s1[0].drift >= s1[k].drift);
            assert(s2[0].drift >= s2[j].drift);
        }
        let t1 = s1.drop_first();
        let t2 = s2.remove(j);
        assert(t1 =~= s1.remove(0));
        assert(t1.to_multiset() == s1.to_multiset().remove(s1[0]));
        assert(t2.to_multiset() == s2.to_multiset().remove(s2[j]));
        assert(sorted_desc(t1)) by {
            assert(forall|a: int, b: int|
                0 <= a < b < t1.len() ==> t1[a] == s1[a + 1] && t1[b] == s1[b + 1]);
        }
        assert(sorted_desc(t2)) by {
            assert forall|a: int, b: int| 0 <= a < b < t2.len() implies t2[a].drift
                >= t2[b].drift by {
                if b < j {
                    assert(t2[a] == s2[a] && t2[b] == s2[b]);
                } else if a < j {
                    assert(t2[a] == s2[a] && t2[b] == s2[b + 1]);
                } else {
                    assert(t2[a] == s2[a + 1] && t2[b] == s2[b + 1]);
                }
            }
        }
        lemma_sorted_desc_unique_drifts(t1, t2);
        assert forall|i: int| 0 <= i < s1.len() implies s1[i].drift == s2[i].drift by {
            if i > 0 {
                assert(s1[i] == t1[i - 1]);
                assert(t1[i - 1].drift == t2[i - 1].drift);
                if i - 1 < j {
                    assert(t2[i - 1] == s2[i - 1]);
                    assert(s2[0].drift >= s2[i - 1].drift);
                    assert(s2[i - 1].drift >= s2[i].drift);
                    assert(s2[i].drift >= s2[j].drift);
                } else {
                    assert(t2[i - 1] == s2[i]);
                }
            }
        }
    }
}

/// The analysis is a pure function of its input sequence and parameters:
/// two successful results that both meet the analysis contract agree on the
/// raw drifts, the sampling flag, the occurrence count, the multiset of
/// ranked records, and the drift at every rank.
pub proof fn lemma_analysis_deterministic(
    b: Seq<BlockHeader>,
    drift_time: i64,
    window: u64,
    sample: bool,
    a1: DriftAnalysis,
    a2: DriftAnalysis,
)
    requires
        drift_analysis_matches(b, drift_time, window, sample, Ok(a1)),
        drift_analysis_matches(b, drift_time, window, sample, Ok(a2)),
    ensures
        a1.deltas_seconds@ == a2.deltas_seconds@,
        a1.is_sample == a2.is_sample,
        a1.occurrences == a2.occurrences,
        a1.ranked_sample@.to_multiset() == a2.ranked_sample@.to_multiset(),
        a1.ranked_sample@.len() == a2.ranked_sample@.len(),
        forall|i: int|
            0 <= i < a1.ranked_sample@.len() ==> a1.ranked_sample@[i].drift
                == a2.ranked_sample@[i].drift,
{
    lemma_sorted_desc_unique_drifts(a1.ranked_sample@, a2.ranked_sample@);
}

/// Drift of a pair in whole minutes: truncated division of the seconds by
/// 60, exactly as `i64::checked_div` computes it (which never fails for a
/// divisor of 60).
fn div60(delta: i64) -> (r: i64)
    ensures
        r as int == minutes_of(delta as int),
{
    let opt = delta.checked_div(60);
    proof {
        if delta >= 0 {
            assert(0 <= (delta as int) / 60 <= delta as int) by (nonlinear_arith)
                requires
                    delta as int >= 0,
            ;
        } else {
            assert(0 <= (-(delta as int)) / 60 <= -(delta as int)) by (nonlinear_arith)
                requires
                    (delta as int) < 0,
            ;
        }
        assert(opt == Some(minutes_of(delta as int) as i64));
    }
    match opt {
        Some(d) => d,
        None => {
            proof {
                assert(false);
            }
            0
        },
    }
}

impl BlockStatistics for BlockSampleData {
    open spec fn blocks(&self) -> Seq<BlockHeader> {
        self.0@
    }

    #[verifier::loop_isolation(false)]
    fn fetch_block_time_drift(self, drift_time: i64, window: u64, sample: bool) -> (r: Result<
        DriftAnalysis,
        StatisticsError,
    >) {
        broadcast use vstd::seq_lib::group_to_multiset_ensures;
        broadcast use vstd::multiset::group_multiset_axioms;

        let blocks = self.0;
        let ghost w = window as int;
        let n = blocks.len();
        let mut heap = BlockHeap::new();
        let mut deltas: Vec<i64> = Vec::new();
        let mut i: usize = 0;
        while i + 1 < n
            invariant
                n == blocks@.len(),
                window >= 2,
                i <= n,
                n > 0 ==> i < n,
                n == 0 ==> i == 0,
                heap.wf(),
                heap@.to_multiset() == records_upto(blocks@, w, i as int).to_multiset(),
                deltas@ == deltas_upto(blocks@, w, i as int),
            decreases n - i,
        {
            let ghost gi = i as int;
            if ((i + 1) as u64) % window != 0 {
                assert(pair_at(blocks@, w, gi));
                match blocks[i + 1].time.checked_sub(blocks[i].time) {
                    Some(delta) => {
                        deltas.push(delta);
                        let drift = div60(delta);
                        let rec = BlockTimeDriftTable::new(
                            drift,
                            blocks[i].hash.clone(),
                            blocks[i + 1].hash.clone(),
                        );
                        proof {
                            assert(delta_ok(blocks@, gi));
                            assert(rec == record_at(blocks@, gi));
                            assert(records_upto(blocks@, w, gi + 1) == records_upto(
                                blocks@,
                                w,
                                gi,
                            ).push(rec));
                            assert(deltas_upto(blocks@, w, gi + 1) == deltas_upto(
                                blocks@,
                                w,
                                gi,
                            ).push(delta));
                        }
                        heap.push(rec);
                    },
                    None => {
                        proof {
                            assert(!delta_ok(blocks@, gi));
                            assert(records_upto(blocks@, w, gi + 1) == records_upto(
                                blocks@,
                                w,
                                gi,
                            ));
                            assert(deltas_upto(blocks@, w, gi + 1) == deltas_upto(blocks@, w, gi));
                        }
                    },
                }
            } else {
                proof {
                    assert(!pair_at(blocks@, w, gi));
                    assert(records_upto(blocks@, w, gi + 1) == records_upto(blocks@, w, gi));
                    assert(deltas_upto(blocks@, w, gi + 1) == deltas_upto(blocks@, w, gi));
                }
            }
            i += 1;
        }
        proof {
            if n > 0 {
                assert(i as int == n - 1);
                assert(!pair_at(blocks@, w, n - 1));
                assert(records_upto(blocks@, w, n as int) == records_upto(blocks@, w, n - 1));
                assert(deltas_upto(blocks@, w, n as int) == deltas_upto(blocks@, w, n - 1));
            }
            assert(deltas@ == spec_deltas(blocks@, w));
            assert(heap@.to_multiset() == spec_records(blocks@, w).to_multiset());
        }
        let threshold = div60(drift_time);
        let ghost records = spec_records(blocks@, w);
        let ghost t = minutes_of(drift_time as int);
        let mut ranked: Vec<BlockTimeDriftTable> = Vec::new();
        let ghost mut below: Multiset<BlockTimeDriftTable> = Multiset::empty();
        let mut stop = false;
        proof {
            assert(ranked@.to_multiset().add(heap@.to_multiset()).add(below)
                =~= records.to_multiset());
        }
        while !stop
            invariant
                heap.wf(),
                threshold as int == t,
                ranked@.to_multiset().add(heap@.to_multiset()).add(below) == records.to_multiset(),
                sorted_desc(ranked@),
                forall|idx: int| 0 <= idx < ranked@.len() ==> (#[trigger] ranked@[idx]).drift >= t,
                ranked@.len() > 0 ==> forall|idx: int|
                    0 <= idx < heap@.len() ==> ranked@.last().drift >= (
                    #[trigger] heap@[idx]).drift,
                forall|x: BlockTimeDriftTable| below.count(x) > 0 ==> x.drift < t,
                stop ==> forall|idx: int|
                    0 <= idx < heap@.len() ==> (#[trigger] heap@[idx]).drift < t,
            decreases heap@.len() + (if stop {
                0int
            } else {
                1int
            }),
        {
            let ghost hpre = heap@;
            match heap.pop() {
                None => {
                    stop = true;
                },
                Some(leaf) => {
                    proof {
                        assert(hpre.contains(hpre[0]));
                        assert(hpre.to_multiset().count(leaf) > 0);
                    }
                    if leaf.drift >= threshold {
                        proof {
                            assert(ranked@.len() > 0 ==> ranked@.last().drift >= leaf.drift);
                            assert(ranked@.push(leaf).to_multiset().add(
                                heap@.to_multiset(),
                            ).add(below) =~= records.to_multiset());
                        }
                        ranked.push(leaf);
                    } else {
                        proof {
                            below = below.insert(leaf);
                            assert(ranked@.to_multiset().add(heap@.to_multiset()).add(below)
                                =~= records.to_multiset());
                        }
                        stop = true;
                    }
                },
            }
        }
        proof {
            let pred = |rec: BlockTimeDriftTable| rec.drift >= minutes_of(drift_time as int);
            assert forall|x: BlockTimeDriftTable|
                ranked@.to_multiset().count(x) == records.to_multiset().filter(pred).count(
                    x,
                ) by {
                assert(records.to_multiset().count(x) == ranked@.to_multiset().count(x)
                    + heap@.to_multiset().count(x) + below.count(x));
                if x.drift >= t {
                    assert(heap@.to_multiset().count(x) == 0) by {
                        if heap@.to_multiset().count(x) > 0 {
                            assert(heap@.contains(x));
                            let idx = choose|idx: int| 0 <= idx < heap@.len() && heap@[idx] == x;
                            assert(heap@[idx].drift < t);
                        }
                    }
                    assert(below.count(x) == 0);
                } else {
                    assert(ranked@.to_multiset().count(x) == 0) by {
                        if ranked@.to_multiset().count(x) > 0 {
                            assert(ranked@.contains(x));
                            let idx = choose|idx: int|
                                0 <= idx < ranked@.len() && ranked@[idx] == x;
                            assert(ranked@[idx].drift >= t);
                        }
                    }
                }
            }
            assert(ranked@.to_multiset() =~= records.to_multiset().filter(pred));
        }
        let occurrences = ranked.len();
        if deltas.len() == 0 {
            Err(StatisticsError::EmptySample)
        } else {
            Ok(
                DriftAnalysis {
                    ranked_sample: ranked,
                    occurrences,
                    deltas_seconds: deltas,
                    is_sample: sample,
                },
            )
        }
    }
}

} // verus!
