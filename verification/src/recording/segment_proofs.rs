//! What holds of the segments of a recording whose row and index agree.

use crate::db::ListRecordingsRow;
use crate::error::Error;
use crate::recording::round_trip::{lemma_iterate_encoded, lemma_next_at_end, tracks};
use crate::recording::{
    count_keys, encodable, row_describes, spec_encode, spec_frames, spec_frames_from, spec_iterate,
    spec_next, spec_scan, spec_segment, spec_states, spec_trailing_zero, total_bytes, IterState,
    Sample, Scan, SegmentView,
};
use std::ops::Range;
use vstd::prelude::*;

verus! {

proof fn lemma_count_keys_step(samples: Seq<Sample>, k: int)
    requires
        0 <= k < samples.len(),
    ensures
        count_keys(samples.take(k + 1)) == count_keys(samples.take(k)) + (if samples[k].is_key {
            1int
        } else {
            0int
        }),
        0 <= count_keys(samples.take(k)) <= k,
    decreases k,
{
    assert(samples.take(k + 1).drop_last() =~= samples.take(k));
    if k > 0 {
        lemma_count_keys_step(samples, k - 1);
    } else {
        assert(samples.take(0).len() == 0);
    }
}

proof fn lemma_count_keys_bounds(samples: Seq<Sample>, k: int)
    requires
        0 <= k <= samples.len(),
    ensures
        0 <= count_keys(samples.take(k)) <= k,
        count_keys(samples.take(k)) <= count_keys(samples),
        count_keys(samples) - count_keys(samples.take(k)) <= samples.len() - k,
    decreases samples.len() - k,
{
    if k < samples.len() {
        lemma_count_keys_step(samples, k);
        lemma_count_keys_bounds(samples, k + 1);
    } else {
        assert(samples.take(k) =~= samples);
        if k > 0 {
            lemma_count_keys_step(samples, k - 1);
        } else {
            assert(samples.take(0).len() == 0);
        }
    }
}

/// On the index of `samples`, the step from the sample `k - 1` reaches the
/// sample `k`, or the end of the index behind the last sample.
proof fn lemma_step(samples: Seq<Sample>, k: int)
    requires
        encodable(samples),
        0 <= k <= samples.len(),
    ensures
        ({
            let data = spec_encode(samples);
            let st = spec_iterate(data, k as nat);
            let st2 = spec_iterate(data, (k + 1) as nat);
            &&& spec_next(st, data) == (
                st2,
                Ok::<bool, Error>(k < samples.len()),
            )
            &&& 0 <= st.i <= data.len()
            &&& k < samples.len() ==> st.i < st2.i <= data.len() && st2.sample() == samples[k]
            &&& k > 0 ==> st.sample() == samples[k - 1]
            &&& k == 0 ==> st == IterState::initial()
        }),
{
    let data = spec_encode(samples);
    let st = spec_iterate(data, k as nat);
    lemma_iterate_encoded(samples, k);
    crate::recording::lemma_next_advances(st, data);
    assert(samples.take(samples.len() as int) =~= samples);
    crate::recording::round_trip::lemma_encode_len_monotonic(samples, k);
    if k == samples.len() {
        lemma_next_at_end(st, data);
    } else {
        lemma_iterate_encoded(samples, k + 1);
    }
}

/// The frames of a segment that holds the samples `from` to `to - 1` of a
/// recording, and counts them and their key frames rightly, are the states
/// of an iterator at those samples.
pub proof fn lemma_frames_of_range(samples: Seq<Sample>, v: SegmentView, from: int, to: int)
    requires
        encodable(samples),
        0 <= from < to <= samples.len(),
        samples[from].is_key,
        v.frames == to - from,
        v.key_frames == count_keys(samples.take(to)) - count_keys(samples.take(from)),
        v.begin == Some(spec_iterate(spec_encode(samples), (from + 1) as nat)) || (from == 0 && (
        v.begin is None || v.begin == Some(IterState::initial()))),
    ensures
        spec_frames(v, spec_encode(samples)) == Ok::<Seq<IterState>, Error>(
            spec_states(spec_encode(samples), from, to),
        ),
        spec_states(spec_encode(samples), from, to).len() == v.frames,
        spec_states(spec_encode(samples), from, to)[0].is_key,
{
    let data = spec_encode(samples);
    lemma_frames_rest(samples, v, from, to, from);
    lemma_step(samples, from + 1);
    lemma_step(samples, from);
    if from == 0 {
        lemma_step(samples, 0);
    }
    let first = spec_iterate(data, (from + 1) as nat);
    assert(first.sample() == samples[from]);
    assert(first.i > 0);
}

proof fn lemma_frames_rest(samples: Seq<Sample>, v: SegmentView, from: int, to: int, k: int)
    requires
        encodable(samples),
        0 <= from <= k <= to <= samples.len(),
        v.frames == to - from,
        v.key_frames == count_keys(samples.take(to)) - count_keys(samples.take(from)),
    ensures
        spec_frames_from(
            spec_iterate(spec_encode(samples), (k + 1) as nat),
            k < samples.len(),
            k - from,
            count_keys(samples.take(k)) - count_keys(samples.take(from)),
            v,
            spec_encode(samples),
        ) == Ok::<Seq<IterState>, Error>(spec_states(spec_encode(samples), k, to)),
    decreases to - k,
{
    let data = spec_encode(samples);
    let it = spec_iterate(data, (k + 1) as nat);
    if k == to {
        assert(spec_states(data, k, to) =~= Seq::<IterState>::empty());
    } else {
        lemma_step(samples, k + 1);
        lemma_count_keys_step(samples, k);
        lemma_count_keys_upto(samples, k + 1, to);
        lemma_frames_rest(samples, v, from, to, k + 1);
        assert(it.is_key == samples[k].is_key);
        assert(spec_states(data, k, to) =~= seq![it] + spec_states(data, k + 1, to));
    }
}

proof fn lemma_count_keys_upto(samples: Seq<Sample>, k: int, m: int)
    requires
        0 <= k <= m <= samples.len(),
    ensures
        count_keys(samples.take(k)) <= count_keys(samples.take(m)),
    decreases m - k,
{
    if k < m {
        lemma_count_keys_step(samples, m - 1);
        lemma_count_keys_upto(samples, k, m - 1);
    }
}

/// What a scan knows when it stands at the sample `k - 1`: the samples
/// that it has counted are those from `k - 1 - frames` on, the first of
/// them a key frame at which its iterator stood.
pub open spec fn scan_holds(scan: Scan, samples: Seq<Sample>, k: int) -> bool {
    let from = k - 1 - scan.frames;
    &&& 0 <= from < samples.len()
    &&& samples[from].is_key
    &&& scan.begin == spec_iterate(spec_encode(samples), (from + 1) as nat) || (from == 0
        && scan.begin == IterState::initial())
    &&& scan.key_frames == count_keys(samples.take(k - 1)) - count_keys(samples.take(from))
}

proof fn lemma_scan(samples: Seq<Sample>, scan: Scan, k: int, start: i32, end: i32) -> (to: int)
    requires
        encodable(samples),
        samples.len() <= u16::MAX,
        1 <= k <= samples.len(),
        scan_holds(scan, samples, k),
    ensures
        k <= to + 1 <= samples.len() + 1,
        ({
            let data = spec_encode(samples);
            let r = spec_scan(spec_iterate(data, k as nat), scan, data, start, end);
            &&& r is Ok
            &&& r->Ok_0.1 == spec_iterate(data, (to + 1) as nat)
            &&& r->Ok_0.0.frames >= 1
            &&& scan_holds(r->Ok_0.0, samples, to + 1)
        }),
    decreases samples.len() - k,
{
    let data = spec_encode(samples);
    let it = spec_iterate(data, k as nat);
    lemma_step(samples, k);
    lemma_count_keys_step(samples, k - 1);
    lemma_count_keys_bounds(samples, k - 1);
    lemma_count_keys_bounds(samples, k);
    assert(it.is_key == samples[k - 1].is_key);
    let found = if it.start_90k <= start && it.is_key {
        Scan { begin: it, frames: 0, key_frames: 0 }
    } else {
        scan
    };
    assert(scan_holds(found, samples, k));
    let from = k - 1 - found.frames;
    lemma_count_keys_upto(samples, from, k - 1);
    lemma_count_keys_bounds(samples, from);
    if it.start_90k >= end && found.frames > 0 {
        k - 1
    } else {
        let counted = Scan {
            begin: found.begin,
            frames: found.frames.wrapping_add(1),
            key_frames: found.key_frames.wrapping_add(
                if it.is_key {
                    1
                } else {
                    0
                },
            ),
        };
        assert(counted.frames == found.frames + 1);
        assert(counted.key_frames == found.key_frames + (if it.is_key {
            1int
        } else {
            0int
        }));
        if k < samples.len() {
            assert(scan_holds(counted, samples, k + 1));
            lemma_scan(samples, counted, k + 1, start, end)
        } else {
            assert(scan_holds(counted, samples, k + 1));
            k
        }
    }
}

/// The segment of the whole of a recording is made without a look at the
/// index, and its frames are all the samples of the recording, each with
/// its place in the file and in time.
pub proof fn lemma_whole_recording(row: ListRecordingsRow, samples: Seq<Sample>, data: Seq<u8>)
    requires
        row_describes(row, samples),
    ensures
        spec_segment(row, 0..row.duration_90k, data) == Ok::<SegmentView, Error>(
            SegmentView {
                id: row.id,
                open_id: row.open_id,
                start: row.start,
                begin: None,
                file_end: row.sample_file_bytes,
                desired_range_90k: 0..row.duration_90k,
                frames: samples.len() as u16,
                key_frames: count_keys(samples) as u16,
                video_sample_entry_id: row.video_sample_entry_id,
                have_trailing_zero: spec_trailing_zero(row.flags),
            },
        ),
        spec_frames(spec_segment(row, 0..row.duration_90k, data)->Ok_0, spec_encode(samples))
            == Ok::<Seq<IterState>, Error>(
            spec_states(spec_encode(samples), 0, samples.len() as int),
        ),
        forall|j: int|
            0 <= j < samples.len() ==> (#[trigger] spec_states(
                spec_encode(samples),
                0,
                samples.len() as int,
            )[j]).sample() == samples[j],
{
    let n = samples.len() as int;
    lemma_count_keys_bounds(samples, n);
    lemma_count_keys_bounds(samples, 0);
    assert(samples.take(n) =~= samples);
    assert(samples.take(0).len() == 0);
    crate::recording::round_trip::lemma_totals(samples);
    let v = spec_segment(row, 0..row.duration_90k, data)->Ok_0;
    lemma_frames_of_range(samples, v, 0, n);
    assert forall|j: int| 0 <= j < n implies (#[trigger] spec_states(
        spec_encode(samples),
        0,
        n,
    )[j]).sample() == samples[j] by {
        lemma_step(samples, j + 1);
    }
}

/// A segment of a recording for a range that lies within it has at least
/// one frame, also where the range is empty, and its first frame is a key
/// frame.
pub proof fn lemma_segment_starts_with_key_frame(
    row: ListRecordingsRow,
    samples: Seq<Sample>,
    range: Range<i32>,
)
    requires
        row_describes(row, samples),
        range.start <= range.end <= row.duration_90k,
    ensures
        spec_segment(row, range, spec_encode(samples)) is Ok,
        spec_segment(row, range, spec_encode(samples))->Ok_0.frames >= 1,
        spec_frames(
            spec_segment(row, range, spec_encode(samples))->Ok_0,
            spec_encode(samples),
        ) is Ok,
        spec_frames(
            spec_segment(row, range, spec_encode(samples))->Ok_0,
            spec_encode(samples),
        )->Ok_0.len() == spec_segment(row, range, spec_encode(samples))->Ok_0.frames,
        spec_frames(
            spec_segment(row, range, spec_encode(samples))->Ok_0,
            spec_encode(samples),
        )->Ok_0[0].is_key,
{
    let data = spec_encode(samples);
    let n = samples.len() as int;
    if range.start == 0 && range.end == row.duration_90k {
        lemma_whole_recording(row, samples, data);
        lemma_step(samples, 1);
    } else {
        lemma_step(samples, 0);
        lemma_step(samples, 1);
        let first = spec_iterate(data, 1);
        let end = if range.end == row.duration_90k {
            i32::MAX
        } else {
            range.end
        };
        let scan = Scan { begin: IterState::initial(), frames: 0, key_frames: 0 };
        assert(samples.take(0).len() == 0);
        assert(scan_holds(scan, samples, 1));
        let to = lemma_scan(samples, scan, 1, range.start, end);
        let v = spec_segment(row, range, data)->Ok_0;
        let from = to - v.frames;
        lemma_frames_of_range(samples, v, from, to);
    }
}

} // verus!
