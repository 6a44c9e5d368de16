//! What a writer writes can be read back: the row and the index of its
//! recording stay those of the frames that it has taken.

use crate::recording::round_trip::{lemma_add_sample_keeps_row, recording_holds};
use crate::recording::{
    encodable, sample_encodable, EncState, Sample, MAX_RECORDING_DURATION,
};
use crate::writer::{OpenView, UnflushedSample, WriterView};
use vstd::prelude::*;

verus! {

/// Whether the writer's recording is that of the frames `samples`, which
/// it has flushed so far: the row and the index are theirs, and the encoder
/// stands behind the last of them.
pub open spec fn open_holds(o: OpenView, samples: Seq<Sample>) -> bool {
    recording_holds(o.r, samples) && o.e == EncState::initial().after_all(samples)
}

/// Whether `samples` can be the frames that a writer has flushed while its
/// recording is open: each has a positive length, and a duration that is
/// positive and no longer than a recording may be.
pub open spec fn flushed_frames(samples: Seq<Sample>) -> bool {
    forall|j: int|
        0 <= j < samples.len() ==> (#[trigger] samples[j]).bytes > 0 && 0 < samples[j].duration_90k
            <= MAX_RECORDING_DURATION
}

/// A recording that has just been opened holds no frames yet.
pub proof fn lemma_first_holds(
    w: WriterView,
    id: crate::db::CompositeId,
    pkt: Seq<u8>,
    unflushed: UnflushedSample,
)
    requires
        w.draft() is Some,
    ensures
        open_holds(
            OpenView::first(w.draft()->Some_0, id, w.previous_delta(), pkt, unflushed),
            Seq::<Sample>::empty(),
        ),
{
    let o = OpenView::first(w.draft()->Some_0, id, w.previous_delta(), pkt, unflushed);
    assert(o.r.video_index =~= crate::recording::spec_encode(Seq::<Sample>::empty()));
}

/// When the frame that was held back is flushed, the recording is that of
/// the frames before with that frame behind them.
pub proof fn lemma_flush_keeps_index(o: OpenView, samples: Seq<Sample>, duration_90k: i32)
    requires
        o.wf(),
        open_holds(o, samples),
        0 <= duration_90k,
        o.r.duration_90k + duration_90k <= MAX_RECORDING_DURATION,
    ensures
        open_holds(
            o.flushed(duration_90k),
            samples.push(
                Sample { duration_90k, bytes: o.unflushed.len, is_key: o.unflushed.is_key },
            ),
        ),
{
    let s = Sample { duration_90k, bytes: o.unflushed.len, is_key: o.unflushed.is_key };
    lemma_add_sample_keeps_row(o.r, samples, s);
}

/// The frames that a writer has flushed, with the last frame of the
/// recording behind them, whose duration may be zero, are frames that an
/// index can hold and give back.
pub proof fn lemma_frames_encodable(samples: Seq<Sample>, last: Sample)
    requires
        flushed_frames(samples),
        last.bytes > 0,
        0 <= last.duration_90k <= MAX_RECORDING_DURATION,
    ensures
        encodable(samples.push(last)),
        last.duration_90k > 0 ==> flushed_frames(samples.push(last)),
{
    let all = samples.push(last);
    assert forall|j: int| 0 <= j < all.len() implies #[trigger] sample_encodable(all, j) by {
        if j < samples.len() {
            assert(all[j] == samples[j]);
        }
        if j > 0 {
            assert(all[j - 1] == samples[j - 1]);
        }
    }
    if last.duration_90k > 0 {
        assert forall|j: int| 0 <= j < all.len() implies (#[trigger] all[j]).bytes > 0 && 0
            < all[j].duration_90k <= MAX_RECORDING_DURATION by {
            if j < samples.len() {
                assert(all[j] == samples[j]);
            }
        }
    }
}

/// The row of a recording as it is closed is the row of the frames that
/// were flushed while it was open with its last frame behind them: its
/// index can be read back, and its counts are those of the index.
pub proof fn lemma_closed_row_holds(
    o: OpenView,
    samples: Seq<Sample>,
    duration_90k: i32,
    next_pts: Option<i64>,
)
    requires
        o.wf(),
        open_holds(o, samples),
        flushed_frames(samples),
        0 <= duration_90k,
        o.r.duration_90k + duration_90k <= MAX_RECORDING_DURATION,
    ensures
        recording_holds(
            o.closed_row(duration_90k, next_pts),
            samples.push(
                Sample { duration_90k, bytes: o.unflushed.len, is_key: o.unflushed.is_key },
            ),
        ),
        encodable(
            samples.push(
                Sample { duration_90k, bytes: o.unflushed.len, is_key: o.unflushed.is_key },
            ),
        ),
{
    let last = Sample { duration_90k, bytes: o.unflushed.len, is_key: o.unflushed.is_key };
    lemma_flush_keeps_index(o, samples, duration_90k);
    lemma_frames_encodable(samples, last);
}

} // verus!
