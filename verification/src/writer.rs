//! Writing a run of recordings: the correction of the camera's clock, and
//! the state that a writer keeps from frame to frame.

use crate::db::{CompositeId, LiveSegment, RecordingFlags, RecordingToInsert, RecordingView};
use crate::digest::{
    hasher_input, hasher_is_sha1, sha1, sha1_finish, sha1_hasher, sha1_update,
};
use crate::error::Error;
use crate::recording::{
    Duration, EncState, Sample, SampleIndexEncoder, Time, MAX_RECORDING_DURATION,
};
use openssl::hash::Hasher;
use vstd::prelude::*;

pub mod clock_drift;
pub mod index_proofs;

verus! {

/// What a [`ClockAdjuster`] holds.
pub struct AdjusterState {
    /// The number of ticks of input after which one tick of correction is
    /// due; 2^31, which no input reaches, where there is no correction.
    pub every: int,
    /// What is taken from a duration at each correction: 1 to shorten, -1 to
    /// lengthen, 0 for no correction.
    pub ndir: int,
    /// The ticks of input for which no correction has been made yet.
    pub cur: int,
}

impl AdjusterState {
    /// The adjuster for a recording whose predecessor in the run ended with
    /// the local clock ahead of the camera's timestamps by `delta` ticks.
    ///
    /// The correction is spread over a minute of input and capped at 500
    /// parts per million, that is at 2700 ticks in a minute; a difference
    /// of up to 60 ticks, or an unknown one, is left alone.
    pub open spec fn for_delta(delta: Option<i64>) -> AdjusterState {
        match delta {
            Some(d) => if d <= -2700 {
                AdjusterState { every: 2000, ndir: 1, cur: 0 }
            } else if d >= 2700 {
                AdjusterState { every: 2000, ndir: -1, cur: 0 }
            } else if d < -60 {
                AdjusterState { every: 5400000int / (-d), ndir: 1, cur: 0 }
            } else if d > 60 {
                AdjusterState { every: 5400000int / (d as int), ndir: -1, cur: 0 }
            } else {
                AdjusterState { every: 0x8000_0000, ndir: 0, cur: 0 }
            },
            None => AdjusterState { every: 0x8000_0000, ndir: 0, cur: 0 },
        }
    }

    /// Whether the state is one that an adjuster can be in.
    pub open spec fn wf(self) -> bool {
        &&& self.ndir == 0 ==> self.every == 0x8000_0000
        &&& self.ndir != 0 ==> (self.ndir == 1 || self.ndir == -1) && 2000 <= self.every <= 88524
    }

    /// The number of corrections that are due once `val` ticks of input have
    /// come in: one for each `every` ticks for which none was made yet.
    pub open spec fn due(self, val: int) -> int {
        if self.cur + val >= 0 {
            (self.cur + val) / self.every
        } else {
            0
        }
    }

    /// The number of corrections made to a duration of `val` ticks: those
    /// that are due, but no more than leave a duration that was positive at
    /// least one tick long.
    pub open spec fn corrections(self, val: int) -> int {
        let due = self.due(val);
        if self.ndir == 1 {
            if val <= 1 {
                0
            } else if due <= val - 1 {
                due
            } else {
                val - 1
            }
        } else if self.ndir == -1 {
            if val >= 0 {
                due
            } else {
                0
            }
        } else {
            0
        }
    }

    /// The duration that is recorded for a frame of `val` ticks.
    pub open spec fn adjusted(self, val: int) -> int {
        val - self.ndir * self.corrections(val)
    }

    /// The state after a frame of `val` ticks.
    pub open spec fn after(self, val: int) -> AdjusterState {
        AdjusterState { cur: self.cur + val - self.every * self.corrections(val), ..self }
    }
}

/// The sum of the durations that are recorded for `n` frames of `val` ticks
/// each, the first of them taken in by an adjuster in state `st`.
pub open spec fn adjusted_total(st: AdjusterState, n: nat, val: int) -> int
    decreases n,
{
    if n == 0 {
        0
    } else {
        st.adjusted(val) + adjusted_total(st.after(val), (n - 1) as nat, val)
    }
}

/// The state of an adjuster after `n` frames of `val` ticks each.
pub open spec fn state_after_frames(st: AdjusterState, n: nat, val: int) -> AdjusterState
    decreases n,
{
    if n == 0 {
        st
    } else {
        state_after_frames(st.after(val), (n - 1) as nat, val)
    }
}

/// Adjusts the durations that a camera gives, to make up for the error of
/// its clock's frequency.
#[derive(Copy, Clone, Debug)]
pub struct ClockAdjuster {
    /// Every `every_minus_1 + 1` ticks, take `ndir` from a duration.
    /// `i32::MAX` where there is no correction.
    every_minus_1: i32,
    /// 1 or -1, or 0 where there is no correction.
    ndir: i32,
    /// The ticks for which no correction has been made yet.
    cur: i32,
}

impl View for ClockAdjuster {
    type V = AdjusterState;

    closed spec fn view(&self) -> AdjusterState {
        AdjusterState { every: self.every_minus_1 + 1, ndir: self.ndir as int, cur: self.cur as int }
    }
}

impl ClockAdjuster {
    /// The adjuster for a recording, given by how many ticks the recording
    /// before it in the run came out longer by the local clock than by the
    /// camera's timestamps.
    pub fn new(local_time_delta: Option<i64>) -> (a: ClockAdjuster)
        ensures
            a@ == AdjusterState::for_delta(local_time_delta),
            a@.wf(),
    {
        let (every_minus_1, ndir): (i32, i32) = match local_time_delta {
            Some(d) => {
                if d <= -2700 {
                    (1999, 1)
                } else if d >= 2700 {
                    (1999, -1)
                } else if d < -60 {
                    let m = -(d as i32);
                    assert(5400000int / (m as int) <= 88524 && 5400000int / (m as int) >= 2000)
                        by (nonlinear_arith)
                        requires
                            60 < m < 2700,
                    ;
                    ((60 * 90000) / m - 1, 1)
                } else if d > 60 {
                    let m = d as i32;
                    assert(5400000int / (m as int) <= 88524 && 5400000int / (m as int) >= 2000)
                        by (nonlinear_arith)
                        requires
                            60 < m < 2700,
                    ;
                    ((60 * 90000) / m - 1, -1)
                } else {
                    (i32::MAX, 0)
                }
            },
            None => (i32::MAX, 0),
        };
        ClockAdjuster { every_minus_1, ndir, cur: 0 }
    }

    /// Whether the adjuster's state is one that it can be in; it is after
    /// `new`, and stays so.
    pub open spec fn wf(&self) -> bool {
        self@.wf()
    }

    /// Takes in the duration of a frame and returns the duration to record
    /// for it.
    pub fn adjust(&mut self, val: i32) -> (r: i32)
        requires
            old(self).wf(),
            i32::MIN <= old(self)@.cur + val <= i32::MAX,
            old(self)@.adjusted(val as int) <= i32::MAX,
        ensures
            r == old(self)@.adjusted(val as int),
            final(self)@ == old(self)@.after(val as int),
            final(self).wf(),
    {
        let ghost st = self@;
        let ghost total = st.cur + val;
        let ghost goal = st.corrections(val as int);
        let mut val = val;
        let ghost val0 = val as int;
        self.cur = self.cur + val;
        let ghost mut done: int = 0;
        while self.cur > self.every_minus_1 && val > self.ndir
            invariant
                st.wf(),
                self@.every == st.every,
                self@.ndir == st.ndir,
                goal == st.corrections(val0),
                total == st.cur + val0,
                0 <= done <= goal,
                self.cur == total - st.every * done,
                val == val0 - st.ndir * done,
                done > 0 ==> self.cur >= 0,
                val0 - st.ndir * goal <= i32::MAX,
            decreases self.cur,
        {
            proof {
                assert(total >= st.every * (done + 1)) by (nonlinear_arith)
                    requires
                        self.cur == total - st.every * done,
                        self.cur >= st.every,
                ;
                assert(total / st.every >= done + 1) by (nonlinear_arith)
                    requires
                        total >= st.every * (done + 1),
                        st.every > 0,
                ;
                assert(done + 1 <= goal);
                assert(st.ndir * (done + 1) == st.ndir * done + st.ndir) by (nonlinear_arith);
                assert(st.every * (done + 1) == st.every * done + st.every) by (nonlinear_arith);
                assert(st.ndir == -1 ==> st.ndir * goal <= st.ndir * (done + 1)) by (nonlinear_arith)
                    requires
                        done + 1 <= goal,
                ;
            }
            val = val - self.ndir;
            self.cur = self.cur - (self.every_minus_1 + 1);
            proof {
                done = done + 1;
            }
        }
        proof {
            let due = st.due(val0);
            assert(st.ndir * done == (if st.ndir == 1 {
                done
            } else if st.ndir == -1 {
                -done
            } else {
                0
            })) by (nonlinear_arith)
                requires
                    st.ndir == 1 || st.ndir == -1 || st.ndir == 0,
            ;
            if self.cur <= self.every_minus_1 {
                if done == 0 {
                    if total >= 0 {
                        assert(total / st.every == 0) by (nonlinear_arith)
                            requires
                                0 <= total < st.every,
                        ;
                    }
                } else {
                    assert(total >= 0) by (nonlinear_arith)
                        requires
                            total == st.every * done + self.cur,
                            self.cur >= 0,
                            done > 0,
                            st.every > 0,
                    ;
                    assert(total / st.every == done) by (nonlinear_arith)
                        requires
                            total == st.every * done + self.cur,
                            0 <= self.cur < st.every,
                    ;
                }
                assert(done == due);
                assert(goal <= due);
            }
            assert(done == goal);
        }
        val
    }
}


/// What an adjuster in a state with nothing owed, or with less owed than
/// twice what it has recorded, does with a frame.
pub proof fn lemma_adjusted_bounds(st: AdjusterState, val: int)
    requires
        st.wf(),
        0 <= st.cur,
        0 <= val,
    ensures
        0 <= st.corrections(val),
        val >= 1 ==> st.adjusted(val) >= 1,
        val == 0 ==> st.adjusted(val) >= 0,
        st.adjusted(val) <= val + (st.cur + val) / 2000,
        0 <= st.after(val).cur <= st.cur + 2 * st.adjusted(val),
        st.after(val).wf(),
{
    let e = st.every;
    let total = st.cur + val;
    let due = total / e;
    let c = st.corrections(val);
    assert(0 <= due && e * due <= total && due <= total / 2000) by (nonlinear_arith)
        requires
            due == total / e,
            0 <= total,
            2000 <= e,
    ;
    assert(0 <= c <= due);
    assert(e * c <= total && 2 * c <= e * c) by (nonlinear_arith)
        requires
            0 <= c <= due,
            e * due <= total,
            2000 <= e,
    ;
    assert(st.ndir * c == (if st.ndir == 1 {
        c
    } else if st.ndir == -1 {
        -c
    } else {
        0
    })) by (nonlinear_arith)
        requires
            st.ndir == 1 || st.ndir == -1 || st.ndir == 0,
    ;
}

/// The longest that a local time may lie from the epoch, either way, for a
/// writer to take it: 2^61 ticks.
pub const MAX_LOCAL_TIME: i64 = 0x2000_0000_0000_0000;

/// The longest that the timestamp of a frame may lie behind that of the
/// frame before it for a writer to take it: 2^30 ticks.
pub const MAX_PTS_STEP: i64 = 0x4000_0000;

/// A frame that has been written to the sample file but not to the index:
/// its duration is known only when the next frame comes.
#[derive(Clone, Copy, Debug)]
pub struct UnflushedSample {
    /// The local time at which the frame was received.
    pub local_time: Time,
    /// The frame's timestamp, counted from the start of the stream.
    pub pts_90k: i64,
    /// The frame's length.
    pub len: i32,
    /// Whether the frame is a key frame.
    pub is_key: bool,
}

/// What a writer remembers of the recording that it closed last.
#[derive(Clone, Copy, Debug)]
pub struct PreviousWriter {
    /// When the recording ended.
    pub end: Time,
    /// By how much the recording came out longer by the local clock than by
    /// the camera's timestamps.
    pub local_time_delta: Duration,
    /// The recording's place in its run.
    pub run_offset: i32,
}

/// A recording that a writer has closed, as it is to be handed on.
#[derive(Debug)]
pub struct ClosedRecording {
    /// The recording's id.
    pub id: CompositeId,
    /// The recording's row, in its final state.
    pub recording: RecordingToInsert,
    /// The recording's duration.
    pub total_duration: Duration,
    /// The last live segment of the recording.
    pub live_segment: LiveSegment,
}

/// What a writer holds of the recording that it has open.
pub struct OpenView {
    /// The recording's row.
    pub r: RecordingView,
    /// The state of the index encoder.
    pub e: EncState,
    /// The recording's id.
    pub id: CompositeId,
    /// Up to where in the recording live segments have been given out.
    pub completed_live_segment_off_90k: i32,
    /// The bytes of the sample file so far.
    pub hashed: Seq<u8>,
    /// The earliest start of the recording that the local times of its
    /// frames allow; the end of time before the first frame is flushed.
    pub local_start: Time,
    /// The state of the clock adjuster.
    pub adjuster: AdjusterState,
    /// The frame that is in the file but not yet in the index.
    pub unflushed: UnflushedSample,
}

/// The bound on the start of the recording at `run_offset` in a run: the
/// run began within `MAX_LOCAL_TIME` of the epoch, and no recording lasts
/// longer than `MAX_RECORDING_DURATION`.
pub open spec fn time_bound(run_offset: int) -> int {
    MAX_LOCAL_TIME + (run_offset + 2) * MAX_RECORDING_DURATION
}

impl OpenView {
    /// Whether the state is one that a writer can be in.
    pub open spec fn wf(self) -> bool {
        &&& 0 <= self.r.duration_90k <= MAX_RECORDING_DURATION
        &&& 0 <= self.r.video_sync_samples <= self.r.video_samples <= self.r.sample_file_bytes
        &&& 0 < self.unflushed.len
        &&& self.r.sample_file_bytes + self.unflushed.len <= i32::MAX
        &&& self.adjuster.wf()
        &&& 0 <= self.adjuster.cur <= 2 * self.r.duration_90k
        &&& 0 <= self.completed_live_segment_off_90k <= self.r.duration_90k
        &&& self.e.prev_duration_90k >= 0
        &&& self.e.prev_bytes_key >= 0
        &&& self.e.prev_bytes_nonkey >= 0
        &&& -MAX_LOCAL_TIME <= self.unflushed.local_time.0 <= MAX_LOCAL_TIME
        &&& -MAX_LOCAL_TIME - MAX_RECORDING_DURATION <= self.local_start.0
        &&& self.r.video_samples > 0 ==> self.local_start.0 <= MAX_LOCAL_TIME
        &&& 0 <= self.r.run_offset
        &&& self.r.run_offset == 0 ==> self.r.start == self.local_start
        &&& self.r.run_offset > 0 ==> -time_bound(self.r.run_offset - 1) <= self.r.start.0
            <= time_bound(self.r.run_offset - 1)
    }

    /// The state of a writer that has just opened a recording with the row
    /// `draft` and the id `id`, and written its first frame.
    pub open spec fn first(
        draft: RecordingView,
        id: CompositeId,
        previous_delta: Option<i64>,
        pkt: Seq<u8>,
        unflushed: UnflushedSample,
    ) -> OpenView {
        OpenView {
            r: draft,
            e: EncState::initial(),
            id,
            completed_live_segment_off_90k: 0,
            hashed: pkt,
            local_start: Time(i64::MAX),
            adjuster: AdjusterState::for_delta(previous_delta),
            unflushed,
        }
    }

    /// The state after the frame that was held back has gone into the
    /// index with the duration `duration_90k`.
    ///
    /// The recording can have started no later than the frame was received
    /// less the duration up to the frame's end; the first recording of a
    /// run starts at the earliest such time.
    pub open spec fn flushed(self, duration_90k: i32) -> OpenView {
        let s = Sample { duration_90k, bytes: self.unflushed.len, is_key: self.unflushed.is_key };
        let r = self.r.with_sample(self.e, s);
        let new = Time((self.unflushed.local_time.0 - r.duration_90k) as i64);
        let local_start = if new.0 < self.local_start.0 {
            new
        } else {
            self.local_start
        };
        OpenView {
            r: RecordingView {
                start: if r.run_offset == 0 {
                    local_start
                } else {
                    r.start
                },
                ..r
            },
            e: self.e.after(s),
            local_start,
            ..self
        }
    }

    /// The duration to record for the frame that is held back, once the
    /// next frame has come with the timestamp `pts_90k`; or why that frame
    /// is refused.
    pub open spec fn next_duration(self, pts_90k: i64) -> Result<i32, Error> {
        let raw = pts_90k - self.unflushed.pts_90k;
        if raw <= 0 {
            Err(Error::PtsNotIncreasing { previous: self.unflushed.pts_90k, given: pts_90k })
        } else {
            self.checked_duration(raw)
        }
    }

    /// The duration to record for the frame that is held back, `raw` ticks
    /// long by the camera's timestamps, unless it takes the recording
    /// beyond the longest duration allowed.
    pub open spec fn checked_duration(self, raw: int) -> Result<i32, Error> {
        let adjusted = self.adjuster.adjusted(raw);
        if self.r.duration_90k + adjusted > MAX_RECORDING_DURATION {
            Err(
                Error::DurationExceedsMax {
                    duration_90k: (self.r.duration_90k + adjusted) as i64,
                    max: MAX_RECORDING_DURATION,
                },
            )
        } else {
            Ok(adjusted as i32)
        }
    }

    /// The state with `pkt` behind the bytes of the sample file.
    pub open spec fn with_input(self, pkt: Seq<u8>) -> OpenView {
        OpenView { hashed: self.hashed + pkt, ..self }
    }

    /// The state after a frame has been taken behind the frame that was
    /// held back, for which `duration_90k` is recorded; and the live
    /// segment that the new frame ends, if it is a key frame. The bytes of
    /// the sample file are left as they are.
    pub open spec fn took(self, duration_90k: i32, unflushed: UnflushedSample) -> (
        OpenView,
        Option<LiveSegment>,
    ) {
        let f = self.flushed(duration_90k);
        let raw = unflushed.pts_90k - self.unflushed.pts_90k;
        (
            OpenView {
                adjuster: self.adjuster.after(raw),
                completed_live_segment_off_90k: if unflushed.is_key {
                    f.r.duration_90k
                } else {
                    f.completed_live_segment_off_90k
                },
                unflushed,
                ..f
            },
            if unflushed.is_key {
                Some(
                    LiveSegment {
                        recording: self.id.spec_recording(),
                        off_90k: self.completed_live_segment_off_90k..f.r.duration_90k,
                    },
                )
            } else {
                None
            },
        )
    }

    /// The state after the frame `pkt` has been written behind the frame
    /// that was held back, for which `duration_90k` is recorded; and the
    /// live segment that the new frame ends, if it is a key frame.
    pub open spec fn written(
        self,
        duration_90k: i32,
        pkt: Seq<u8>,
        unflushed: UnflushedSample,
    ) -> (OpenView, Option<LiveSegment>) {
        self.with_input(pkt).took(duration_90k, unflushed)
    }

    /// The duration by the camera's timestamps of the last frame of a
    /// recording that is closed with `next_pts`, or why it cannot be so
    /// closed: zero where no next timestamp is known.
    pub open spec fn last_raw_duration(self, next_pts: Option<i64>) -> Result<int, Error> {
        match next_pts {
            None => Ok(0),
            Some(p) => if p < self.unflushed.pts_90k {
                Err(Error::PtsNotIncreasing { previous: self.unflushed.pts_90k, given: p })
            } else {
                Ok(p - self.unflushed.pts_90k)
            },
        }
    }

    /// The duration to record for the last frame of a recording that is
    /// closed with `next_pts`, or why it cannot be so closed.
    pub open spec fn last_duration(self, next_pts: Option<i64>) -> Result<i32, Error> {
        match self.last_raw_duration(next_pts) {
            Err(e) => Err(e),
            Ok(raw) => self.checked_duration(raw),
        }
    }

    /// The row of the recording as it is closed, the last frame recorded
    /// with `duration_90k`, where `digest` is the fingerprint of its file:
    /// flagged where no next timestamp is known, and with the difference
    /// between the start by the local clock and the start that it was
    /// given.
    pub open spec fn closed_row_with(
        self,
        duration_90k: i32,
        next_pts: Option<i64>,
        digest: Seq<u8>,
    ) -> RecordingView {
        let f = self.flushed(duration_90k);
        RecordingView {
            flags: if next_pts is None {
                RecordingFlags::TrailingZero.spec_bits()
            } else {
                0
            },
            local_time_delta: Duration((f.local_start.0 - f.r.start.0) as i64),
            sample_file_sha1: digest,
            ..f.r
        }
    }

    /// The row of the recording as it is closed, the last frame recorded
    /// with `duration_90k`: the fingerprint is the SHA-1 digest of the bytes
    /// of the sample file.
    pub open spec fn closed_row(self, duration_90k: i32, next_pts: Option<i64>) -> RecordingView {
        self.closed_row_with(duration_90k, next_pts, sha1(self.hashed))
    }

    /// What the writer remembers of the recording once it is closed.
    pub open spec fn closed_state(self, duration_90k: i32, next_pts: Option<i64>) -> PreviousWriter {
        let row = self.closed_row(duration_90k, next_pts);
        PreviousWriter {
            end: Time((row.start.0 + row.duration_90k) as i64),
            local_time_delta: row.local_time_delta,
            run_offset: row.run_offset,
        }
    }
}

/// The state of a [`Writer`].
pub enum StateView {
    /// No recording has been opened yet.
    Unopened,
    /// A recording is open, and one frame of it is held back.
    Open(OpenView),
    /// The last recording has been closed.
    Closed(PreviousWriter),
}

/// What a [`Writer`] holds.
pub struct WriterView {
    pub stream_id: i32,
    pub video_sample_entry_id: i32,
    pub state: StateView,
}

impl WriterView {
    /// The row to reserve for the next recording, where none is open: it
    /// follows the last recording in its run, and starts where that ended;
    /// the first of a run starts at the end of time until its first frame
    /// tells.
    pub open spec fn draft(self) -> Option<RecordingView> {
        match self.state {
            StateView::Open(_) => None,
            StateView::Unopened => Some(
                RecordingView {
                    run_offset: 0,
                    start: Time(i64::MAX),
                    video_sample_entry_id: self.video_sample_entry_id,
                    flags: RecordingFlags::Growing.spec_bits(),
                    ..RecordingView::empty()
                },
            ),
            StateView::Closed(p) => Some(
                RecordingView {
                    run_offset: (p.run_offset + 1) as i32,
                    start: p.end,
                    video_sample_entry_id: self.video_sample_entry_id,
                    flags: RecordingFlags::Growing.spec_bits(),
                    ..RecordingView::empty()
                },
            ),
        }
    }

    /// The recording before in the run came out longer by the local clock
    /// than by the camera's timestamps by this much, where there is one.
    pub open spec fn previous_delta(self) -> Option<i64> {
        match self.state {
            StateView::Closed(p) => Some(p.local_time_delta.0),
            _ => None,
        }
    }

    /// Whether the state is one that a writer can be in.
    pub open spec fn wf(self) -> bool {
        match self.state {
            StateView::Unopened => true,
            StateView::Open(o) => o.wf(),
            StateView::Closed(p) => 0 <= p.run_offset && -time_bound(p.run_offset as int) <= p.end.0
                <= time_bound(p.run_offset as int),
        }
    }

    /// Whether a writer in this state can take a frame of `len` bytes with
    /// the timestamp `pts_90k`, received at `local_time`; `opened` is the
    /// id of the recording that was reserved for it, where none is open.
    pub open spec fn can_write(
        self,
        opened: Option<CompositeId>,
        len: int,
        local_time: Time,
        pts_90k: i64,
    ) -> bool {
        &&& 0 < len <= i32::MAX
        &&& -MAX_LOCAL_TIME <= local_time.0 <= MAX_LOCAL_TIME
        &&& match self.state {
            StateView::Open(o) => o.r.sample_file_bytes + o.unflushed.len + len <= i32::MAX
                && pts_90k - o.unflushed.pts_90k <= MAX_PTS_STEP,
            StateView::Unopened => opened is Some,
            StateView::Closed(p) => opened is Some && p.run_offset < i32::MAX,
        }
    }

    /// What a frame comes to whose bytes the fingerprint was asked to take
    /// in, `hashed` telling whether it did: the result, and the state that
    /// the writer is left in. `input` is what the fingerprint holds.
    ///
    /// A frame that is out of order, or too long, is refused and changes
    /// nothing. Where the fingerprint failed, the recording that is open is
    /// given up; a writer with none open stays as it is. Else the frame is
    /// taken: by the recording that is open, or by one that is opened for
    /// it.
    pub open spec fn frame_taken(
        self,
        hashed: bool,
        opened: Option<CompositeId>,
        input: Seq<u8>,
        unflushed: UnflushedSample,
    ) -> (Result<Option<LiveSegment>, Error>, StateView) {
        match self.state {
            StateView::Open(o) => match o.next_duration(unflushed.pts_90k) {
                Err(e) => (Err(e), self.state),
                Ok(d) => if hashed {
                    (Ok(o.took(d, unflushed).1), StateView::Open(o.took(d, unflushed).0))
                } else {
                    (Err(Error::Digest), StateView::Unopened)
                },
            },
            _ => if hashed {
                (
                    Ok(None),
                    StateView::Open(
                        OpenView::first(
                            self.draft()->Some_0,
                            opened->Some_0,
                            self.previous_delta(),
                            input,
                            unflushed,
                        ),
                    ),
                )
            } else {
                (Err(Error::Digest), self.state)
            },
        }
    }

    /// The state that a writer is left in when it is closed with
    /// `next_pts`, `digest` being the fingerprint of the file if it could
    /// be computed: a recording that cannot be so closed stays open; one
    /// whose fingerprint failed is given up.
    pub open spec fn closed_with(self, digest: Option<Seq<u8>>, next_pts: Option<i64>) -> StateView {
        match self.state {
            StateView::Open(o) => match o.last_duration(next_pts) {
                Err(_) => self.state,
                Ok(d) => if digest is Some {
                    StateView::Closed(o.closed_state(d, next_pts))
                } else {
                    StateView::Unopened
                },
            },
            _ => self.state,
        }
    }

    /// Whether a writer in this state can be closed with `next_pts`.
    pub open spec fn can_close(self, next_pts: Option<i64>) -> bool {
        match (self.state, next_pts) {
            (StateView::Open(o), Some(p)) => p - o.unflushed.pts_90k <= MAX_PTS_STEP,
            _ => true,
        }
    }
}

/// What is left to write of a frame after a write that took `written`
/// bytes of the `remaining` ones: a write may take less than it was given,
/// and the rest is then written in turn.
pub fn after_write(remaining: usize, written: usize) -> (left: usize)
    requires
        written <= remaining,
    ensures
        left == remaining - written,
{
    remaining - written
}

/// The state of a writer's recording.
enum WriterState {
    Unopened,
    Open(InnerWriter),
    Closed(PreviousWriter),
}

/// What a writer holds of the recording that it has open.
struct InnerWriter {
    r: RecordingToInsert,
    e: SampleIndexEncoder,
    id: CompositeId,
    completed_live_segment_off_90k: i32,
    local_start: Time,
    adjuster: ClockAdjuster,
    unflushed_sample: UnflushedSample,
}

impl InnerWriter {
    spec fn view(self, hashed: Seq<u8>) -> OpenView {
        OpenView {
            r: self.r@,
            e: self.e@,
            id: self.id,
            completed_live_segment_off_90k: self.completed_live_segment_off_90k,
            hashed,
            local_start: self.local_start,
            adjuster: self.adjuster@,
            unflushed: self.unflushed_sample,
        }
    }

    /// The duration to record for the frame that is held back, `raw` ticks
    /// long by the camera's timestamps.
    fn checked_duration(&self, raw: i32, Ghost(hashed): Ghost<Seq<u8>>) -> (r: Result<i32, Error>)
        requires
            self.view(hashed).wf(),
            0 <= raw <= MAX_PTS_STEP,
        ensures
            r == self.view(hashed).checked_duration(raw as int),
            r is Ok ==> 0 <= r->Ok_0 && (raw >= 1 ==> r->Ok_0 >= 1),
    {
        let mut adjuster = self.adjuster;
        proof {
            lemma_adjusted_bounds(self.adjuster@, raw as int);
        }
        let duration_90k = adjuster.adjust(raw);
        let new_duration_90k = self.r.duration_90k as i64 + duration_90k as i64;
        if new_duration_90k > MAX_RECORDING_DURATION {
            Err(
                Error::DurationExceedsMax {
                    duration_90k: new_duration_90k,
                    max: MAX_RECORDING_DURATION,
                },
            )
        } else {
            Ok(duration_90k)
        }
    }

    /// The duration to record for the frame that is held back, once the
    /// next frame has come with the timestamp `pts_90k`.
    fn next_duration(&self, pts_90k: i64, Ghost(hashed): Ghost<Seq<u8>>) -> (r: Result<i32, Error>)
        requires
            self.view(hashed).wf(),
            pts_90k - self.unflushed_sample.pts_90k <= MAX_PTS_STEP,
        ensures
            r == self.view(hashed).next_duration(pts_90k),
            r is Ok ==> 1 <= r->Ok_0 && pts_90k > self.unflushed_sample.pts_90k,
    {
        let held = self.unflushed_sample;
        if pts_90k <= held.pts_90k {
            return Err(Error::PtsNotIncreasing { previous: held.pts_90k, given: pts_90k });
        }
        self.checked_duration((pts_90k - held.pts_90k) as i32, Ghost(hashed))
    }

    /// The duration to record for the last frame of the recording, closed
    /// with `next_pts`.
    fn last_duration(&self, next_pts: Option<i64>, Ghost(hashed): Ghost<Seq<u8>>) -> (r: Result<
        i32,
        Error,
    >)
        requires
            self.view(hashed).wf(),
            next_pts is Some ==> next_pts->Some_0 - self.unflushed_sample.pts_90k <= MAX_PTS_STEP,
        ensures
            r == self.view(hashed).last_duration(next_pts),
            r is Ok ==> 0 <= r->Ok_0,
    {
        let held = self.unflushed_sample;
        let raw: i32 = match next_pts {
            None => 0,
            Some(p) => {
                if p < held.pts_90k {
                    return Err(Error::PtsNotIncreasing { previous: held.pts_90k, given: p });
                }
                (p - held.pts_90k) as i32
            },
        };
        self.checked_duration(raw, Ghost(hashed))
    }
}

/// Writes a run of recordings of one stream: takes the stream's frames one
/// by one, keeps the index and the row of the recording that is open, and
/// hands each recording on when it is closed.
///
/// The writer holds everything of a recording but its file: whoever feeds
/// it writes each frame to the file as well.
pub struct Writer {
    stream_id: i32,
    video_sample_entry_id: i32,
    state: WriterState,
    /// The fingerprint of the sample file of the recording that is open;
    /// left over from the last recording, or none, where none is open.
    hasher: Option<Hasher>,
}

impl View for Writer {
    type V = WriterView;

    closed spec fn view(&self) -> WriterView {
        WriterView {
            stream_id: self.stream_id,
            video_sample_entry_id: self.video_sample_entry_id,
            state: match self.state {
                WriterState::Unopened => StateView::Unopened,
                WriterState::Open(w) => StateView::Open(w.view(self.fingerprint_input())),
                WriterState::Closed(p) => StateView::Closed(p),
            },
        }
    }
}

/// Records the frame that was held back with the duration `duration_90k`.
fn flush_sample(
    r: &mut RecordingToInsert,
    e: &mut SampleIndexEncoder,
    local_start: &mut Time,
    unflushed: UnflushedSample,
    duration_90k: i32,
    Ghost(before): Ghost<OpenView>,
) -> (res: Result<(), Error>)
    requires
        before.wf(),
        before.r == old(r)@,
        before.e == old(e)@,
        before.local_start == *old(local_start),
        before.unflushed == unflushed,
        0 <= duration_90k,
        before.r.duration_90k + duration_90k <= MAX_RECORDING_DURATION,
    ensures
        res is Ok,
        final(r)@ == before.flushed(duration_90k).r,
        final(e)@ == before.flushed(duration_90k).e,
        *final(local_start) == before.flushed(duration_90k).local_start,
{
    match e.add_sample(duration_90k, unflushed.len, unflushed.is_key, r) {
        Ok(()) => {},
        Err(err) => {
            return Err(err);
        },
    }
    let new = Time(unflushed.local_time.0 - r.duration_90k as i64);
    if new.0 < local_start.0 {
        *local_start = new;
    }
    if r.run_offset == 0 {
        r.start = *local_start;
    }
    Ok(())
}

impl Writer {
    /// Whether the writer's fingerprint computes SHA-1 and is fit for use.
    pub closed spec fn fingerprint_ready(&self) -> bool {
        self.hasher is Some && hasher_is_sha1(self.hasher->Some_0)
    }

    /// The bytes that the writer's fingerprint has taken in: where a
    /// recording is open, the bytes of its sample file.
    pub closed spec fn fingerprint_input(&self) -> Seq<u8> {
        match self.hasher {
            Some(h) => hasher_input(h),
            None => Seq::empty(),
        }
    }

    /// Whether the writer is in a state that it can be in; it is after
    /// `new`, and stays so.
    pub open spec fn wf(&self) -> bool {
        self@.wf() && (self@.state is Open ==> self.fingerprint_ready())
    }

    /// A writer for the stream `stream_id`, which has opened no recording.
    pub fn new(stream_id: i32, video_sample_entry_id: i32) -> (w: Writer)
        ensures
            w.wf(),
            w@.wf(),
            w@ == (WriterView { stream_id, video_sample_entry_id, state: StateView::Unopened }),
    {
        Writer { stream_id, video_sample_entry_id, state: WriterState::Unopened, hasher: None }
    }

    /// Whether the writer has closed a recording, and has none open.
    pub fn previously_opened(&self) -> (r: Result<bool, Error>)
        ensures
            r == (match self@.state {
                StateView::Unopened => Ok::<bool, Error>(false),
                StateView::Closed(_) => Ok::<bool, Error>(true),
                StateView::Open(_) => Err::<bool, Error>(Error::Open),
            }),
    {
        match &self.state {
            WriterState::Unopened => Ok(false),
            WriterState::Closed(_) => Ok(true),
            WriterState::Open(_) => Err(Error::Open),
        }
    }

    /// The row to reserve in the metadata store before the next frame is
    /// written, where the writer has no recording open.
    pub fn recording_to_add(&self) -> (r: Option<RecordingToInsert>)
        requires
            self@.state matches StateView::Closed(p) ==> p.run_offset < i32::MAX,
        ensures
            match r {
                Some(row) => self@.draft() == Some(row@),
                None => self@.draft() is None,
            },
    {
        let (run_offset, start) = match &self.state {
            WriterState::Open(_) => {
                return None;
            },
            WriterState::Unopened => (0, Time(i64::MAX)),
            WriterState::Closed(p) => (p.run_offset + 1, p.end),
        };
        let mut row = RecordingToInsert::default();
        row.run_offset = run_offset;
        row.start = start;
        row.video_sample_entry_id = self.video_sample_entry_id;
        row.flags = RecordingFlags::Growing.bits();
        Some(row)
    }

    /// Whether the frame with the timestamp `pts_90k` is refused by the
    /// recording that is open, and why.
    fn check_frame(&self, pts_90k: i64) -> (r: Result<(), Error>)
        requires
            self@.wf(),
            self@.state matches StateView::Open(o) ==> pts_90k - o.unflushed.pts_90k
                <= MAX_PTS_STEP,
        ensures
            match self@.state {
                StateView::Open(o) => match o.next_duration(pts_90k) {
                    Err(e) => r == Err::<(), Error>(e),
                    Ok(_) => r is Ok,
                },
                _ => r is Ok,
            },
    {
        match &self.state {
            WriterState::Open(w) => match w.next_duration(
                pts_90k,
                Ghost(self.fingerprint_input()),
            ) {
                Ok(_) => Ok(()),
                Err(e) => Err(e),
            },
            _ => Ok(()),
        }
    }

    /// Whether the recording that is open cannot be closed with `next_pts`,
    /// and why.
    fn check_close(&self, next_pts: Option<i64>) -> (r: Result<(), Error>)
        requires
            self@.wf(),
            self@.can_close(next_pts),
        ensures
            match self@.state {
                StateView::Open(o) => match o.last_duration(next_pts) {
                    Err(e) => r == Err::<(), Error>(e),
                    Ok(_) => r is Ok,
                },
                _ => r is Ok,
            },
    {
        match &self.state {
            WriterState::Open(w) => match w.last_duration(
                next_pts,
                Ghost(self.fingerprint_input()),
            ) {
                Ok(_) => Ok(()),
                Err(e) => Err(e),
            },
            _ => Ok(()),
        }
    }

    /// Takes a frame of the stream: `pkt` is the frame, `local_time` the
    /// local time at which it was received, `pts_90k` its timestamp.
    ///
    /// Where the writer has no recording open, it opens one: `opened` is
    /// then the id under which the row of `recording_to_add` was reserved.
    /// Else the frame that was held back goes into the index, with the time
    /// up to the new frame as its duration, corrected for the drift of the
    /// camera's clock; a frame whose timestamp does not lie after that of
    /// the frame before it is refused, and so is one that would take the
    /// recording beyond the longest duration. A refused frame leaves the
    /// writer as it was. The new frame is then held back in turn. Where it
    /// is a key frame, the frames before it make up a live segment, which
    /// is returned.
    ///
    /// The frame goes into the fingerprint of the sample file, and what it
    /// comes to is what `frame_hashed` makes of the outcome. Where the
    /// fingerprint cannot be computed, the recording is given up.
    pub fn write(
        &mut self,
        opened: Option<CompositeId>,
        pkt: &[u8],
        local_time: Time,
        pts_90k: i64,
        is_key: bool,
    ) -> (res: Result<Option<LiveSegment>, Error>)
        requires
            old(self).wf(),
            old(self)@.can_write(opened, pkt@.len() as int, local_time, pts_90k),
        ensures
            final(self).wf(),
            final(self)@.wf(),
            final(self)@.stream_id == old(self)@.stream_id,
            final(self)@.video_sample_entry_id == old(self)@.video_sample_entry_id,
            res == Err::<Option<LiveSegment>, Error>(Error::Digest) || ({
                let unflushed = UnflushedSample {
                    local_time,
                    pts_90k,
                    len: pkt@.len() as i32,
                    is_key,
                };
                match old(self)@.state {
                    StateView::Open(o) => match o.next_duration(pts_90k) {
                        Err(e) => res == Err::<Option<LiveSegment>, Error>(e) && final(self)@
                            == old(self)@,
                        Ok(d) => res == Ok::<Option<LiveSegment>, Error>(
                            o.written(d, pkt@, unflushed).1,
                        ) && final(self)@.state == StateView::Open(
                            o.written(d, pkt@, unflushed).0,
                        ),
                    },
                    _ => res == Ok::<Option<LiveSegment>, Error>(None) && final(self)@.state
                        == StateView::Open(
                        OpenView::first(
                            old(self)@.draft()->Some_0,
                            opened->Some_0,
                            old(self)@.previous_delta(),
                            pkt@,
                            unflushed,
                        ),
                    ),
                }
            }),
            res == Err::<Option<LiveSegment>, Error>(Error::Digest) ==> (match old(self)@.state {
                StateView::Open(o) => o.next_duration(pts_90k) is Ok && final(self)@.state
                    is Unopened,
                _ => final(self)@ == old(self)@,
            }),
    {
        let ghost before = self@;
        match self.check_frame(pts_90k) {
            Ok(()) => {},
            Err(e) => {
                return Err(e);
            },
        }
        match &self.state {
            WriterState::Open(_) => {},
            _ => {
                self.hasher = match sha1_hasher() {
                    Ok(h) => Some(h),
                    Err(_) => None,
                };
            },
        }
        let ghost input = self.fingerprint_input();
        let hashed = match self.hasher.take() {
            Some(mut h) => {
                let taken = sha1_update(&mut h, pkt).is_ok();
                self.hasher = Some(h);
                taken
            },
            None => false,
        };
        proof {
            if hashed {
                assert(self.fingerprint_input() == input + pkt@);
                if !(before.state is Open) {
                    assert(self.fingerprint_input() =~= pkt@);
                }
            }
        }
        self.frame_hashed(hashed, opened, pkt.len(), local_time, pts_90k, is_key)
    }

    /// Takes a frame of the stream whose bytes the fingerprint of the
    /// sample file has been asked to take in: `hashed` tells whether it
    /// did. `len` is the length of the frame, `local_time` the local time
    /// at which it was received, `pts_90k` its timestamp, and `opened` the
    /// id of the recording that was reserved for it, where none is open.
    ///
    /// A frame that the recording refuses leaves the writer as it was. A
    /// frame that the fingerprint did not take in ends the recording that
    /// is open. Else the frame is taken as `write` tells.
    pub fn frame_hashed(
        &mut self,
        hashed: bool,
        opened: Option<CompositeId>,
        len: usize,
        local_time: Time,
        pts_90k: i64,
        is_key: bool,
    ) -> (res: Result<Option<LiveSegment>, Error>)
        requires
            old(self)@.wf(),
            old(self)@.can_write(opened, len as int, local_time, pts_90k),
            hashed ==> old(self).fingerprint_ready(),
        ensures
            (res, final(self)@.state) == old(self)@.frame_taken(
                hashed,
                opened,
                old(self).fingerprint_input(),
                UnflushedSample { local_time, pts_90k, len: len as i32, is_key },
            ),
            final(self)@.wf(),
            final(self)@.stream_id == old(self)@.stream_id,
            final(self)@.video_sample_entry_id == old(self)@.video_sample_entry_id,
            final(self).fingerprint_ready() == old(self).fingerprint_ready(),
            final(self).fingerprint_input() == old(self).fingerprint_input(),
            hashed || old(self).wf() ==> final(self).wf(),
    {
        let unflushed = UnflushedSample { local_time, pts_90k, len: len as i32, is_key };
        let ghost input = self.fingerprint_input();
        let mut state = WriterState::Unopened;
        std::mem::swap(&mut self.state, &mut state);
        match state {
            WriterState::Open(mut w) => {
                let held = w.unflushed_sample;
                let ghost before = w.view(input);
                let duration_90k = match w.next_duration(pts_90k, Ghost(input)) {
                    Ok(d) => d,
                    Err(e) => {
                        self.state = WriterState::Open(w);
                        return Err(e);
                    },
                };
                if !hashed {
                    return Err(Error::Digest);
                }
                proof {
                    lemma_adjusted_bounds(w.adjuster@, pts_90k - held.pts_90k);
                }
                let _ = w.adjuster.adjust((pts_90k - held.pts_90k) as i32);
                match flush_sample(
                    &mut w.r,
                    &mut w.e,
                    &mut w.local_start,
                    held,
                    duration_90k,
                    Ghost(before),
                ) {
                    Ok(()) => {},
                    Err(e) => {
                        return Err(e);
                    },
                }
                let live = if is_key {
                    let segment = LiveSegment {
                        recording: w.id.recording(),
                        off_90k: w.completed_live_segment_off_90k..w.r.duration_90k,
                    };
                    w.completed_live_segment_off_90k = w.r.duration_90k;
                    Some(segment)
                } else {
                    None
                };
                w.unflushed_sample = unflushed;
                proof {
                    assert(w.view(input) == before.took(duration_90k, unflushed).0);
                }
                self.state = WriterState::Open(w);
                Ok(live)
            },
            other => {
                self.state = other;
                if !hashed {
                    return Err(Error::Digest);
                }
                let row = match self.recording_to_add() {
                    Some(row) => row,
                    None => {
                        return Err(Error::Open);
                    },
                };
                let id = match opened {
                    Some(id) => id,
                    None => {
                        return Err(Error::Open);
                    },
                };
                let previous_delta = match &self.state {
                    WriterState::Closed(p) => Some(p.local_time_delta.0),
                    _ => None,
                };
                self.state = WriterState::Open(
                    InnerWriter {
                        r: row,
                        e: SampleIndexEncoder::new(),
                        id,
                        completed_live_segment_off_90k: 0,
                        local_start: Time(i64::MAX),
                        adjuster: ClockAdjuster::new(previous_delta),
                        unflushed_sample: unflushed,
                    },
                );
                Ok(None)
            },
        }
    }

    /// Closes the recording that is open, if any: the frame that was held
    /// back goes into the index, with the time up to `next_pts` as its
    /// duration if that is known, and with none if not; the recording's row
    /// is finished and returned, with the last live segment.
    ///
    /// A `next_pts` before the timestamp of the last frame is refused, and
    /// so is one that would take the recording beyond the longest duration;
    /// the writer is then left as it was. The fingerprint of the sample
    /// file is finished, and what the closing comes to is what
    /// `close_hashed` makes of the outcome. Where the fingerprint cannot be
    /// computed, the recording is given up.
    pub fn close(&mut self, next_pts: Option<i64>) -> (res: Result<Option<ClosedRecording>, Error>)
        requires
            old(self).wf(),
            old(self)@.can_close(next_pts),
        ensures
            final(self).wf(),
            final(self)@.wf(),
            final(self)@.stream_id == old(self)@.stream_id,
            final(self)@.video_sample_entry_id == old(self)@.video_sample_entry_id,
            match old(self)@.state {
                StateView::Open(o) => match o.last_duration(next_pts) {
                    Err(e) => res == Err::<Option<ClosedRecording>, Error>(e) && final(self)@
                        == old(self)@,
                    Ok(d) => (res == Err::<Option<ClosedRecording>, Error>(Error::Digest) && final(self)@.state is Unopened) || ({
                        &&& res is Ok
                        &&& res->Ok_0 is Some
                        &&& res->Ok_0->Some_0.id == o.id
                        &&& res->Ok_0->Some_0.recording@ == o.closed_row(d, next_pts)
                        &&& res->Ok_0->Some_0.total_duration == Duration(
                            o.closed_row(d, next_pts).duration_90k as i64,
                        )
                        &&& res->Ok_0->Some_0.live_segment == (LiveSegment {
                            recording: o.id.spec_recording(),
                            off_90k: o.completed_live_segment_off_90k..o.closed_row(
                                d,
                                next_pts,
                            ).duration_90k,
                        })
                        &&& final(self)@.state == StateView::Closed(o.closed_state(d, next_pts))
                    }),
                },
                _ => res is Ok && res->Ok_0 is None && final(self)@ == old(self)@,
            },
    {
        match self.check_close(next_pts) {
            Ok(()) => {},
            Err(e) => {
                return Err(e);
            },
        }
        let open = match &self.state {
            WriterState::Open(_) => true,
            _ => false,
        };
        let digest = if open {
            match self.hasher.take() {
                Some(mut h) => {
                    let finished = match sha1_finish(&mut h) {
                        Ok(d) => Some(d),
                        Err(_) => None,
                    };
                    self.hasher = Some(h);
                    finished
                },
                None => None,
            }
        } else {
            None
        };
        self.close_hashed(digest, next_pts)
    }

    /// Closes the recording that is open, if any, the fingerprint of its
    /// sample file having been asked for: `digest` is the fingerprint, if
    /// it could be computed.
    ///
    /// A recording that cannot be closed with `next_pts` stays open, and
    /// the writer is left as it was. A recording whose fingerprint could
    /// not be computed is given up. Else the recording is closed as `close`
    /// tells, with `digest` as its fingerprint.
    pub fn close_hashed(&mut self, digest: Option<[u8; 20]>, next_pts: Option<i64>) -> (res: Result<
        Option<ClosedRecording>,
        Error,
    >)
        requires
            old(self)@.wf(),
            old(self)@.can_close(next_pts),
        ensures
            final(self)@.wf(),
            final(self)@.stream_id == old(self)@.stream_id,
            final(self)@.video_sample_entry_id == old(self)@.video_sample_entry_id,
            final(self).fingerprint_ready() == old(self).fingerprint_ready(),
            final(self).fingerprint_input() == old(self).fingerprint_input(),
            final(self)@.state == old(self)@.closed_with(
                match digest {
                    Some(d) => Some(d@),
                    None => None,
                },
                next_pts,
            ),
            !(final(self)@.state is Open) ==> final(self).wf(),
            match old(self)@.state {
                StateView::Open(o) => match o.last_duration(next_pts) {
                    Err(e) => res == Err::<Option<ClosedRecording>, Error>(e),
                    Ok(d) => match digest {
                        None => res == Err::<Option<ClosedRecording>, Error>(Error::Digest),
                        Some(bytes) => {
                            &&& res is Ok
                            &&& res->Ok_0 is Some
                            &&& res->Ok_0->Some_0.id == o.id
                            &&& res->Ok_0->Some_0.recording@ == o.closed_row_with(
                                d,
                                next_pts,
                                bytes@,
                            )
                            &&& res->Ok_0->Some_0.total_duration == Duration(
                                o.closed_row_with(d, next_pts, bytes@).duration_90k as i64,
                            )
                            &&& res->Ok_0->Some_0.live_segment == (LiveSegment {
                                recording: o.id.spec_recording(),
                                off_90k: o.completed_live_segment_off_90k..o.closed_row_with(
                                    d,
                                    next_pts,
                                    bytes@,
                                ).duration_90k,
                            })
                        },
                    },
                },
                _ => res is Ok && res->Ok_0 is None,
            },
    {
        let ghost input = self.fingerprint_input();
        let mut state = WriterState::Unopened;
        std::mem::swap(&mut self.state, &mut state);
        match state {
            WriterState::Open(mut w) => {
                let held = w.unflushed_sample;
                let ghost before = w.view(input);
                let duration_90k = match w.last_duration(next_pts, Ghost(input)) {
                    Ok(d) => d,
                    Err(e) => {
                        self.state = WriterState::Open(w);
                        return Err(e);
                    },
                };
                let sha1_bytes = match digest {
                    Some(d) => d,
                    None => {
                        return Err(Error::Digest);
                    },
                };
                let flags = match next_pts {
                    None => RecordingFlags::TrailingZero.bits(),
                    Some(_) => 0,
                };
                match flush_sample(
                    &mut w.r,
                    &mut w.e,
                    &mut w.local_start,
                    held,
                    duration_90k,
                    Ghost(before),
                ) {
                    Ok(()) => {},
                    Err(e) => {
                        return Err(e);
                    },
                }
                let live_segment = LiveSegment {
                    recording: w.id.recording(),
                    off_90k: w.completed_live_segment_off_90k..w.r.duration_90k,
                };
                let mut r = w.r;
                r.flags = flags;
                proof {
                    let f = before.flushed(duration_90k);
                    assert(MAX_RECORDING_DURATION == 27_000_000);
                    assert(MAX_LOCAL_TIME == 0x2000_0000_0000_0000);
                    assert(-MAX_LOCAL_TIME - MAX_RECORDING_DURATION <= f.local_start.0
                        <= MAX_LOCAL_TIME);
                    assert(f.r.run_offset == 0 ==> f.r.start == f.local_start);
                    assert(f.r.run_offset > 0 ==> -time_bound(f.r.run_offset - 1) <= f.r.start.0
                        <= time_bound(f.r.run_offset - 1));
                }
                let local_time_delta = Duration(w.local_start.0 - r.start.0);
                r.local_time_delta = local_time_delta;
                r.sample_file_sha1 = sha1_bytes;
                let total_duration = Duration(r.duration_90k as i64);
                let end = Time(r.start.0 + total_duration.0);
                self.state = WriterState::Closed(
                    PreviousWriter { end, local_time_delta, run_offset: r.run_offset },
                );
                proof {
                    assert(r@ =~= before.closed_row_with(duration_90k, next_pts, sha1_bytes@));
                }
                Ok(Some(ClosedRecording { id: w.id, recording: r, total_duration, live_segment }))
            },
            other => {
                self.state = other;
                Ok(None)
            },
        }
    }

    /// The row of the recording that is open, as far as it is written.
    pub fn recording(&self) -> (r: Option<&RecordingToInsert>)
        ensures
            match self@.state {
                StateView::Open(o) => r is Some && r->Some_0@ == o.r,
                _ => r is None,
            },
    {
        match &self.state {
            WriterState::Open(w) => Some(&w.r),
            _ => None,
        }
    }

    /// What the writer remembers of the recording that it closed last,
    /// where it has closed one and has none open.
    pub fn previous(&self) -> (r: Option<PreviousWriter>)
        ensures
            match self@.state {
                StateView::Closed(p) => r == Some(p),
                _ => r is None,
            },
    {
        match &self.state {
            WriterState::Closed(p) => Some(*p),
            _ => None,
        }
    }

    /// The frame that is held back, where a recording is open.
    pub fn unflushed_sample(&self) -> (r: Option<UnflushedSample>)
        ensures
            match self@.state {
                StateView::Open(o) => r == Some(o.unflushed),
                _ => r is None,
            },
    {
        match &self.state {
            WriterState::Open(w) => Some(w.unflushed_sample),
            _ => None,
        }
    }
}

} // verus!
