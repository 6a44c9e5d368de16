//! The shapes of the rows that the metadata store keeps of recordings.

use crate::recording::{Duration, EncState, Sample, Time};
use crate::recording::spec_encode_sample;
use std::ops::Range;
use vstd::prelude::*;

verus! {

/// The identifier of a recording: its stream's id in the high 32 bits, its
/// own id within the stream in the low 32 bits.
#[derive(Clone, Copy, Debug, PartialEq, Eq, Structural, Hash)]
pub struct CompositeId(pub i64);

impl CompositeId {
    /// The identifier made of the two given ids.
    pub open spec fn spec_new(stream_id: i32, recording_id: i32) -> CompositeId {
        CompositeId((stream_id * 0x1_0000_0000 + (recording_id as u32)) as i64)
    }

    /// The stream id held in the high half.
    pub open spec fn spec_stream(self) -> i32 {
        (self.0 / 0x1_0000_0000) as i32
    }

    /// The recording id held in the low half.
    pub open spec fn spec_recording(self) -> i32 {
        ((self.0 % 0x1_0000_0000) as u32) as i32
    }

    /// Packs a stream id and a recording id.
    pub fn new(stream_id: i32, recording_id: i32) -> (id: CompositeId)
        ensures
            id == Self::spec_new(stream_id, recording_id),
            id.spec_stream() == stream_id,
            id.spec_recording() == recording_id,
    {
        let low = recording_id as u32;
        let v = ((stream_id as i64) << 32) | (low as i64);
        assert(v == (stream_id * 0x1_0000_0000 + low) as i64 && (v / 0x1_0000_0000) as i32
            == stream_id && ((v % 0x1_0000_0000) as u32) == low) by (bit_vector)
            requires
                v == ((stream_id as i64) << 32) | (low as i64),
        ;
        assert((low as i32) == recording_id) by (bit_vector)
            requires
                low == recording_id as u32,
        ;
        CompositeId(v)
    }

    /// The stream that the recording belongs to.
    pub fn stream(self) -> (s: i32)
        ensures
            s == self.spec_stream(),
    {
        let v = self.0;
        let s = (v >> 32) as i32;
        assert(s == (v / 0x1_0000_0000) as i32) by (bit_vector)
            requires
                s == (v >> 32) as i32,
        ;
        s
    }

    /// The recording's id within its stream.
    pub fn recording(self) -> (r: i32)
        ensures
            r == self.spec_recording(),
    {
        let v = self.0;
        let r = v as i32;
        assert(r == ((v % 0x1_0000_0000) as u32) as i32) by (bit_vector)
            requires
                r == v as i32,
        ;
        r
    }
}

/// The bits of a recording's `flags`.
#[derive(Clone, Copy, Debug, PartialEq, Eq, Structural)]
pub enum RecordingFlags {
    /// The last sample of the recording has a duration of zero.
    TrailingZero,
    /// The recording is still being written.
    Growing,
}

impl RecordingFlags {
    /// The bit that stands for the flag.
    pub open spec fn spec_bits(self) -> i32 {
        match self {
            RecordingFlags::TrailingZero => 1,
            RecordingFlags::Growing => 2,
        }
    }

    /// The bit that stands for the flag.
    pub fn bits(self) -> (b: i32)
        ensures
            b == self.spec_bits(),
    {
        match self {
            RecordingFlags::TrailingZero => 1,
            RecordingFlags::Growing => 2,
        }
    }
}

/// A recording while it is being written, and as it is handed to the store.
#[derive(Clone, Debug)]
pub struct RecordingToInsert {
    pub run_offset: i32,
    pub flags: i32,
    pub sample_file_bytes: i32,
    pub start: Time,
    pub duration_90k: i32,
    pub local_time_delta: Duration,
    pub video_samples: i32,
    pub video_sync_samples: i32,
    pub video_sample_entry_id: i32,
    pub video_index: Vec<u8>,
    pub sample_file_sha1: [u8; 20],
}

/// What a [`RecordingToInsert`] holds.
pub struct RecordingView {
    pub run_offset: i32,
    pub flags: i32,
    pub sample_file_bytes: i32,
    pub start: Time,
    pub duration_90k: i32,
    pub local_time_delta: Duration,
    pub video_samples: i32,
    pub video_sync_samples: i32,
    pub video_sample_entry_id: i32,
    pub video_index: Seq<u8>,
    pub sample_file_sha1: Seq<u8>,
}

impl RecordingView {
    /// The recording of which nothing is known yet: all zero, the index
    /// empty.
    pub open spec fn empty() -> RecordingView {
        RecordingView {
            run_offset: 0,
            flags: 0,
            sample_file_bytes: 0,
            start: Time(0),
            duration_90k: 0,
            local_time_delta: Duration(0),
            video_samples: 0,
            video_sync_samples: 0,
            video_sample_entry_id: 0,
            video_index: Seq::empty(),
            sample_file_sha1: Seq::new(20, |i: int| 0u8),
        }
    }

    /// The recording with the sample `s` added behind an encoder state
    /// `st`: the index grown by the sample's bytes, and the duration, the
    /// length and the counts grown by the sample.
    pub open spec fn with_sample(self, st: EncState, s: Sample) -> RecordingView {
        RecordingView {
            video_index: self.video_index + spec_encode_sample(st, s),
            duration_90k: (self.duration_90k + s.duration_90k) as i32,
            sample_file_bytes: (self.sample_file_bytes + s.bytes) as i32,
            video_samples: (self.video_samples + 1) as i32,
            video_sync_samples: (self.video_sync_samples + (if s.is_key {
                1int
            } else {
                0int
            })) as i32,
            ..self
        }
    }
}

impl View for RecordingToInsert {
    type V = RecordingView;

    open spec fn view(&self) -> RecordingView {
        RecordingView {
            run_offset: self.run_offset,
            flags: self.flags,
            sample_file_bytes: self.sample_file_bytes,
            start: self.start,
            duration_90k: self.duration_90k,
            local_time_delta: self.local_time_delta,
            video_samples: self.video_samples,
            video_sync_samples: self.video_sync_samples,
            video_sample_entry_id: self.video_sample_entry_id,
            video_index: self.video_index@,
            sample_file_sha1: self.sample_file_sha1@,
        }
    }
}

impl Default for RecordingToInsert {
    fn default() -> (r: RecordingToInsert)
        ensures
            r@ == RecordingView::empty(),
    {
        let r = RecordingToInsert {
            run_offset: 0,
            flags: 0,
            sample_file_bytes: 0,
            start: Time(0),
            duration_90k: 0,
            local_time_delta: Duration(0),
            video_samples: 0,
            video_sync_samples: 0,
            video_sample_entry_id: 0,
            video_index: Vec::new(),
            sample_file_sha1: [0u8; 20],
        };
        assert(r.sample_file_sha1@ =~= Seq::new(20, |i: int| 0u8));
        assert(r.video_index@ =~= Seq::<u8>::empty());
        r
    }
}

/// A stretch of a recording that has just become ready to be shown live:
/// it ends where a key frame begins.
#[derive(Debug)]
pub struct LiveSegment {
    /// The id, within its stream, of the recording.
    pub recording: i32,
    /// The stretch, in 90 kHz ticks from the start of the recording.
    pub off_90k: Range<i32>,
}

/// What the store knows of a stream, as far as the engine reads it.
#[derive(Clone, Copy, Debug)]
pub struct Stream {
    /// The stream's id.
    pub id: i32,
    /// The sample file directory that holds the stream's recordings.
    pub sample_file_dir_id: Option<i32>,
    /// The number of bytes of recordings to keep.
    pub retain_bytes: i64,
    /// The longest that a recording may wait for the store to be flushed,
    /// in seconds from its start.
    pub flush_if_sec: i64,
    /// The bytes on the filesystem of the recordings that are committed.
    pub fs_bytes: i64,
    /// The bytes of the recordings that are to be added at the next flush.
    pub fs_bytes_to_add: i64,
    /// The bytes of the recordings that are to be deleted at the next
    /// flush.
    pub fs_bytes_to_delete: i64,
    /// The id that the stream's next recording will get.
    pub next_recording_id: i32,
}

/// A recording as the store lists it.
#[derive(Clone, Copy, Debug)]
pub struct ListRecordingsRow {
    pub start: Time,
    pub video_sample_entry_id: i32,
    pub id: CompositeId,
    pub duration_90k: i32,
    pub video_samples: i32,
    pub video_sync_samples: i32,
    pub sample_file_bytes: i32,
    pub run_offset: i32,
    pub open_id: u32,
    pub flags: i32,
}

} // verus!
