//! The sample index of a recording: its encoder, its iterator, and the
//! segments that playback cuts out of it.

use crate::coding::{
    append_varint32, decode_varint32, spec_decode_varint32, spec_unzigzag32, spec_varint32,
    spec_zigzag32, unzigzag32, zigzag32,
};
use crate::db::{CompositeId, ListRecordingsRow, RecordingToInsert};
use crate::error::Error;
use std::ops::Range;
use vstd::prelude::*;

pub mod round_trip;
pub mod segment_proofs;

verus! {

/// The number of time units in a second: times are counted in ticks of a
/// 90 kHz clock.
pub const TIME_UNITS_PER_SEC: i64 = 90000;

/// The duration at which a recording is meant to be closed.
pub const DESIRED_RECORDING_DURATION: i64 = 60 * TIME_UNITS_PER_SEC;

/// The longest duration that a recording's index may hold.
pub const MAX_RECORDING_DURATION: i64 = 5 * 60 * TIME_UNITS_PER_SEC;

/// A moment, in 90 kHz ticks since the epoch.
#[derive(Clone, Copy, Debug, PartialEq, Eq, Structural, Hash)]
pub struct Time(pub i64);

/// A span of time, in 90 kHz ticks.
#[derive(Clone, Copy, Debug, PartialEq, Eq, Structural, Hash)]
pub struct Duration(pub i64);

/// One entry of a sample index.
#[derive(Clone, Copy, Debug, PartialEq, Eq, Structural)]
pub struct Sample {
    /// The time for which the frame is shown, in 90 kHz ticks.
    pub duration_90k: i32,
    /// The length of the frame in the sample file.
    pub bytes: i32,
    /// Whether the frame can be decoded without those before it.
    pub is_key: bool,
}

/// What a [`SampleIndexIterator`] holds.
pub struct IterState {
    /// The position, in the index, of the next sample to read.
    pub i: int,
    /// Whether the current sample is a key frame.
    pub is_key: bool,
    /// Where the current sample starts in the sample file.
    pub pos: i32,
    /// When the current sample starts in the recording.
    pub start_90k: i32,
    /// The duration of the current sample.
    pub duration_90k: i32,
    /// The length of the current sample.
    pub bytes: i32,
    /// The length of the last sample of the other kind: where the current
    /// one is a key frame, of the last that was none, and the reverse.
    pub bytes_other: i32,
}

impl IterState {
    /// The state of an iterator that has read nothing.
    pub open spec fn initial() -> IterState {
        IterState {
            i: 0,
            is_key: false,
            pos: 0,
            start_90k: 0,
            duration_90k: 0,
            bytes: 0,
            bytes_other: 0,
        }
    }

    /// The current sample.
    pub open spec fn sample(self) -> Sample {
        Sample { duration_90k: self.duration_90k, bytes: self.bytes, is_key: self.is_key }
    }

    /// The length of the last key frame up to the current sample.
    pub open spec fn prev_bytes_key(self) -> i32 {
        if self.is_key {
            self.bytes
        } else {
            self.bytes_other
        }
    }

    /// The length of the last frame up to the current sample that was no
    /// key frame.
    pub open spec fn prev_bytes_nonkey(self) -> i32 {
        if self.is_key {
            self.bytes_other
        } else {
            self.bytes
        }
    }

    /// The state with the current sample left behind: its length added to
    /// the file position and its duration to the time, both in 32-bit
    /// wrapping arithmetic.
    pub open spec fn advanced(self) -> IterState {
        IterState {
            pos: self.pos.wrapping_add(self.bytes),
            start_90k: self.start_90k.wrapping_add(self.duration_90k),
            ..self
        }
    }
}

/// One step of an iterator over the index `data`: the state it is left in,
/// and whether it reached a sample (`Ok(true)`), the end of the index
/// (`Ok(false)`) or an error.
///
/// A step first leaves the current sample behind. At the end of the index
/// nothing else changes. Else the two varints of the next sample are read:
/// the first holds the key flag in its low bit and above it the zigzag
/// change of the duration against the sample before; the second holds the
/// zigzag change of the length against the last sample of the same kind.
/// After an error the state is as at the end of the index.
#[verifier::opaque]
pub open spec fn spec_next(st: IterState, data: Seq<u8>) -> (IterState, Result<bool, Error>) {
    let adv = st.advanced();
    if st.i == data.len() {
        (adv, Ok(false))
    } else {
        match spec_decode_varint32(data, st.i) {
            None => (adv, Err(Error::BadVarint1 { offset: st.i as usize })),
            Some((raw1, i1)) => match spec_decode_varint32(data, i1) {
                None => (adv, Err(Error::BadVarint2 { offset: i1 as usize })),
                Some((raw2, i2)) => {
                    let delta = spec_unzigzag32(raw1 / 2);
                    let duration_90k = st.duration_90k.wrapping_add(delta);
                    let is_key = raw1 % 2 == 1;
                    let bytes_delta = spec_unzigzag32(raw2);
                    let prev = if is_key {
                        st.prev_bytes_key()
                    } else {
                        st.prev_bytes_nonkey()
                    };
                    let bytes = prev.wrapping_add(bytes_delta);
                    if duration_90k < 0 {
                        (adv, Err(Error::NegativeDuration { duration_90k, delta }))
                    } else if duration_90k == 0 && data.len() > i2 {
                        (
                            adv,
                            Err(
                                Error::ZeroDurationNotAtEnd {
                                    bytes_left: (data.len() - i2) as usize,
                                },
                            ),
                        )
                    } else if bytes <= 0 {
                        (
                            adv,
                            Err(
                                Error::NonPositiveBytes {
                                    bytes,
                                    delta: bytes_delta,
                                    is_key,
                                    start_90k: adv.start_90k,
                                },
                            ),
                        )
                    } else {
                        (
                            IterState {
                                i: i2,
                                is_key,
                                pos: adv.pos,
                                start_90k: adv.start_90k,
                                duration_90k,
                                bytes,
                                bytes_other: if is_key {
                                    st.prev_bytes_nonkey()
                                } else {
                                    st.prev_bytes_key()
                                },
                            },
                            Ok(true),
                        )
                    }
                },
            },
        }
    }
}

/// What a [`SampleIndexEncoder`] remembers of the samples that it has
/// encoded.
pub struct EncState {
    /// The duration of the last sample, 0 before the first.
    pub prev_duration_90k: i32,
    /// The length of the last key frame, 0 before the first.
    pub prev_bytes_key: i32,
    /// The length of the last frame that was no key frame, 0 before the
    /// first.
    pub prev_bytes_nonkey: i32,
}

impl EncState {
    /// The state of an encoder that has encoded nothing.
    pub open spec fn initial() -> EncState {
        EncState { prev_duration_90k: 0, prev_bytes_key: 0, prev_bytes_nonkey: 0 }
    }

    /// The length of the last frame of the kind given.
    pub open spec fn prev_bytes(self, is_key: bool) -> i32 {
        if is_key {
            self.prev_bytes_key
        } else {
            self.prev_bytes_nonkey
        }
    }

    /// The state after `s` has been encoded.
    pub open spec fn after(self, s: Sample) -> EncState {
        EncState {
            prev_duration_90k: s.duration_90k,
            prev_bytes_key: if s.is_key {
                s.bytes
            } else {
                self.prev_bytes_key
            },
            prev_bytes_nonkey: if s.is_key {
                self.prev_bytes_nonkey
            } else {
                s.bytes
            },
        }
    }

    /// The state after all of `samples` have been encoded, one after the
    /// other.
    pub open spec fn after_all(self, samples: Seq<Sample>) -> EncState
        decreases samples.len(),
    {
        if samples.len() == 0 {
            self
        } else {
            self.after_all(samples.drop_last()).after(samples.last())
        }
    }
}

/// The first varint of a sample: the zigzag change of the duration, moved
/// up by one bit, with the key flag in the low bit.
pub open spec fn spec_first_varint(st: EncState, s: Sample) -> u32 {
    (2 * spec_zigzag32((s.duration_90k - st.prev_duration_90k) as i32) + (if s.is_key {
        1int
    } else {
        0int
    })) as u32
}

/// The second varint of a sample: the zigzag change of the length against
/// the last sample of the same kind.
pub open spec fn spec_second_varint(st: EncState, s: Sample) -> u32 {
    spec_zigzag32((s.bytes - st.prev_bytes(s.is_key)) as i32)
}

/// The bytes that stand for the sample `s` behind an encoder state `st`.
pub open spec fn spec_encode_sample(st: EncState, s: Sample) -> Seq<u8> {
    spec_varint32(spec_first_varint(st, s)) + spec_varint32(spec_second_varint(st, s))
}

/// The index that stands for `samples`.
pub open spec fn spec_encode(samples: Seq<Sample>) -> Seq<u8>
    decreases samples.len(),
{
    if samples.len() == 0 {
        Seq::empty()
    } else {
        spec_encode(samples.drop_last()) + spec_encode_sample(
            EncState::initial().after_all(samples.drop_last()),
            samples.last(),
        )
    }
}

/// Writes the sample index of a recording, one sample at a time.
#[derive(Debug)]
pub struct SampleIndexEncoder {
    prev_duration_90k: i32,
    prev_bytes_key: i32,
    prev_bytes_nonkey: i32,
}

impl View for SampleIndexEncoder {
    type V = EncState;

    closed spec fn view(&self) -> EncState {
        EncState {
            prev_duration_90k: self.prev_duration_90k,
            prev_bytes_key: self.prev_bytes_key,
            prev_bytes_nonkey: self.prev_bytes_nonkey,
        }
    }
}

impl SampleIndexEncoder {
    #[verifier::type_invariant]
    spec fn inv(self) -> bool {
        self.prev_duration_90k >= 0 && self.prev_bytes_key >= 0 && self.prev_bytes_nonkey >= 0
    }

    /// An encoder that has encoded nothing.
    pub fn new() -> (e: SampleIndexEncoder)
        ensures
            e@ == EncState::initial(),
    {
        SampleIndexEncoder { prev_duration_90k: 0, prev_bytes_key: 0, prev_bytes_nonkey: 0 }
    }

    /// Appends a sample to the recording `r`: to its index, and to its
    /// duration, length and sample counts.
    ///
    /// A sample that would take the recording beyond
    /// [`MAX_RECORDING_DURATION`] is refused, and the recording is left as it
    /// was; the encoder then has taken note of the refused duration all the
    /// same.
    pub fn add_sample(
        &mut self,
        duration_90k: i32,
        bytes: i32,
        is_key: bool,
        r: &mut RecordingToInsert,
    ) -> (res: Result<(), Error>)
        requires
            duration_90k >= 0,
            bytes > 0,
            old(r).sample_file_bytes + bytes <= i32::MAX,
            old(r).video_samples < i32::MAX,
            old(r).video_sync_samples < i32::MAX,
        ensures
            res is Err <==> old(r).duration_90k + duration_90k > MAX_RECORDING_DURATION,
            res is Err ==> res == Err::<(), Error>(
                Error::DurationExceedsMax {
                    duration_90k: (old(r).duration_90k + duration_90k) as i64,
                    max: MAX_RECORDING_DURATION,
                },
            ) && final(r)@ == old(r)@ && final(self)@ == (EncState {
                prev_duration_90k: duration_90k,
                ..old(self)@
            }),
            res is Ok ==> final(self)@ == old(self)@.after(Sample { duration_90k, bytes, is_key })
                && final(r)@ == old(r)@.with_sample(
                old(self)@,
                Sample { duration_90k, bytes, is_key },
            ),
    {
        proof {
            use_type_invariant(&*self);
        }
        let ghost st = self@;
        let ghost s = Sample { duration_90k, bytes, is_key };
        let duration_delta = duration_90k - self.prev_duration_90k;
        self.prev_duration_90k = duration_90k;
        let new_duration_90k = r.duration_90k as i64 + duration_90k as i64;
        if new_duration_90k > MAX_RECORDING_DURATION {
            return Err(
                Error::DurationExceedsMax { duration_90k: new_duration_90k, max: MAX_RECORDING_DURATION },
            );
        }
        r.duration_90k = r.duration_90k + duration_90k;
        r.sample_file_bytes = r.sample_file_bytes + bytes;
        r.video_samples = r.video_samples + 1;
        let prev = if is_key {
            let prev = self.prev_bytes_key;
            r.video_sync_samples = r.video_sync_samples + 1;
            self.prev_bytes_key = bytes;
            prev
        } else {
            let prev = self.prev_bytes_nonkey;
            self.prev_bytes_nonkey = bytes;
            prev
        };
        let bytes_delta = bytes - prev;
        let zz = zigzag32(duration_delta);
        let key_bit: u32 = if is_key {
            1
        } else {
            0
        };
        let first = (zz << 1) | key_bit;
        assert(first == (2 * zz + key_bit) as u32) by (bit_vector)
            requires
                first == (zz << 1) | key_bit,
                key_bit == 0 || key_bit == 1,
        ;
        assert(first == spec_first_varint(st, s));
        let ghost before = r.video_index@;
        append_varint32(first, &mut r.video_index);
        append_varint32(zigzag32(bytes_delta), &mut r.video_index);
        assert(r.video_index@ == before + spec_encode_sample(st, s));
        assert(r@ =~= old(r)@.with_sample(st, s));
        Ok(())
    }
}

/// The state of an iterator over `data` after `k` steps from the start,
/// whatever the steps returned.
pub open spec fn spec_iterate(data: Seq<u8>, k: nat) -> IterState
    decreases k,
{
    if k == 0 {
        IterState::initial()
    } else {
        spec_next(spec_iterate(data, (k - 1) as nat), data).0
    }
}

/// The samples that an iterator in state `st` reads from `data` up to the
/// end of the index, or the first error that it meets.
pub open spec fn spec_decode_from(st: IterState, data: Seq<u8>) -> Result<Seq<Sample>, Error>
    decreases data.len() - st.i,
{
    let (st2, r) = spec_next(st, data);
    match r {
        Err(e) => Err(e),
        Ok(more) => if more && st.i < st2.i <= data.len() {
            match spec_decode_from(st2, data) {
                Err(e) => Err(e),
                Ok(rest) => Ok(seq![st2.sample()] + rest),
            }
        } else {
            Ok(Seq::empty())
        },
    }
}

/// The samples that the index `data` holds, or the first error that an
/// iterator meets in it.
pub open spec fn spec_decode(data: Seq<u8>) -> Result<Seq<Sample>, Error> {
    spec_decode_from(IterState::initial(), data)
}

/// The sum of the lengths of `samples`.
pub open spec fn total_bytes(samples: Seq<Sample>) -> int
    decreases samples.len(),
{
    if samples.len() == 0 {
        0
    } else {
        total_bytes(samples.drop_last()) + samples.last().bytes
    }
}

/// The sum of the durations of `samples`.
pub open spec fn total_duration(samples: Seq<Sample>) -> int
    decreases samples.len(),
{
    if samples.len() == 0 {
        0
    } else {
        total_duration(samples.drop_last()) + samples.last().duration_90k
    }
}

/// The number of key frames among `samples`.
pub open spec fn count_keys(samples: Seq<Sample>) -> int
    decreases samples.len(),
{
    if samples.len() == 0 {
        0
    } else {
        count_keys(samples.drop_last()) + (if samples.last().is_key {
            1int
        } else {
            0int
        })
    }
}

/// Whether an index can hold the sample `j` of `samples` and give it back:
/// its length is positive, its duration is not negative, and zero only if
/// it is the last, and its duration differs from that of the sample before
/// it (for the first, from zero) by less than 2^30 either way, which is
/// what the first varint has room for.
pub open spec fn sample_encodable(samples: Seq<Sample>, j: int) -> bool {
    &&& samples[j].bytes > 0
    &&& samples[j].duration_90k >= 0
    &&& (samples[j].duration_90k == 0 ==> j == samples.len() - 1)
    &&& -0x4000_0000 <= samples[j].duration_90k - (if j == 0 {
        0
    } else {
        samples[j - 1].duration_90k
    }) < 0x4000_0000
}

/// Whether an index can hold `samples` and give them back: it can do so
/// for each of them.
pub open spec fn encodable(samples: Seq<Sample>) -> bool {
    forall|j: int| 0 <= j < samples.len() ==> #[trigger] sample_encodable(samples, j)
}

/// An iterator through a sample index.
///
/// It starts before the first sample: call `next` before each read.
#[derive(Clone, Copy, Debug)]
pub struct SampleIndexIterator {
    /// The position in the index of the next sample to read (low 31 bits)
    /// and whether the current sample is a key frame (high bit).
    i_and_is_key: u32,
    /// Where the current sample starts in the sample file.
    pub pos: i32,
    /// When the current sample starts in the recording, in 90 kHz ticks.
    pub start_90k: i32,
    /// The duration of the current sample, in 90 kHz ticks.
    pub duration_90k: i32,
    /// The length of the current sample.
    pub bytes: i32,
    /// The length of the last sample of the other kind.
    bytes_other: i32,
}

impl View for SampleIndexIterator {
    type V = IterState;

    closed spec fn view(&self) -> IterState {
        IterState {
            i: (self.i_and_is_key % 0x8000_0000) as int,
            is_key: self.i_and_is_key >= 0x8000_0000,
            pos: self.pos,
            start_90k: self.start_90k,
            duration_90k: self.duration_90k,
            bytes: self.bytes,
            bytes_other: self.bytes_other,
        }
    }
}

impl SampleIndexIterator {
    /// An iterator that has read nothing.
    pub fn new() -> (it: SampleIndexIterator)
        ensures
            it@ == IterState::initial(),
    {
        SampleIndexIterator {
            i_and_is_key: 0,
            pos: 0,
            start_90k: 0,
            duration_90k: 0,
            bytes: 0,
            bytes_other: 0,
        }
    }

    /// Moves to the next sample of the index `data`.
    ///
    /// Returns `Ok(true)` at a sample, `Ok(false)` at the end of the index.
    pub fn next(&mut self, data: &[u8]) -> (r: Result<bool, Error>)
        requires
            data@.len() <= 0x7fff_ffff,
        ensures
            (final(self)@, r) == spec_next(old(self)@, data@),
    {
        reveal(spec_next);
        self.pos = self.pos.wrapping_add(self.bytes);
        self.start_90k = self.start_90k.wrapping_add(self.duration_90k);
        let packed = self.i_and_is_key;
        let was_key = (packed & 0x8000_0000) != 0;
        let i = (packed & 0x7fff_ffff) as usize;
        assert(i == packed % 0x8000_0000 && was_key == (packed >= 0x8000_0000)) by (bit_vector)
            requires
                i == (packed & 0x7fff_ffff) as usize,
                was_key == ((packed & 0x8000_0000) != 0),
        ;
        if i == data.len() {
            return Ok(false);
        }
        let (raw1, i1) = match decode_varint32(data, i) {
            Ok(tuple) => tuple,
            Err(_) => {
                return Err(Error::BadVarint1 { offset: i });
            },
        };
        let (raw2, i2) = match decode_varint32(data, i1) {
            Ok(tuple) => tuple,
            Err(_) => {
                return Err(Error::BadVarint2 { offset: i1 });
            },
        };
        let half = raw1 >> 1;
        let low = raw1 & 1;
        assert(half == raw1 / 2 && low == raw1 % 2) by (bit_vector)
            requires
                half == raw1 >> 1,
                low == raw1 & 1,
        ;
        let delta = unzigzag32(half);
        let duration_90k = self.duration_90k.wrapping_add(delta);
        if duration_90k < 0 {
            return Err(Error::NegativeDuration { duration_90k, delta });
        }
        if duration_90k == 0 && data.len() > i2 {
            return Err(Error::ZeroDurationNotAtEnd { bytes_left: data.len() - i2 });
        }
        let (prev_bytes_key, prev_bytes_nonkey) = if was_key {
            (self.bytes, self.bytes_other)
        } else {
            (self.bytes_other, self.bytes)
        };
        let is_key = low == 1;
        let bytes_delta = unzigzag32(raw2);
        let (bytes, bytes_other) = if is_key {
            (prev_bytes_key.wrapping_add(bytes_delta), prev_bytes_nonkey)
        } else {
            (prev_bytes_nonkey.wrapping_add(bytes_delta), prev_bytes_key)
        };
        if bytes <= 0 {
            return Err(
                Error::NonPositiveBytes { bytes, delta: bytes_delta, is_key, start_90k: self.start_90k },
            );
        }
        let i2_32 = i2 as u32;
        let new_packed = i2_32 | (low << 31);
        assert(new_packed % 0x8000_0000 == i2_32 && (new_packed >= 0x8000_0000) == (low == 1))
            by (bit_vector)
            requires
                new_packed == i2_32 | (low << 31),
                i2_32 <= 0x7fff_ffff,
                low == 0 || low == 1,
        ;
        self.i_and_is_key = new_packed;
        self.duration_90k = duration_90k;
        self.bytes = bytes;
        self.bytes_other = bytes_other;
        Ok(true)
    }

    /// Where the current sample starts in the sample file.
    pub fn pos(&self) -> (r: i32)
        ensures
            r == self@.pos,
    {
        self.pos
    }

    /// When the current sample starts in the recording, in 90 kHz ticks.
    pub fn start_90k(&self) -> (r: i32)
        ensures
            r == self@.start_90k,
    {
        self.start_90k
    }

    /// The duration of the current sample, in 90 kHz ticks.
    pub fn duration_90k(&self) -> (r: i32)
        ensures
            r == self@.duration_90k,
    {
        self.duration_90k
    }

    /// The length of the current sample.
    pub fn bytes(&self) -> (r: i32)
        ensures
            r == self@.bytes,
    {
        self.bytes
    }

    /// Whether the iterator has read nothing yet.
    pub fn uninitialized(&self) -> (r: bool)
        ensures
            r == (self@.i == 0 && !self@.is_key),
    {
        self.i_and_is_key == 0
    }

    /// Whether the current sample is a key frame.
    pub fn is_key(&self) -> (r: bool)
        ensures
            r == self@.is_key,
    {
        let packed = self.i_and_is_key;
        let r = (packed & 0x8000_0000) != 0;
        assert(r == (packed >= 0x8000_0000)) by (bit_vector)
            requires
                r == ((packed & 0x8000_0000) != 0),
        ;
        r
    }
}

/// What a [`Segment`] holds.
pub struct SegmentView {
    pub id: CompositeId,
    pub open_id: u32,
    pub start: Time,
    /// The iterator at the first frame of the segment; `None` stands for an
    /// iterator that has read nothing.
    pub begin: Option<IterState>,
    /// Where the segment ends in the sample file.
    pub file_end: i32,
    pub desired_range_90k: Range<i32>,
    pub frames: u16,
    pub key_frames: u16,
    pub video_sample_entry_id: i32,
    pub have_trailing_zero: bool,
}

/// What a scan of an index for a segment has found so far.
pub struct Scan {
    /// The iterator at the last key frame that starts at or before the
    /// desired start; the initial state while there is none.
    pub begin: IterState,
    /// The number of frames from `begin` on.
    pub frames: u16,
    /// The number of key frames among them.
    pub key_frames: u16,
}

/// Whether the trailing-zero bit is set in a recording's flags.
pub open spec fn spec_trailing_zero(flags: i32) -> bool {
    (flags & 1) != 0
}

/// The scan of the index `data` for the segment that is to start at `start`
/// and end at `end`, taken up at the sample where `it` stands with `scan`
/// found so far. Gives what is found at the end, and the iterator at the
/// sample behind the segment (at the end of the index where there is none).
///
/// A key frame that starts at or before `start` begins the segment anew.
/// A sample that starts at or after `end` is the first behind the segment,
/// unless the segment would be empty. The two counts are kept in 16 bits.
pub open spec fn spec_scan(it: IterState, scan: Scan, data: Seq<u8>, start: i32, end: i32) -> Result<
    (Scan, IterState),
    Error,
>
    decreases data.len() - it.i,
{
    let found = if it.start_90k <= start && it.is_key {
        Scan { begin: it, frames: 0, key_frames: 0 }
    } else {
        scan
    };
    if it.start_90k >= end && found.frames > 0 {
        Ok((found, it))
    } else {
        let counted = Scan {
            begin: found.begin,
            frames: found.frames.wrapping_add(1),
            key_frames: found.key_frames.wrapping_add(
                if it.is_key {
                    1
                } else {
                    0
                },
            ),
        };
        let (it2, r) = spec_next(it, data);
        match r {
            Err(e) => Err(e),
            Ok(more) => if more && it.i < it2.i <= data.len() {
                spec_scan(it2, counted, data, start, end)
            } else {
                Ok((counted, it2))
            },
        }
    }
}

/// The segment of `recording` for the desired range, given the recording's
/// index `data`.
///
/// A range that is no range, or that ends behind the recording, is refused.
/// The range of the whole recording gives the whole recording as the row
/// describes it, and the index is not looked at. Any other range is found
/// by a scan of the index, which must begin with a key frame; a range that
/// ends where the recording ends takes every sample up to the end of the
/// index.
pub open spec fn spec_segment(recording: ListRecordingsRow, range: Range<i32>, data: Seq<u8>)
    -> Result<SegmentView, Error> {
    if range.start > range.end || range.end > recording.duration_90k {
        Err(
            Error::InvalidRange {
                start: range.start,
                end: range.end,
                duration_90k: recording.duration_90k,
            },
        )
    } else if range.start == 0 && range.end == recording.duration_90k {
        Ok(
            SegmentView {
                id: recording.id,
                open_id: recording.open_id,
                start: recording.start,
                begin: None,
                file_end: recording.sample_file_bytes,
                desired_range_90k: range,
                frames: recording.video_samples as u16,
                key_frames: recording.video_sync_samples as u16,
                video_sample_entry_id: recording.video_sample_entry_id,
                have_trailing_zero: spec_trailing_zero(recording.flags),
            },
        )
    } else {
        let (first, r) = spec_next(IterState::initial(), data);
        match r {
            Err(e) => Err(e),
            Ok(more) => if !more {
                Err(Error::NoIndex)
            } else if !first.is_key {
                Err(Error::NotKeyFrame)
            } else {
                let end = if range.end == recording.duration_90k {
                    i32::MAX
                } else {
                    range.end
                };
                match spec_scan(
                    first,
                    Scan { begin: IterState::initial(), frames: 0, key_frames: 0 },
                    data,
                    range.start,
                    end,
                ) {
                    Err(e) => Err(e),
                    Ok((found, last)) => Ok(
                        SegmentView {
                            id: recording.id,
                            open_id: recording.open_id,
                            start: recording.start,
                            begin: Some(found.begin),
                            file_end: last.pos,
                            desired_range_90k: range,
                            frames: found.frames,
                            key_frames: found.key_frames,
                            video_sample_entry_id: recording.video_sample_entry_id,
                            have_trailing_zero: last.duration_90k == 0,
                        },
                    ),
                }
            },
        }
    }
}

/// The frames of a segment from the frame `i` on, where the iterator `it`
/// stands at that frame if `have_frame`, and `key_frames` key frames came
/// before it.
pub open spec fn spec_frames_from(
    it: IterState,
    have_frame: bool,
    i: int,
    key_frames: int,
    v: SegmentView,
    data: Seq<u8>,
) -> Result<Seq<IterState>, Error>
    decreases v.frames - i,
{
    if i >= v.frames {
        if key_frames < v.key_frames {
            Err(
                Error::TooFewKeyFrames {
                    id: v.id,
                    expected: v.key_frames,
                    found: key_frames as u16,
                },
            )
        } else {
            Ok(Seq::empty())
        }
    } else if !have_frame {
        Err(Error::TooFewFrames { id: v.id, expected: v.frames, found: (i + 1) as u16 })
    } else if it.is_key && key_frames + 1 > v.key_frames {
        Err(Error::TooManyKeyFrames { id: v.id, expected: v.key_frames })
    } else {
        let (it2, r) = spec_next(it, data);
        match r {
            Err(e) => Err(e),
            Ok(more) => match spec_frames_from(
                it2,
                more,
                i + 1,
                key_frames + (if it.is_key {
                    1int
                } else {
                    0int
                }),
                v,
                data,
            ) {
                Err(e) => Err(e),
                Ok(rest) => Ok(seq![it] + rest),
            },
        }
    }
}

/// The frames of the segment `v`, read from the recording's index `data`:
/// for each frame the state of the iterator that stands at it.
///
/// The index must hold all the frames that the segment counts, the first of
/// them a key frame, and as many key frames among them as it counts.
pub open spec fn spec_frames(v: SegmentView, data: Seq<u8>) -> Result<Seq<IterState>, Error> {
    let begin = match v.begin {
        Some(b) => b,
        None => IterState::initial(),
    };
    if begin.i == 0 && !begin.is_key {
        let (first, r) = spec_next(begin, data);
        match r {
            Err(e) => Err(e),
            Ok(more) => if !more {
                Err(Error::NoFrames { id: v.id })
            } else if !first.is_key {
                Err(Error::NoInitialKeyFrame { id: v.id })
            } else {
                spec_frames_from(first, true, 0, 0, v, data)
            },
        }
    } else {
        spec_frames_from(begin, true, 0, 0, v, data)
    }
}

/// The views of a sequence of iterators.
pub open spec fn iterator_views(s: Seq<SampleIndexIterator>) -> Seq<IterState> {
    s.map_values(|it: SampleIndexIterator| it@)
}

/// Whether `row` describes the recording whose samples are `samples`: an
/// index can hold them, the first is a key frame, there are no more of them
/// than a segment can count, and the row's counts and sums are theirs.
pub open spec fn row_describes(row: ListRecordingsRow, samples: Seq<Sample>) -> bool {
    &&& encodable(samples)
    &&& 1 <= samples.len() <= u16::MAX
    &&& samples[0].is_key
    &&& row.video_samples == samples.len()
    &&& row.video_sync_samples == count_keys(samples)
    &&& row.sample_file_bytes == total_bytes(samples)
    &&& row.duration_90k == total_duration(samples)
}

/// The states of an iterator over `data` at the samples `from` to `to - 1`,
/// the first sample of the index being sample 0.
pub open spec fn spec_states(data: Seq<u8>, from: int, to: int) -> Seq<IterState> {
    Seq::new((to - from) as nat, |j: int| spec_iterate(data, (from + j + 1) as nat))
}

/// A view of some or all of a single recording, starting from a key frame.
#[derive(Debug)]
pub struct Segment {
    pub id: CompositeId,
    pub open_id: u32,
    pub start: Time,
    /// An iterator at the first frame of the segment. Most segments begin
    /// where their recording begins, so this is an optional box, to keep a
    /// long list of segments small. `None` stands for an iterator that has
    /// read nothing.
    begin: Option<Box<SampleIndexIterator>>,
    pub file_end: i32,
    pub desired_range_90k: Range<i32>,
    pub frames: u16,
    pub key_frames: u16,
    /// The id of the video sample entry (low 31 bits) and whether the last
    /// sample has a duration of zero (high bit).
    video_sample_entry_id_and_trailing_zero: i32,
}

impl View for Segment {
    type V = SegmentView;

    closed spec fn view(&self) -> SegmentView {
        SegmentView {
            id: self.id,
            open_id: self.open_id,
            start: self.start,
            begin: match self.begin {
                Some(b) => Some(b@),
                None => None,
            },
            file_end: self.file_end,
            desired_range_90k: self.desired_range_90k,
            frames: self.frames,
            key_frames: self.key_frames,
            video_sample_entry_id: if self.video_sample_entry_id_and_trailing_zero < 0 {
                (self.video_sample_entry_id_and_trailing_zero + 0x8000_0000) as i32
            } else {
                self.video_sample_entry_id_and_trailing_zero
            },
            have_trailing_zero: self.video_sample_entry_id_and_trailing_zero < 0,
        }
    }
}

/// Packs the id of a video sample entry with the trailing-zero flag.
fn pack_entry_id(video_sample_entry_id: i32, trailing_zero: bool) -> (packed: i32)
    requires
        video_sample_entry_id >= 0,
    ensures
        (packed < 0) == trailing_zero,
        packed == (if trailing_zero {
            video_sample_entry_id - 0x8000_0000
        } else {
            video_sample_entry_id as int
        }),
{
    let bit: i32 = if trailing_zero {
        1
    } else {
        0
    };
    let packed = video_sample_entry_id | (bit << 31);
    assert(packed == (if bit == 1 {
        (video_sample_entry_id - 0x8000_0000) as i32
    } else {
        video_sample_entry_id
    })) by (bit_vector)
        requires
            packed == video_sample_entry_id | (bit << 31),
            video_sample_entry_id >= 0,
            bit == 0 || bit == 1,
    ;
    packed
}

impl Segment {
    /// Creates the segment of `recording` for a desired range of time,
    /// counted from the start of the recording; `video_index` is the
    /// recording's index.
    ///
    /// The segment starts at the last key frame at or before the desired
    /// start, and ends with the last frame that starts before the desired
    /// end. For the range of the whole recording the index is not read.
    pub fn new(recording: &ListRecordingsRow, desired_range_90k: Range<i32>, video_index: &[u8])
        -> (r: Result<Segment, Error>)
        requires
            recording.video_sample_entry_id >= 0,
            video_index@.len() <= 0x7fff_ffff,
        ensures
            match spec_segment(*recording, desired_range_90k, video_index@) {
                Ok(v) => r is Ok && r->Ok_0@ == v,
                Err(e) => r == Err::<Segment, Error>(e),
            },
    {
        if desired_range_90k.start > desired_range_90k.end || desired_range_90k.end
            > recording.duration_90k {
            return Err(
                Error::InvalidRange {
                    start: desired_range_90k.start,
                    end: desired_range_90k.end,
                    duration_90k: recording.duration_90k,
                },
            );
        }
        if desired_range_90k.start == 0 && desired_range_90k.end == recording.duration_90k {
            return Ok(
                Segment {
                    id: recording.id,
                    open_id: recording.open_id,
                    start: recording.start,
                    begin: None,
                    file_end: recording.sample_file_bytes,
                    desired_range_90k,
                    frames: #[verifier::truncate]
                    (recording.video_samples as u16),
                    key_frames: #[verifier::truncate]
                    (recording.video_sync_samples as u16),
                    video_sample_entry_id_and_trailing_zero: pack_entry_id(
                        recording.video_sample_entry_id,
                        (recording.flags & 1) != 0,
                    ),
                },
            );
        }
        let mut begin = SampleIndexIterator::new();
        let mut it = SampleIndexIterator::new();
        proof {
            lemma_next_advances(it@, video_index@);
        }
        match it.next(video_index) {
            Err(e) => {
                return Err(e);
            },
            Ok(more) => {
                if !more {
                    return Err(Error::NoIndex);
                }
            },
        }
        if !it.is_key() {
            return Err(Error::NotKeyFrame);
        }
        let end_90k = if desired_range_90k.end == recording.duration_90k {
            i32::MAX
        } else {
            desired_range_90k.end
        };
        let mut frames: u16 = 0;
        let mut key_frames: u16 = 0;
        let ghost whole = spec_scan(
            it@,
            Scan { begin: IterState::initial(), frames: 0, key_frames: 0 },
            video_index@,
            desired_range_90k.start,
            end_90k,
        );
        let ghost goal = spec_segment(*recording, desired_range_90k, video_index@);
        let ghost mut finished: bool = false;
        loop
            invariant_except_break
                !finished,
                spec_scan(
                    it@,
                    Scan { begin: begin@, frames, key_frames },
                    video_index@,
                    desired_range_90k.start,
                    end_90k,
                ) == whole,
            invariant
                video_index@.len() <= 0x7fff_ffff,
                it@.i <= video_index@.len(),
                whole is Err ==> goal == Err::<SegmentView, Error>(whole->Err_0),
                goal == spec_segment(*recording, desired_range_90k, video_index@),
            ensures
                finished,
                whole == Ok::<(Scan, IterState), Error>(
                    (Scan { begin: begin@, frames, key_frames }, it@),
                ),
            decreases video_index@.len() - it@.i,
        {
            if it.start_90k <= desired_range_90k.start && it.is_key() {
                begin = it;
                frames = 0;
                key_frames = 0;
            }
            if it.start_90k >= end_90k && frames > 0 {
                proof {
                    finished = true;
                }
                break ;
            }
            frames = frames.wrapping_add(1);
            key_frames = key_frames.wrapping_add(
                if it.is_key() {
                    1
                } else {
                    0
                },
            );
            let ghost before = it@;
            proof {
                lemma_next_advances(before, video_index@);
            }
            match it.next(video_index) {
                Err(e) => {
                    return Err(e);
                },
                Ok(more) => {
                    if !more {
                        proof {
                            finished = true;
                        }
                        break ;
                    }
                },
            }
        }
        Ok(
            Segment {
                id: recording.id,
                open_id: recording.open_id,
                start: recording.start,
                begin: Some(Box::new(begin)),
                file_end: it.pos,
                desired_range_90k,
                frames,
                key_frames,
                video_sample_entry_id_and_trailing_zero: pack_entry_id(
                    recording.video_sample_entry_id,
                    it.duration_90k == 0,
                ),
            },
        )
    }

    /// The id of the segment's recording.
    pub fn id(&self) -> (r: CompositeId)
        ensures
            r == self@.id,
    {
        self.id
    }

    /// The id under which the database was open when the recording was
    /// made.
    pub fn open_id(&self) -> (r: u32)
        ensures
            r == self@.open_id,
    {
        self.open_id
    }

    /// When the segment's recording starts.
    pub fn start(&self) -> (r: Time)
        ensures
            r == self@.start,
    {
        self.start
    }

    /// The range of time that was desired of the segment.
    pub fn desired_range_90k(&self) -> (r: Range<i32>)
        ensures
            r == self@.desired_range_90k,
    {
        self.desired_range_90k.start..self.desired_range_90k.end
    }

    /// The number of frames of the segment.
    pub fn frames(&self) -> (r: u16)
        ensures
            r == self@.frames,
    {
        self.frames
    }

    /// The number of key frames of the segment.
    pub fn key_frames(&self) -> (r: u16)
        ensures
            r == self@.key_frames,
    {
        self.key_frames
    }

    /// Where the segment ends in the sample file.
    pub fn file_end(&self) -> (r: i32)
        ensures
            r == self@.file_end,
    {
        self.file_end
    }

    /// The id of the video sample entry of the segment's recording.
    pub fn video_sample_entry_id(&self) -> (id: i32)
        ensures
            id == self@.video_sample_entry_id,
    {
        let packed = self.video_sample_entry_id_and_trailing_zero;
        let id = packed & 0x7FFFFFFF;
        assert(id == (if packed < 0 {
            (packed + 0x8000_0000) as i32
        } else {
            packed
        })) by (bit_vector)
            requires
                id == packed & 0x7FFFFFFF,
        ;
        id
    }

    /// Whether the last sample behind the segment's scan has a duration of
    /// zero.
    pub fn have_trailing_zero(&self) -> (r: bool)
        ensures
            r == self@.have_trailing_zero,
    {
        self.video_sample_entry_id_and_trailing_zero < 0
    }

    /// The range of bytes in the sample file that holds the segment.
    pub fn sample_file_range(&self) -> (r: Range<u64>)
        ensures
            r.start == (match self@.begin {
                Some(b) => b.pos as u64,
                None => 0,
            }),
            r.end == self@.file_end as u64,
    {
        let from = match &self.begin {
            Some(b) => b.pos as u64,
            None => 0,
        };
        from..(self.file_end as u64)
    }

    /// The time at which the segment starts in fact: the start of its first
    /// frame, counted from the start of the recording.
    pub fn actual_start_90k(&self) -> (r: i32)
        ensures
            r == (match self@.begin {
                Some(b) => b.start_90k,
                None => 0,
            }),
    {
        match &self.begin {
            Some(b) => b.start_90k,
            None => 0,
        }
    }

    /// Reads the frames of the segment from the recording's index: for each
    /// frame, the iterator as it stands at that frame.
    pub fn foreach(&self, video_index: &[u8]) -> (r: Result<Vec<SampleIndexIterator>, Error>)
        requires
            video_index@.len() <= 0x7fff_ffff,
        ensures
            match spec_frames(self@, video_index@) {
                Ok(frames) => r is Ok && iterator_views(r->Ok_0@) == frames,
                Err(e) => r == Err::<Vec<SampleIndexIterator>, Error>(e),
            },
    {
        let mut it = match &self.begin {
            Some(b) => **b,
            None => SampleIndexIterator::new(),
        };
        if it.uninitialized() {
            match it.next(video_index) {
                Err(e) => {
                    return Err(e);
                },
                Ok(more) => {
                    if !more {
                        return Err(Error::NoFrames { id: self.id });
                    }
                },
            }
            if !it.is_key() {
                return Err(Error::NoInitialKeyFrame { id: self.id });
            }
        }
        let ghost whole = spec_frames(self@, video_index@);
        let mut have_frame = true;
        let mut key_frame: u32 = 0;
        let mut out: Vec<SampleIndexIterator> = Vec::new();
        let mut i: u16 = 0;
        while i < self.frames
            invariant
                video_index@.len() <= 0x7fff_ffff,
                i <= self.frames,
                key_frame <= i,
                whole == spec_frames(self@, video_index@),
                match spec_frames_from(it@, have_frame, i as int, key_frame as int, self@, video_index@) {
                    Ok(rest) => whole == Ok::<Seq<IterState>, Error>(iterator_views(out@) + rest),
                    Err(e) => whole == Err::<Seq<IterState>, Error>(e),
                },
            decreases self.frames - i,
        {
            if !have_frame {
                return Err(
                    Error::TooFewFrames { id: self.id, expected: self.frames, found: i + 1 },
                );
            }
            if it.is_key() {
                if key_frame + 1 > self.key_frames as u32 {
                    return Err(Error::TooManyKeyFrames { id: self.id, expected: self.key_frames });
                }
                key_frame = key_frame + 1;
            }
            let ghost collected = iterator_views(out@);
            out.push(it);
            proof {
                assert(iterator_views(out@) =~= collected + seq![it@]);
            }
            let ghost before = it@;
            match it.next(video_index) {
                Err(e) => {
                    return Err(e);
                },
                Ok(more) => {
                    have_frame = more;
                },
            }
            proof {
                let rest_after = spec_frames_from(
                    it@,
                    have_frame,
                    i + 1,
                    key_frame as int,
                    self@,
                    video_index@,
                );
                if rest_after is Ok {
                    assert(collected + (seq![before] + rest_after->Ok_0) =~= (collected + seq![
                        before,
                    ]) + rest_after->Ok_0);
                }
            }
            i = i + 1;
        }
        if key_frame < self.key_frames as u32 {
            return Err(
                Error::TooFewKeyFrames {
                    id: self.id,
                    expected: self.key_frames,
                    found: key_frame as u16,
                },
            );
        }
        proof {
            assert(iterator_views(out@) + Seq::<IterState>::empty() =~= iterator_views(out@));
        }
        Ok(out)
    }
}

/// A step that reaches a sample moves on in the index, and stays within it.
pub proof fn lemma_next_advances(st: IterState, data: Seq<u8>)
    requires
        0 <= st.i,
    ensures
        spec_next(st, data).1 == Ok::<bool, Error>(true) ==> st.i < spec_next(st, data).0.i
            <= data.len(),
        spec_next(st, data).1 != Ok::<bool, Error>(true) ==> spec_next(st, data).0.i == st.i,
{
    reveal(spec_next);
    crate::coding::lemma_decode_advances(data, st.i);
    match spec_decode_varint32(data, st.i) {
        Some((raw1, i1)) => {
            crate::coding::lemma_decode_advances(data, i1);
        },
        None => {},
    }
}

} // verus!
