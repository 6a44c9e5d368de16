//! The errors that the engine reports.

use crate::db::CompositeId;
use crate::strutil::{push_bool, push_i64, push_u64, spec_bool, spec_decimal};
use vstd::prelude::*;
use vstd::string::StringExecFns;

verus! {

/// Why an operation of the engine was refused.
#[derive(Clone, Copy, Debug, PartialEq, Eq, Structural)]
#[allow(inconsistent_fields)]
pub enum Error {
    /// No well-formed first varint of a sample starts at `offset`.
    BadVarint1 { offset: usize },
    /// No well-formed second varint of a sample starts at `offset`.
    BadVarint2 { offset: usize },
    /// A sample's duration came out negative.
    NegativeDuration { duration_90k: i32, delta: i32 },
    /// A sample of zero duration is followed by `bytes_left` more bytes.
    ZeroDurationNotAtEnd { bytes_left: usize },
    /// A sample's length came out zero or negative.
    NonPositiveBytes { bytes: i32, delta: i32, is_key: bool, start_90k: i32 },
    /// A sample would take its recording beyond the longest duration allowed.
    DurationExceedsMax { duration_90k: i64, max: i64 },
    /// The desired range of a segment does not lie within its recording.
    InvalidRange { start: i32, end: i32, duration_90k: i32 },
    /// A recording's index holds no sample.
    NoIndex,
    /// A recording's first sample is no key frame.
    NotKeyFrame,
    /// A segment was asked for the frames of a recording that has none.
    NoFrames { id: CompositeId },
    /// The first frame of a segment is no key frame.
    NoInitialKeyFrame { id: CompositeId },
    /// The index ended before a segment's frames did.
    TooFewFrames { id: CompositeId, expected: u16, found: u16 },
    /// A segment holds more key frames than it recorded.
    TooManyKeyFrames { id: CompositeId, expected: u16 },
    /// A segment holds fewer key frames than it recorded.
    TooFewKeyFrames { id: CompositeId, expected: u16, found: u16 },
    /// A frame's timestamp does not lie after that of the frame before it.
    PtsNotIncreasing { previous: i64, given: i64 },
    /// A writer was asked what only a writer with no recording open can
    /// tell.
    Open,
    /// The fingerprint of a sample file could not be computed.
    Digest,
    /// Abandoned sample files could not be deleted.
    UndeletableRecordings { count: usize },
    /// Sample files of deleted recordings could not be unlinked.
    UnlinkFailed { count: usize },
    /// A new limit names a stream that is not there.
    NoSuchStream { stream_id: i32 },
    /// The sample file directory could not be synced.
    DirSyncFailed,
    /// The store could not take note of the files that were unlinked.
    DeleteGarbageFailed,
}


/// How a recording's id is written: the stream's id, a stroke, and the
/// recording's id within the stream.
pub open spec fn spec_id(id: CompositeId) -> Seq<char> {
    spec_decimal(id.spec_stream() as int) + "/"@ + spec_decimal(id.spec_recording() as int)
}

fn push_id(s: &mut String, id: CompositeId)
    ensures
        final(s)@ == old(s)@ + spec_id(id),
{
    push_i64(s, id.stream() as i64);
    s.append("/");
    push_i64(s, id.recording() as i64);
    assert(s@ =~= old(s)@ + spec_id(id));
}

impl Error {
    /// The error in words.
    pub open spec fn spec_message(self) -> Seq<char> {
        match self {
            Error::BadVarint1 { offset } => "bad varint 1 at offset "@ + spec_decimal(offset as int),
            Error::BadVarint2 { offset } => "bad varint 2 at offset "@ + spec_decimal(offset as int),
            Error::NegativeDuration { duration_90k, delta } => "negative duration "@ + spec_decimal(
                duration_90k as int,
            ) + " after applying delta "@ + spec_decimal(delta as int),
            Error::ZeroDurationNotAtEnd { bytes_left } => "zero duration only allowed at end; have "@
                + spec_decimal(bytes_left as int) + " bytes left"@,
            Error::NonPositiveBytes { bytes, delta, is_key, start_90k } => "non-positive bytes "@
                + spec_decimal(bytes as int) + " after applying delta "@ + spec_decimal(
                delta as int,
            ) + " to key="@ + spec_bool(is_key) + " frame at ts "@ + spec_decimal(start_90k as int),
            Error::DurationExceedsMax { duration_90k, max } => "Duration "@ + spec_decimal(
                duration_90k as int,
            ) + " exceeds maximum "@ + spec_decimal(max as int),
            Error::InvalidRange { start, end, duration_90k } => "desired range ["@ + spec_decimal(
                start as int,
            ) + ", "@ + spec_decimal(end as int) + ") invalid for recording of length "@
                + spec_decimal(duration_90k as int),
            Error::NoIndex => "no index"@,
            Error::NotKeyFrame => "not key frame"@,
            Error::NoFrames { id } => "recording "@ + spec_id(id) + ": no frames"@,
            Error::NoInitialKeyFrame { id } => "recording "@ + spec_id(id)
                + ": doesn't start with key frame"@,
            Error::TooFewFrames { id, expected, found } => "recording "@ + spec_id(id)
                + ": expected "@ + spec_decimal(expected as int) + " frames, found only "@
                + spec_decimal(found as int),
            Error::TooManyKeyFrames { id, expected } => "recording "@ + spec_id(id)
                + ": more than expected "@ + spec_decimal(expected as int) + " key frames"@,
            Error::TooFewKeyFrames { id, expected, found } => "recording "@ + spec_id(id)
                + ": expected "@ + spec_decimal(expected as int) + " key frames, found only "@
                + spec_decimal(found as int),
            Error::PtsNotIncreasing { previous, given } => "pts not monotonically increasing; got "@
                + spec_decimal(previous as int) + " then "@ + spec_decimal(given as int),
            Error::Open => "open!"@,
            Error::Digest => "unable to compute the SHA-1 of the sample file"@,
            Error::UndeletableRecordings { count } => "Unable to delete "@ + spec_decimal(
                count as int,
            ) + " abandoned recordings."@,
            Error::UnlinkFailed { count } => "Unable to unlink "@ + spec_decimal(count as int)
                + " files (see earlier warning messages for details)"@,
            Error::NoSuchStream { stream_id } => "no such stream "@ + spec_decimal(stream_id as int),
            Error::DirSyncFailed => "unable to sync the sample file directory"@,
            Error::DeleteGarbageFailed => "unable to note the unlinked files in the store"@,
        }
    }

    /// Writes the error in words.
    pub fn to_string(&self) -> (s: String)
        ensures
            s@ == self.spec_message(),
    {
        match *self {
            Error::BadVarint1 { offset } => {
                let mut s = String::from_str("bad varint 1 at offset ");
                push_u64(&mut s, offset as u64);
                s
            },
            Error::BadVarint2 { offset } => {
                let mut s = String::from_str("bad varint 2 at offset ");
                push_u64(&mut s, offset as u64);
                s
            },
            Error::NegativeDuration { duration_90k, delta } => {
                let mut s = String::from_str("negative duration ");
                push_i64(&mut s, duration_90k as i64);
                s.append(" after applying delta ");
                push_i64(&mut s, delta as i64);
                s
            },
            Error::ZeroDurationNotAtEnd { bytes_left } => {
                let mut s = String::from_str("zero duration only allowed at end; have ");
                push_u64(&mut s, bytes_left as u64);
                s.append(" bytes left");
                s
            },
            Error::NonPositiveBytes { bytes, delta, is_key, start_90k } => {
                let mut s = String::from_str("non-positive bytes ");
                push_i64(&mut s, bytes as i64);
                s.append(" after applying delta ");
                push_i64(&mut s, delta as i64);
                s.append(" to key=");
                push_bool(&mut s, is_key);
                s.append(" frame at ts ");
                push_i64(&mut s, start_90k as i64);
                s
            },
            Error::DurationExceedsMax { duration_90k, max } => {
                let mut s = String::from_str("Duration ");
                push_i64(&mut s, duration_90k);
                s.append(" exceeds maximum ");
                push_i64(&mut s, max);
                s
            },
            Error::InvalidRange { start, end, duration_90k } => {
                let mut s = String::from_str("desired range [");
                push_i64(&mut s, start as i64);
                s.append(", ");
                push_i64(&mut s, end as i64);
                s.append(") invalid for recording of length ");
                push_i64(&mut s, duration_90k as i64);
                s
            },
            Error::NoIndex => String::from_str("no index"),
            Error::NotKeyFrame => String::from_str("not key frame"),
            Error::NoFrames { id } => {
                let mut s = String::from_str("recording ");
                push_id(&mut s, id);
                s.append(": no frames");
                s
            },
            Error::NoInitialKeyFrame { id } => {
                let mut s = String::from_str("recording ");
                push_id(&mut s, id);
                s.append(": doesn't start with key frame");
                s
            },
            Error::TooFewFrames { id, expected, found } => {
                let mut s = String::from_str("recording ");
                push_id(&mut s, id);
                s.append(": expected ");
                push_u64(&mut s, expected as u64);
                s.append(" frames, found only ");
                push_u64(&mut s, found as u64);
                s
            },
            Error::TooManyKeyFrames { id, expected } => {
                let mut s = String::from_str("recording ");
                push_id(&mut s, id);
                s.append(": more than expected ");
                push_u64(&mut s, expected as u64);
                s.append(" key frames");
                s
            },
            Error::TooFewKeyFrames { id, expected, found } => {
                let mut s = String::from_str("recording ");
                push_id(&mut s, id);
                s.append(": expected ");
                push_u64(&mut s, expected as u64);
                s.append(" key frames, found only ");
                push_u64(&mut s, found as u64);
                s
            },
            Error::PtsNotIncreasing { previous, given } => {
                let mut s = String::from_str("pts not monotonically increasing; got ");
                push_i64(&mut s, previous);
                s.append(" then ");
                push_i64(&mut s, given);
                s
            },
            Error::Open => String::from_str("open!"),
            Error::Digest => String::from_str("unable to compute the SHA-1 of the sample file"),
            Error::UndeletableRecordings { count } => {
                let mut s = String::from_str("Unable to delete ");
                push_u64(&mut s, count as u64);
                s.append(" abandoned recordings.");
                s
            },
            Error::UnlinkFailed { count } => {
                let mut s = String::from_str("Unable to unlink ");
                push_u64(&mut s, count as u64);
                s.append(" files (see earlier warning messages for details)");
                s
            },
            Error::NoSuchStream { stream_id } => {
                let mut s = String::from_str("no such stream ");
                push_i64(&mut s, stream_id as i64);
                s
            },
            Error::DirSyncFailed => String::from_str("unable to sync the sample file directory"),
            Error::DeleteGarbageFailed => String::from_str(
                "unable to note the unlinked files in the store",
            ),
        }
    }
}

} // verus!
