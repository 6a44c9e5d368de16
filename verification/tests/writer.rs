use moonfire_db::db::CompositeId;
use moonfire_db::error::Error;
use moonfire_db::recording::{Duration, SampleIndexIterator, Time};
use moonfire_db::writer::{after_write, ClockAdjuster, Writer};

#[test]
fn adjust() {
    // no-ops.
    for v in &[None, Some(0), Some(-10), Some(10)] {
        let mut a = ClockAdjuster::new(*v);
        for _ in 0..1800 {
            assert_eq!(3000, a.adjust(3000), "v={:?}", *v);
        }
    }

    // typical, 100 ppm adjustment.
    let mut a = ClockAdjuster::new(Some(-540));
    let mut total = 0;
    for _ in 0..1800 {
        let new = a.adjust(3000);
        assert!(new == 2999 || new == 3000);
        total += new;
    }
    let expected = 1800 * 3000 - 540;
    assert!(
        total == expected || total == expected + 1,
        "total={} vs expected={}",
        total,
        expected
    );

    a = ClockAdjuster::new(Some(540));
    let mut total = 0;
    for _ in 0..1800 {
        let new = a.adjust(3000);
        assert!(new == 3000 || new == 3001);
        total += new;
    }
    let expected = 1800 * 3000 + 540;
    assert!(
        total == expected || total == expected + 1,
        "total={} vs expected={}",
        total,
        expected
    );

    // capped at 500 ppm (change of 2,700/90,000ths over 1 minute).
    a = ClockAdjuster::new(Some(-1_000_000));
    total = 0;
    for _ in 0..1800 {
        let new = a.adjust(3000);
        assert!(new == 2998 || new == 2999, "new={}", new);
        total += new;
    }
    let expected = 1800 * 3000 - 2700;
    assert!(
        total == expected || total == expected + 1,
        "total={} vs expected={}",
        total,
        expected
    );

    a = ClockAdjuster::new(Some(1_000_000));
    total = 0;
    for _ in 0..1800 {
        let new = a.adjust(3000);
        assert!(new == 3001 || new == 3002, "new={}", new);
        total += new;
    }
    let expected = 1800 * 3000 + 2700;
    assert!(
        total == expected || total == expected + 1,
        "total={} vs expected={}",
        total,
        expected
    );
}

/// A duration of one tick is never corrected to nothing.
#[test]
fn adjust_keeps_a_tick() {
    let mut a = ClockAdjuster::new(Some(-2700));
    assert_eq!(a.adjust(1999), 1999);
    assert_eq!(a.adjust(1), 1);
    assert_eq!(a.adjust(1), 1);
    assert_eq!(a.adjust(3), 2);
    assert_eq!(a.adjust(0), 0);
    let mut a = ClockAdjuster::new(Some(2700));
    assert_eq!(a.adjust(4000), 4002);
    assert_eq!(a.adjust(0), 0);
    let mut a = ClockAdjuster::new(Some(61));
    assert_eq!(a.adjust(88523), 88523);
    assert_eq!(a.adjust(1), 2);
}

fn hex(bytes: &[u8]) -> String {
    bytes.iter().map(|b| format!("{:02x}", b)).collect()
}

/// Writes a run of two recordings and looks at what comes out.
#[test]
fn writer_records_a_run() {
    let mut w = Writer::new(7, 42);
    assert_eq!(w.previously_opened(), Ok(false));
    let draft = w.recording_to_add().unwrap();
    assert_eq!(draft.run_offset, 0);
    assert_eq!(draft.start, Time(i64::MAX));
    assert_eq!(draft.flags, 2);
    assert_eq!(draft.video_sample_entry_id, 42);
    let id = CompositeId::new(7, 1);

    assert!(w.write(Some(id), b"abc", Time(1_000_000), 100, true).unwrap().is_none());
    assert_eq!(w.previously_opened(), Err(Error::Open));
    assert!(w.recording_to_add().is_none());
    assert_eq!(w.recording().unwrap().video_samples, 0);
    let held = w.unflushed_sample().unwrap();
    assert_eq!((held.pts_90k, held.len, held.is_key), (100, 3, true));

    assert!(w.write(None, b"de", Time(1_003_100), 3100, false).unwrap().is_none());
    {
        let r = w.recording().unwrap();
        assert_eq!(r.duration_90k, 3000);
        assert_eq!(r.sample_file_bytes, 3);
        assert_eq!(r.video_samples, 1);
        assert_eq!(r.video_sync_samples, 1);
        // The recording began no later than the first frame came in, less its duration.
        assert_eq!(r.start, Time(1_000_000 - 3000));
    }

    // A key frame ends a live segment.
    let live = w.write(None, b"fghi", Time(1_005_990), 6100, true).unwrap().unwrap();
    assert_eq!(live.recording, 1);
    assert_eq!(live.off_90k, 0..6000);
    let live = w.write(None, b"j", Time(1_009_100), 9100, true).unwrap().unwrap();
    assert_eq!(live.off_90k, 6000..9000);
    // The third frame came early by its local time: the start moves back.
    assert_eq!(w.recording().unwrap().start, Time(1_005_990 - 9000));

    // A timestamp that does not move on is refused, and nothing changes.
    assert_eq!(
        w.write(None, b"k", Time(1_009_100), 9100, false).unwrap_err().to_string(),
        "pts not monotonically increasing; got 9100 then 9100"
    );
    assert_eq!(w.recording().unwrap().video_samples, 3);
    assert_eq!(w.unflushed_sample().unwrap().len, 1);

    let closed = w.close(Some(12_100)).unwrap().unwrap();
    assert_eq!(closed.id, id);
    assert_eq!(closed.total_duration, Duration(12_000));
    assert_eq!(closed.live_segment.recording, 1);
    assert_eq!(closed.live_segment.off_90k, 9000..12_000);
    let r = &closed.recording;
    assert_eq!(r.flags, 0);
    assert_eq!(r.duration_90k, 12_000);
    assert_eq!(r.sample_file_bytes, 10);
    assert_eq!(r.video_samples, 4);
    assert_eq!(r.video_sync_samples, 3);
    assert_eq!(r.start, Time(996_990));
    assert_eq!(r.local_time_delta, Duration(0));
    assert_eq!(hex(&r.sample_file_sha1), "d68c19a0a345b7eab78d5e11e991c026ec60db63");
    let mut it = SampleIndexIterator::new();
    let mut frames = Vec::new();
    while it.next(&r.video_index).unwrap() {
        frames.push((it.duration_90k, it.bytes, it.is_key()));
    }
    assert_eq!(frames, [(3000, 3, true), (3000, 2, false), (3000, 4, true), (3000, 1, true)]);

    // The next recording of the run starts where this one ended.
    assert_eq!(w.previously_opened(), Ok(true));
    assert!(w.close(None).unwrap().is_none());
    let draft = w.recording_to_add().unwrap();
    assert_eq!(draft.run_offset, 1);
    assert_eq!(draft.start, Time(996_990 + 12_000));
    assert_eq!(draft.flags, 2);
    let id = CompositeId::new(7, 2);
    assert!(w.write(Some(id), b"xyz", Time(1_012_690), 12_100, true).unwrap().is_none());
    let closed = w.close(None).unwrap().unwrap();
    let r = &closed.recording;
    assert_eq!(closed.id, id);
    assert_eq!(r.run_offset, 1);
    assert_eq!(r.flags, 1);
    assert_eq!(r.duration_90k, 0);
    assert_eq!(r.start, Time(1_008_990));
    // By the local clock the recording began 3700 ticks later than it was given.
    assert_eq!(r.local_time_delta, Duration(3700));
    assert_eq!(r.video_index, b"\x01\x06");
    assert_eq!(closed.live_segment.off_90k, 0..0);
    assert_eq!(hex(&r.sample_file_sha1), "66b27417d37e024c46526c2f6d358a754fc552f3");
}

/// The durations of a recording are corrected for what the recording
/// before it was off.
#[test]
fn writer_corrects_the_next_recording() {
    let mut w = Writer::new(1, 1);
    w.write(Some(CompositeId::new(1, 1)), b"a", Time(90_000), 0, true).unwrap();
    w.write(None, b"b", Time(180_000 + 2700), 90_000, true).unwrap();
    let closed = w.close(None).unwrap().unwrap();
    assert_eq!(closed.recording.start, Time(0));
    assert_eq!(closed.recording.local_time_delta, Duration(0));

    // The second recording shows that the camera's clock is slow.
    w.write(Some(CompositeId::new(1, 2)), b"c", Time(270_000 + 5400), 180_000, true).unwrap();
    let closed = w.close(Some(183_000)).unwrap().unwrap();
    assert_eq!(closed.recording.start, Time(90_000));
    assert_eq!(closed.recording.duration_90k, 3000);
    assert_eq!(closed.recording.local_time_delta, Duration(270_000 + 5400 - 3000 - 90_000));

    // So in the third, one tick is added for every 2000.
    w.write(Some(CompositeId::new(1, 3)), b"d", Time(360_000), 183_000, true).unwrap();
    w.write(None, b"e", Time(363_000), 186_000, false).unwrap();
    assert_eq!(w.recording().unwrap().duration_90k, 3001);
    w.write(None, b"f", Time(366_000), 189_000, false).unwrap();
    assert_eq!(w.recording().unwrap().duration_90k, 6003);
}

/// A frame that would take the recording beyond five minutes is refused.
#[test]
fn writer_refuses_too_long_a_recording() {
    let mut w = Writer::new(1, 1);
    w.write(Some(CompositeId::new(1, 1)), b"a", Time(0), 0, true).unwrap();
    w.write(None, b"b", Time(0), 27_000_000, false).unwrap();
    assert_eq!(
        w.write(None, b"c", Time(0), 27_000_001, false).unwrap_err().to_string(),
        "Duration 27000001 exceeds maximum 27000000"
    );
    assert_eq!(w.recording().unwrap().duration_90k, 27_000_000);
    assert_eq!(
        w.close(Some(27_000_001)).unwrap_err(),
        Error::DurationExceedsMax { duration_90k: 27_000_001, max: 27_000_000 }
    );
    assert_eq!(
        w.close(Some(26_999_999)).unwrap_err(),
        Error::PtsNotIncreasing { previous: 27_000_000, given: 26_999_999 }
    );
    let closed = w.close(Some(27_000_000)).unwrap().unwrap();
    assert_eq!(closed.recording.duration_90k, 27_000_000);
    assert_eq!(closed.recording.flags, 0);
}

/// A frame that the fingerprint did not take in ends the recording that is
/// open; a writer with none open stays as it is. A frame that is refused
/// is refused whatever became of the fingerprint.
#[test]
fn frame_that_was_not_hashed() {
    let mut w = Writer::new(1, 1);
    let id = CompositeId::new(1, 1);
    assert_eq!(
        w.frame_hashed(false, Some(id), 3, Time(0), 0, true).unwrap_err(),
        Error::Digest
    );
    assert_eq!(w.previously_opened(), Ok(false));
    assert!(w.recording().is_none());

    w.write(Some(id), b"abc", Time(0), 0, true).unwrap();
    assert_eq!(
        w.frame_hashed(false, None, 1, Time(0), 0, false).unwrap_err(),
        Error::PtsNotIncreasing { previous: 0, given: 0 }
    );
    assert_eq!(w.unflushed_sample().unwrap().len, 3);
    assert_eq!(
        w.frame_hashed(true, None, 1, Time(0), 27_000_001, false).unwrap_err(),
        Error::DurationExceedsMax { duration_90k: 27_000_001, max: 27_000_000 }
    );
    assert_eq!(w.unflushed_sample().unwrap().len, 3);
    assert_eq!(
        w.frame_hashed(false, None, 1, Time(0), 10, false).unwrap_err().to_string(),
        "unable to compute the SHA-1 of the sample file"
    );
    assert_eq!(w.previously_opened(), Ok(false));
    assert!(w.recording().is_none());

    // After a recording was closed, the writer remembers it all the same.
    w.write(Some(id), b"abc", Time(0), 0, true).unwrap();
    w.close(Some(5)).unwrap().unwrap();
    assert_eq!(
        w.frame_hashed(false, Some(CompositeId::new(1, 2)), 3, Time(5), 5, true).unwrap_err(),
        Error::Digest
    );
    assert_eq!(w.previously_opened(), Ok(true));
    assert_eq!(w.recording_to_add().unwrap().run_offset, 1);
}

/// A frame that the fingerprint took in is taken by the recording; the
/// fingerprint holds what it was given, no more.
#[test]
fn frame_that_was_hashed() {
    let mut w = Writer::new(1, 1);
    w.write(Some(CompositeId::new(1, 1)), b"a", Time(0), 0, true).unwrap();
    let live = w.frame_hashed(true, None, 2, Time(3000), 3000, true).unwrap().unwrap();
    assert_eq!(live.recording, 1);
    assert_eq!(live.off_90k, 0..3000);
    let held = w.unflushed_sample().unwrap();
    assert_eq!((held.len, held.pts_90k, held.is_key), (2, 3000, true));
    assert_eq!(w.recording().unwrap().sample_file_bytes, 1);
    assert!(w.frame_hashed(true, None, 5, Time(6000), 6000, false).unwrap().is_none());
    let closed = w.close(None).unwrap().unwrap();
    assert_eq!(closed.recording.sample_file_bytes, 8);
    assert_eq!(closed.recording.video_samples, 3);
    assert_eq!(hex(&closed.recording.sample_file_sha1), "86f7e437faa5a7fce15d1ddcb9eaeaea377667b8");
}

/// A recording is closed with the fingerprint that was computed, and given
/// up where none could be.
#[test]
fn close_with_and_without_fingerprint() {
    let mut w = Writer::new(1, 1);
    assert!(w.close_hashed(Some([7u8; 20]), None).unwrap().is_none());
    assert!(w.close_hashed(None, None).unwrap().is_none());
    assert_eq!(w.previously_opened(), Ok(false));

    w.write(Some(CompositeId::new(1, 1)), b"abc", Time(90_000), 0, true).unwrap();
    assert_eq!(
        w.close_hashed(Some([7u8; 20]), Some(-1)).unwrap_err(),
        Error::PtsNotIncreasing { previous: 0, given: -1 }
    );
    assert_eq!(
        w.close_hashed(None, Some(-1)).unwrap_err(),
        Error::PtsNotIncreasing { previous: 0, given: -1 }
    );
    assert!(w.recording().is_some());
    let closed = w.close_hashed(Some([7u8; 20]), Some(10)).unwrap().unwrap();
    assert_eq!(closed.id, CompositeId::new(1, 1));
    assert_eq!(closed.recording.sample_file_sha1, [7u8; 20]);
    assert_eq!(closed.recording.flags, 0);
    assert_eq!(closed.recording.duration_90k, 10);
    assert_eq!(closed.recording.start, Time(90_000 - 10));
    assert_eq!(closed.total_duration, Duration(10));
    assert_eq!(closed.live_segment.off_90k, 0..10);
    assert_eq!(w.previously_opened(), Ok(true));
    let previous = w.previous().unwrap();
    assert_eq!((previous.end, previous.run_offset), (Time(90_000), 0));

    w.write(Some(CompositeId::new(1, 2)), b"abc", Time(90_000), 10, true).unwrap();
    assert_eq!(w.close_hashed(None, None).unwrap_err(), Error::Digest);
    assert_eq!(w.previously_opened(), Ok(false));
    assert!(w.previous().is_none());
}

/// A write that took less than it was given leaves the rest to write.
#[test]
fn short_writes_leave_the_rest() {
    assert_eq!(after_write(4, 1), 3);
    assert_eq!(after_write(3, 3), 0);
    assert_eq!(after_write(3, 0), 3);
    assert_eq!(after_write(0, 0), 0);
}
