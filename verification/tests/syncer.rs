use moonfire_db::clock::{retry_step, Duration, Retry, SimulatedClocks, Timespec};
use moonfire_db::db::{CompositeId, RecordingToInsert, Stream};
use moonfire_db::recording;
use moonfire_db::retention::{delete_recordings, round_up};
use moonfire_db::error::Error;
use moonfire_db::syncer::{
    list_files_to_abandon, streams_to_next, unlink_outcome, AfterAttempt, GarbageCollection,
    GcStep, Syncer, SyncerAction, SyncerCommand, Unlinked,
};
use moonfire_db::writer::{after_write, Writer};
use nix::errno::Errno;
use std::cell::RefCell;
use std::collections::VecDeque;
use std::io;
use std::rc::Rc;
use std::sync::mpsc;

const TEST_STREAM_ID: i32 = 1;
const TEST_DIR_ID: i32 = 1;
const BLOCK: i64 = 4096;

type Command = SyncerCommand<MockFile, mpsc::SyncSender<()>>;
type Queue = Rc<RefCell<Option<VecDeque<Command>>>>;

/// A recording as the store of the tests keeps it.
struct Row {
    id: CompositeId,
    recording: RecordingToInsert,
    synced: bool,
    committed: bool,
    deleted: bool,
}

/// A store in memory that behaves as the metadata store does towards the
/// writer and the syncer.
struct Store {
    stream: Stream,
    sample_file_bytes: i64,
    bytes_to_add: i64,
    bytes_to_delete: i64,
    rows: Vec<Row>,
    garbage_needs_unlink: Vec<CompositeId>,
    garbage_unlinked: Vec<CompositeId>,
    flushes: usize,
    on_flush: Option<Queue>,
    video_sample_entries: Vec<(u16, u16, Vec<u8>, String)>,
}

impl Store {
    fn new(flush_if_sec: i64) -> Store {
        Store {
            stream: Stream {
                id: TEST_STREAM_ID,
                sample_file_dir_id: Some(TEST_DIR_ID),
                retain_bytes: 1048576,
                flush_if_sec,
                fs_bytes: 0,
                fs_bytes_to_add: 0,
                fs_bytes_to_delete: 0,
                next_recording_id: 1,
            },
            sample_file_bytes: 0,
            bytes_to_add: 0,
            bytes_to_delete: 0,
            rows: Vec::new(),
            garbage_needs_unlink: Vec::new(),
            garbage_unlinked: Vec::new(),
            flushes: 0,
            on_flush: None,
            video_sample_entries: Vec::new(),
        }
    }

    fn update_retention(&mut self, stream_id: i32, new_limit: i64) {
        assert_eq!(stream_id, self.stream.id);
        self.stream.retain_bytes = new_limit;
    }

    fn insert_video_sample_entry(
        &mut self,
        width: u16,
        height: u16,
        data: Vec<u8>,
        rfc6381_codec: String,
    ) -> i32 {
        self.video_sample_entries.push((width, height, data, rfc6381_codec));
        self.video_sample_entries.len() as i32
    }

    fn add_recording(&mut self, stream_id: i32, recording: RecordingToInsert) -> CompositeId {
        assert_eq!(stream_id, self.stream.id);
        let uncommitted = self.rows.iter().filter(|r| !r.committed).count() as i32;
        let id = CompositeId::new(stream_id, self.stream.next_recording_id + uncommitted);
        self.rows.push(Row { id, recording, synced: false, committed: false, deleted: false });
        id
    }

    fn update_recording(&mut self, id: CompositeId, recording: RecordingToInsert) {
        self.rows.iter_mut().find(|r| r.id == id).unwrap().recording = recording;
    }

    fn mark_synced(&mut self, id: CompositeId) {
        let row = self.rows.iter_mut().find(|r| r.id == id).unwrap();
        assert!(!row.synced);
        row.synced = true;
        row.recording.flags &= !2;
        self.bytes_to_add += i64::from(row.recording.sample_file_bytes);
        self.stream.fs_bytes_to_add += round_up(i64::from(row.recording.sample_file_bytes), BLOCK);
    }

    /// The lengths of the recordings that can be deleted, the oldest first.
    fn deletable(&self) -> Vec<i32> {
        self.rows
            .iter()
            .filter(|r| r.committed && !r.deleted)
            .map(|r| r.recording.sample_file_bytes)
            .collect()
    }

    fn delete_oldest_recordings(&mut self, n: usize) {
        let mut left = n;
        for row in self.rows.iter_mut().filter(|r| r.committed && !r.deleted) {
            if left == 0 {
                break;
            }
            row.deleted = true;
            self.bytes_to_delete += i64::from(row.recording.sample_file_bytes);
            self.stream.fs_bytes_to_delete +=
                round_up(i64::from(row.recording.sample_file_bytes), BLOCK);
            left -= 1;
        }
        assert_eq!(left, 0);
    }

    fn delete_garbage(&mut self, ids: &[CompositeId]) {
        for id in ids {
            let at = self.garbage_needs_unlink.iter().position(|g| g == id).unwrap();
            self.garbage_needs_unlink.remove(at);
            self.garbage_unlinked.push(*id);
        }
    }

    fn flush(&mut self, _reason: &str) {
        for row in self.rows.iter_mut() {
            if row.synced && !row.committed {
                row.committed = true;
                self.stream.next_recording_id = row.id.recording() + 1;
            }
        }
        let mut kept = Vec::new();
        for row in self.rows.drain(..) {
            if row.deleted {
                self.garbage_needs_unlink.push(row.id);
            } else {
                kept.push(row);
            }
        }
        self.rows = kept;
        self.sample_file_bytes += self.bytes_to_add - self.bytes_to_delete;
        self.bytes_to_add = 0;
        self.bytes_to_delete = 0;
        self.stream.fs_bytes += self.stream.fs_bytes_to_add - self.stream.fs_bytes_to_delete;
        self.stream.fs_bytes_to_add = 0;
        self.stream.fs_bytes_to_delete = 0;
        self.garbage_unlinked.clear();
        self.flushes += 1;
        if let Some(queue) = &self.on_flush {
            if let Some(q) = queue.borrow_mut().as_mut() {
                q.push_back(SyncerCommand::DatabaseFlushed);
            }
        }
    }
}

type Shared<T> = Rc<RefCell<T>>;

#[derive(Clone)]
struct MockDir(Shared<VecDeque<MockDirAction>>);

enum MockDirAction {
    Create(CompositeId, Box<dyn Fn(CompositeId) -> Result<MockFile, nix::Error>>),
    Sync(Box<dyn Fn() -> Result<(), nix::Error>>),
    Unlink(CompositeId, Box<dyn Fn(CompositeId) -> Result<(), nix::Error>>),
}

impl MockDir {
    fn new() -> Self {
        MockDir(Rc::new(RefCell::new(VecDeque::new())))
    }

    fn expect(&self, action: MockDirAction) {
        self.0.borrow_mut().push_back(action);
    }

    fn ensure_done(&self) {
        assert_eq!(self.0.borrow().len(), 0);
    }

    fn create_file(&self, id: CompositeId) -> Result<MockFile, nix::Error> {
        let action = self.0.borrow_mut().pop_front().expect("got create_file with no expectation");
        match action {
            MockDirAction::Create(expected_id, ref f) => {
                assert_eq!(id, expected_id);
                f(id)
            }
            _ => panic!("got create_file, expected something else"),
        }
    }

    fn sync(&self) -> Result<(), nix::Error> {
        let action = self.0.borrow_mut().pop_front().expect("got sync with no expectation");
        match action {
            MockDirAction::Sync(f) => f(),
            _ => panic!("got sync, expected something else"),
        }
    }

    fn unlink_file(&self, id: CompositeId) -> Result<(), nix::Error> {
        let action = self.0.borrow_mut().pop_front().expect("got unlink_file with no expectation");
        match action {
            MockDirAction::Unlink(expected_id, f) => {
                assert_eq!(id, expected_id);
                f(id)
            }
            _ => panic!("got unlink, expected something else"),
        }
    }
}

#[derive(Clone)]
struct MockFile(Shared<VecDeque<MockFileAction>>);

enum MockFileAction {
    SyncAll(Box<dyn Fn() -> Result<(), io::Error>>),
    Write(Box<dyn Fn(&[u8]) -> Result<usize, io::Error>>),
}

impl MockFile {
    fn new() -> Self {
        MockFile(Rc::new(RefCell::new(VecDeque::new())))
    }

    fn expect(&self, action: MockFileAction) {
        self.0.borrow_mut().push_back(action);
    }

    fn ensure_done(&self) {
        assert_eq!(self.0.borrow().len(), 0);
    }

    fn sync_all(&self) -> Result<(), io::Error> {
        let action = self.0.borrow_mut().pop_front().expect("got sync_all with no expectation");
        match action {
            MockFileAction::SyncAll(f) => f(),
            _ => panic!("got sync_all, expected something else"),
        }
    }

    fn write(&mut self, buf: &[u8]) -> Result<usize, io::Error> {
        let action = self.0.borrow_mut().pop_front().expect("got write with no expectation");
        match action {
            MockFileAction::Write(f) => f(buf),
            _ => panic!("got write, expected something else"),
        }
    }
}

/// Makes attempts until one succeeds, with a sleep on the simulated clock
/// after each that fails.
fn retry_forever<T, E>(clocks: &Shared<SimulatedClocks>, f: &mut dyn FnMut() -> Result<T, E>) -> T {
    loop {
        match retry_step(f()) {
            Retry::Done(t) => return t,
            Retry::SleepThenRetry(how_long) => clocks.borrow_mut().sleep(how_long),
        }
    }
}

/// The worker of the syncer: what runs in its thread.
struct TestSyncer {
    db: Shared<Store>,
    clocks: Shared<SimulatedClocks>,
    dir: MockDir,
    rcv: Queue,
    planned_flushes: Syncer<mpsc::SyncSender<()>>,
}

struct Harness {
    db: Shared<Store>,
    clocks: Shared<SimulatedClocks>,
    dir: MockDir,
    channel: Queue,
    syncer: TestSyncer,
}

fn new_harness(flush_if_sec: i64) -> Harness {
    let clocks = Rc::new(RefCell::new(SimulatedClocks::new(Timespec::new(0, 0))));
    let channel: Queue = Rc::new(RefCell::new(Some(VecDeque::new())));
    let mut store = Store::new(flush_if_sec);
    store.on_flush = Some(channel.clone());
    let db = Rc::new(RefCell::new(store));
    let dir = MockDir::new();
    Harness {
        syncer: TestSyncer {
            db: db.clone(),
            clocks: clocks.clone(),
            dir: dir.clone(),
            rcv: channel.clone(),
            planned_flushes: Syncer::new(TEST_DIR_ID, &[]).unwrap(),
        },
        db,
        clocks,
        dir,
        channel,
    }
}

/// A writer with what it writes to: the directory, the store, the channel
/// to the syncer, and the file of the recording that it has open.
struct TestWriter<'a> {
    dir: &'a MockDir,
    db: &'a Shared<Store>,
    channel: &'a Queue,
    clocks: &'a Shared<SimulatedClocks>,
    stream_id: i32,
    state: Writer,
    file: Option<MockFile>,
}

impl<'a> TestWriter<'a> {
    fn new(
        dir: &'a MockDir,
        db: &'a Shared<Store>,
        channel: &'a Queue,
        clocks: &'a Shared<SimulatedClocks>,
        stream_id: i32,
        video_sample_entry_id: i32,
    ) -> Self {
        TestWriter {
            dir,
            db,
            channel,
            clocks,
            stream_id,
            state: Writer::new(stream_id, video_sample_entry_id),
            file: None,
        }
    }

    fn write(
        &mut self,
        pkt: &[u8],
        local_time: recording::Time,
        pts_90k: i64,
        is_key: bool,
    ) -> Result<(), String> {
        let opened = match self.state.recording_to_add() {
            None => None,
            Some(row) => {
                let id = self.db.borrow_mut().add_recording(self.stream_id, row);
                let dir = self.dir;
                self.file = Some(retry_forever(self.clocks, &mut || dir.create_file(id)));
                Some(id)
            }
        };
        self.state.write(opened, pkt, local_time, pts_90k, is_key).map_err(|e| e.to_string())?;
        let f = self.file.as_mut().unwrap();
        let mut remaining = pkt;
        while !remaining.is_empty() {
            let written = retry_forever(self.clocks, &mut || f.write(remaining));
            assert!(written <= remaining.len());
            let left = after_write(remaining.len(), written);
            remaining = &remaining[remaining.len() - left..];
        }
        Ok(())
    }

    fn close(&mut self, next_pts: Option<i64>) -> Result<(), String> {
        if let Some(closed) = self.state.close(next_pts).map_err(|e| e.to_string())? {
            let duration = closed.total_duration;
            self.db.borrow_mut().update_recording(closed.id, closed.recording);
            let f = self.file.take().unwrap();
            self.channel
                .borrow_mut()
                .as_mut()
                .unwrap()
                .push_back(SyncerCommand::AsyncSaveRecording(closed.id, duration, f));
        }
        Ok(())
    }
}

impl<'a> Drop for TestWriter<'a> {
    fn drop(&mut self) {
        let _ = self.close(None);
    }
}

impl TestSyncer {
    fn monotonic(&self) -> Timespec {
        self.clocks.borrow().monotonic()
    }

    fn delete_recordings(&self, extra_bytes_needed: i64) {
        let mut db = self.db.borrow_mut();
        let sizes = db.deletable();
        let stream = db.stream;
        let deletion = delete_recordings(&stream, extra_bytes_needed, &sizes, BLOCK);
        db.delete_oldest_recordings(deletion.recordings);
    }

    fn save(&mut self, id: CompositeId, duration: recording::Duration, f: MockFile) {
        retry_forever(&self.clocks, &mut || f.sync_all());
        let dir = self.dir.clone();
        retry_forever(&self.clocks, &mut || dir.sync());
        self.db.borrow_mut().mark_synced(id);
        self.delete_recordings(0);
        let flush_if_sec = self.db.borrow().stream.flush_if_sec;
        let reason = format!("{} sec after start of recording {:?}", flush_if_sec, id);
        let now = self.monotonic();
        self.planned_flushes.schedule_flush(now, id, flush_if_sec, duration, reason);
    }

    fn collect_garbage(&mut self) {
        let garbage = self.db.borrow().garbage_needs_unlink.clone();
        let mut gc = GarbageCollection::new(garbage, true);
        loop {
            let after = match gc.step() {
                GcStep::Unlink(id) => {
                    let result = self.dir.unlink_file(id).map_err(|e| e.as_errno());
                    gc.unlinked(unlink_outcome(result))
                }
                GcStep::SyncDir => {
                    let synced = self.dir.sync().is_ok();
                    gc.dir_synced(synced)
                }
                GcStep::Commit => {
                    self.db.borrow_mut().delete_garbage(gc.garbage());
                    gc.committed(true)
                }
                GcStep::Done => return,
                GcStep::Failed(e) => panic!("{}", e.to_string()),
            };
            if let AfterAttempt::SleepThenRetry(how_long) = after {
                self.clocks.borrow_mut().sleep(how_long);
            }
        }
    }

    fn flush(&mut self) {
        let streams = [self.db.borrow().stream];
        let next = streams_to_next(&streams, TEST_DIR_ID);
        let now = self.monotonic();
        if let Some(reason) = self.planned_flushes.plan_flush(now, &next) {
            self.db.borrow_mut().flush(&reason);
            let now = self.monotonic();
            self.planned_flushes.flush_done(true, now);
        }
    }

    /// Handles one command or one timeout. Returns whether the syncer is
    /// to go on.
    fn iter(&mut self) -> bool {
        let now = self.monotonic();
        let received = match self.rcv.borrow_mut().as_mut() {
            None => Err(mpsc::RecvTimeoutError::Disconnected),
            Some(q) => q.pop_front().ok_or(mpsc::RecvTimeoutError::Timeout),
        };
        let command = match self.planned_flushes.timeout(now) {
            None => match received {
                Ok(command) => command,
                Err(mpsc::RecvTimeoutError::Disconnected) => return false,
                Err(mpsc::RecvTimeoutError::Timeout) => panic!("the syncer would wait for ever"),
            },
            Some(timeout) => {
                let received = self.clocks.borrow_mut().recv_timeout(received, timeout);
                match received {
                    Err(mpsc::RecvTimeoutError::Disconnected) => return false,
                    Err(mpsc::RecvTimeoutError::Timeout) => {
                        self.flush();
                        return true;
                    }
                    Ok(command) => command,
                }
            }
        };
        match self.planned_flushes.on_command(command) {
            SyncerAction::Save(id, duration, f) => self.save(id, duration, f),
            SyncerAction::CollectGarbage => self.collect_garbage(),
            SyncerAction::Continue => {}
        }
        true
    }
}

impl Harness {
    fn monotonic(&self) -> Timespec {
        self.clocks.borrow().monotonic()
    }

    /// Drops the channel, and sees the syncer end.
    fn shut_down(mut self) {
        *self.channel.borrow_mut() = None;
        self.db.borrow_mut().on_flush = None;
        assert!(!self.syncer.iter());
        assert_eq!(self.syncer.planned_flushes.planned_flushes_len(), 0);
    }
}

fn eio() -> io::Error {
    io::Error::new(io::ErrorKind::Other, "got EIO")
}

fn nix_eio() -> nix::Error {
    nix::Error::Sys(Errno::EIO)
}

fn expect_create(h: &Harness, id: CompositeId, f: &MockFile) {
    let f = f.clone();
    h.dir.expect(MockDirAction::Create(id, Box::new(move |_id| Ok(f.clone()))));
}

fn expect_write(f: &MockFile, expected: &'static [u8], written: usize) {
    f.expect(MockFileAction::Write(Box::new(move |buf| {
        assert_eq!(buf, expected);
        Ok(written)
    })));
}

/// Tests the database flushing while a syncer is still processing a previous flush event.
#[test]
fn double_flush() {
    let mut h = new_harness(0);
    h.db.borrow_mut().update_retention(TEST_STREAM_ID, 0);

    // Setup: add a 3-byte recording.
    let video_sample_entry_id = h.db.borrow_mut().insert_video_sample_entry(
        1920,
        1080,
        [0u8; 100].to_vec(),
        "avc1.000000".to_owned(),
    );
    let mut w = TestWriter::new(
        &h.dir,
        &h.db,
        &h.channel,
        &h.clocks,
        TEST_STREAM_ID,
        video_sample_entry_id,
    );
    let f = MockFile::new();
    expect_create(&h, CompositeId::new(1, 1), &f);
    expect_write(&f, b"123", 3);
    f.expect(MockFileAction::SyncAll(Box::new(|| Ok(()))));
    w.write(b"123", recording::Time(2), 0, true).unwrap();
    h.dir.expect(MockDirAction::Sync(Box::new(|| Ok(()))));
    w.close(Some(1)).unwrap();
    assert!(h.syncer.iter()); // AsyncSave
    assert_eq!(h.syncer.planned_flushes.planned_flushes_len(), 1);
    assert!(h.syncer.iter()); // planned flush
    assert_eq!(h.syncer.planned_flushes.planned_flushes_len(), 0);
    assert!(h.syncer.iter()); // DatabaseFlushed
    f.ensure_done();
    h.dir.ensure_done();

    // Then a 1-byte recording.
    let f = MockFile::new();
    expect_create(&h, CompositeId::new(1, 2), &f);
    expect_write(&f, b"4", 1);
    f.expect(MockFileAction::SyncAll(Box::new(|| Ok(()))));
    w.write(b"4", recording::Time(3), 1, true).unwrap();
    h.dir.expect(MockDirAction::Sync(Box::new(|| Ok(()))));
    h.dir.expect(MockDirAction::Unlink(
        CompositeId::new(1, 1),
        Box::new({
            let db = h.db.clone();
            move |_| {
                // The drop(w) below should cause the old recording to be deleted (moved to
                // garbage). When the database is flushed, the syncer forces garbage collection
                // including this unlink.

                // Do another database flush here, as if from another syncer.
                db.borrow_mut().flush("another syncer running");
                Ok(())
            }
        }),
    ));
    h.dir.expect(MockDirAction::Sync(Box::new(|| Ok(()))));
    drop(w);

    assert!(h.syncer.iter()); // AsyncSave
    assert_eq!(h.syncer.planned_flushes.planned_flushes_len(), 1);
    assert!(h.syncer.iter()); // planned flush
    assert_eq!(h.syncer.planned_flushes.planned_flushes_len(), 0);
    assert!(h.syncer.iter()); // DatabaseFlushed
    assert!(h.syncer.iter()); // DatabaseFlushed again
    f.ensure_done();
    h.dir.ensure_done();

    // Garbage should be marked collected on the next database flush.
    {
        let mut l = h.db.borrow_mut();
        assert!(l.garbage_needs_unlink.is_empty());
        assert!(!l.garbage_unlinked.is_empty());
        l.flush("forced gc");
        assert!(l.garbage_needs_unlink.is_empty());
        assert!(l.garbage_unlinked.is_empty());
    }

    assert_eq!(h.syncer.planned_flushes.planned_flushes_len(), 0);
    assert!(h.syncer.iter()); // DatabaseFlushed

    // The syncer should shut down cleanly.
    h.shut_down();
}

#[test]
fn write_path_retries() {
    let mut h = new_harness(0);
    let video_sample_entry_id = h.db.borrow_mut().insert_video_sample_entry(
        1920,
        1080,
        [0u8; 100].to_vec(),
        "avc1.000000".to_owned(),
    );
    let mut w = TestWriter::new(
        &h.dir,
        &h.db,
        &h.channel,
        &h.clocks,
        TEST_STREAM_ID,
        video_sample_entry_id,
    );
    h.dir.expect(MockDirAction::Create(CompositeId::new(1, 1), Box::new(|_id| Err(nix_eio()))));
    let f = MockFile::new();
    expect_create(&h, CompositeId::new(1, 1), &f);
    f.expect(MockFileAction::Write(Box::new(|buf| {
        assert_eq!(buf, b"1234");
        Err(eio())
    })));
    expect_write(&f, b"1234", 1);
    f.expect(MockFileAction::Write(Box::new(|buf| {
        assert_eq!(buf, b"234");
        Err(eio())
    })));
    expect_write(&f, b"234", 3);
    f.expect(MockFileAction::SyncAll(Box::new(|| Err(eio()))));
    f.expect(MockFileAction::SyncAll(Box::new(|| Ok(()))));
    w.write(b"1234", recording::Time(1), 0, true).unwrap();
    h.dir.expect(MockDirAction::Sync(Box::new(|| Err(nix_eio()))));
    h.dir.expect(MockDirAction::Sync(Box::new(|| Ok(()))));
    drop(w);
    assert!(h.syncer.iter()); // AsyncSave
    assert_eq!(h.syncer.planned_flushes.planned_flushes_len(), 1);
    assert!(h.syncer.iter()); // planned flush
    assert_eq!(h.syncer.planned_flushes.planned_flushes_len(), 0);
    assert!(h.syncer.iter()); // DatabaseFlushed
    f.ensure_done();
    h.dir.ensure_done();

    {
        let l = h.db.borrow();
        assert_eq!(l.bytes_to_add, 0);
        assert_eq!(l.sample_file_bytes, 4);
    }

    // The syncer should shut down cleanly.
    h.shut_down();
}

#[test]
fn gc_path_retries() {
    let mut h = new_harness(0);
    h.db.borrow_mut().update_retention(TEST_STREAM_ID, 0);

    // Setup: add a 3-byte recording.
    let video_sample_entry_id = h.db.borrow_mut().insert_video_sample_entry(
        1920,
        1080,
        [0u8; 100].to_vec(),
        "avc1.000000".to_owned(),
    );
    let mut w = TestWriter::new(
        &h.dir,
        &h.db,
        &h.channel,
        &h.clocks,
        TEST_STREAM_ID,
        video_sample_entry_id,
    );
    let f = MockFile::new();
    expect_create(&h, CompositeId::new(1, 1), &f);
    expect_write(&f, b"123", 3);
    f.expect(MockFileAction::SyncAll(Box::new(|| Ok(()))));
    w.write(b"123", recording::Time(2), 0, true).unwrap();
    h.dir.expect(MockDirAction::Sync(Box::new(|| Ok(()))));
    w.close(Some(1)).unwrap();

    assert!(h.syncer.iter()); // AsyncSave
    assert_eq!(h.syncer.planned_flushes.planned_flushes_len(), 1);
    assert!(h.syncer.iter()); // planned flush
    assert_eq!(h.syncer.planned_flushes.planned_flushes_len(), 0);
    assert!(h.syncer.iter()); // DatabaseFlushed
    f.ensure_done();
    h.dir.ensure_done();

    // Then a 1-byte recording.
    let f = MockFile::new();
    expect_create(&h, CompositeId::new(1, 2), &f);
    expect_write(&f, b"4", 1);
    f.expect(MockFileAction::SyncAll(Box::new(|| Ok(()))));
    w.write(b"4", recording::Time(3), 1, true).unwrap();
    h.dir.expect(MockDirAction::Sync(Box::new(|| Ok(()))));
    h.dir.expect(MockDirAction::Unlink(
        CompositeId::new(1, 1),
        Box::new({
            let db = h.db.clone();
            move |_| {
                // The drop(w) below should cause the old recording to be deleted (moved to
                // garbage).  When the database is flushed, the syncer forces garbage collection
                // including this unlink.

                // This should have already applied the changes to sample file bytes, even
                // though the garbage has yet to be collected.
                let l = db.borrow();
                assert_eq!(l.bytes_to_delete, 0);
                assert_eq!(l.bytes_to_add, 0);
                assert_eq!(l.sample_file_bytes, 1);
                Err(nix_eio()) // force a retry.
            }
        }),
    ));
    h.dir.expect(MockDirAction::Unlink(CompositeId::new(1, 1), Box::new(|_| Ok(()))));
    h.dir.expect(MockDirAction::Sync(Box::new(|| Err(nix_eio()))));
    h.dir.expect(MockDirAction::Sync(Box::new(|| Ok(()))));

    drop(w);

    assert!(h.syncer.iter()); // AsyncSave
    assert_eq!(h.syncer.planned_flushes.planned_flushes_len(), 1);
    assert!(h.syncer.iter()); // planned flush
    assert_eq!(h.syncer.planned_flushes.planned_flushes_len(), 0);
    assert!(h.syncer.iter()); // DatabaseFlushed
    f.ensure_done();
    h.dir.ensure_done();

    // Garbage should be marked collected on the next flush.
    {
        let mut l = h.db.borrow_mut();
        assert!(l.garbage_needs_unlink.is_empty());
        assert!(!l.garbage_unlinked.is_empty());
        l.flush("forced gc");
        assert!(l.garbage_needs_unlink.is_empty());
        assert!(l.garbage_unlinked.is_empty());
    }

    assert!(h.syncer.iter()); // DatabaseFlushed

    // The syncer should shut down cleanly.
    h.shut_down();
}

#[test]
fn planned_flush() {
    let mut h = new_harness(60); // flush_if_sec=60

    // There's a database constraint forbidding a recording starting at t=0, so advance.
    h.clocks.borrow_mut().sleep(Duration::seconds(1));

    // Setup: add a 3-byte recording.
    let video_sample_entry_id = h.db.borrow_mut().insert_video_sample_entry(
        1920,
        1080,
        [0u8; 100].to_vec(),
        "avc1.000000".to_owned(),
    );
    let mut w = TestWriter::new(
        &h.dir,
        &h.db,
        &h.channel,
        &h.clocks,
        TEST_STREAM_ID,
        video_sample_entry_id,
    );
    let f1 = MockFile::new();
    expect_create(&h, CompositeId::new(1, 1), &f1);
    expect_write(&f1, b"123", 3);
    f1.expect(MockFileAction::SyncAll(Box::new(|| Ok(()))));
    w.write(b"123", recording::Time(recording::TIME_UNITS_PER_SEC), 0, true).unwrap();
    h.dir.expect(MockDirAction::Sync(Box::new(|| Ok(()))));
    drop(w);

    assert!(h.syncer.iter()); // AsyncSave
    assert_eq!(h.syncer.planned_flushes.planned_flushes_len(), 1);

    // Flush and let 30 seconds go by.
    h.db.borrow_mut().flush("forced");
    assert!(h.syncer.iter()); // DatabaseFlushed
    assert_eq!(h.syncer.planned_flushes.planned_flushes_len(), 1);
    h.clocks.borrow_mut().sleep(Duration::seconds(30));

    // Then, a 1-byte recording.
    let mut w = TestWriter::new(
        &h.dir,
        &h.db,
        &h.channel,
        &h.clocks,
        TEST_STREAM_ID,
        video_sample_entry_id,
    );
    let f2 = MockFile::new();
    expect_create(&h, CompositeId::new(1, 2), &f2);
    expect_write(&f2, b"4", 1);
    f2.expect(MockFileAction::SyncAll(Box::new(|| Ok(()))));
    w.write(b"4", recording::Time(31 * recording::TIME_UNITS_PER_SEC), 1, true).unwrap();
    h.dir.expect(MockDirAction::Sync(Box::new(|| Ok(()))));

    drop(w);

    assert!(h.syncer.iter()); // AsyncSave
    assert_eq!(h.syncer.planned_flushes.planned_flushes_len(), 2);

    assert_eq!(h.syncer.planned_flushes.planned_flushes_len(), 2);
    let db_flush_count_before = h.db.borrow().flushes;
    assert_eq!(h.monotonic(), Timespec::new(31, 0));
    assert!(h.syncer.iter()); // planned flush (no-op)
    assert_eq!(h.monotonic(), Timespec::new(61, 0));
    assert_eq!(h.db.borrow().flushes, db_flush_count_before);
    assert_eq!(h.syncer.planned_flushes.planned_flushes_len(), 1);
    assert!(h.syncer.iter()); // planned flush
    assert_eq!(h.monotonic(), Timespec::new(91, 0));
    assert_eq!(h.db.borrow().flushes, db_flush_count_before + 1);
    assert_eq!(h.syncer.planned_flushes.planned_flushes_len(), 0);
    assert!(h.syncer.iter()); // DatabaseFlushed

    f1.ensure_done();
    f2.ensure_done();
    h.dir.ensure_done();

    // The syncer should shut down cleanly.
    h.shut_down();
}

/// A flush that fails is put off by a minute.
#[test]
fn failed_flush_is_retried_after_a_minute() {
    let mut syncer: Syncer<()> = Syncer::new(TEST_DIR_ID, &[]).unwrap();
    let now = Timespec::new(10, 500);
    let id = CompositeId::new(1, 1);
    syncer.schedule_flush(now, id, 5, recording::Duration(90000), "first".to_owned());
    syncer.schedule_flush(now, CompositeId::new(1, 2), 30, recording::Duration(0), "second".to_owned());
    assert_eq!(syncer.next_flush(), Some(Timespec::new(14, 500)));
    assert_eq!(syncer.timeout(now), Some(Duration { secs: 4, nanos: 0 }));
    assert_eq!(syncer.timeout(Timespec::new(20, 0)), Some(Duration { secs: 0, nanos: 0 }));
    let streams = [Stream {
        id: 1,
        sample_file_dir_id: Some(TEST_DIR_ID),
        retain_bytes: 0,
        flush_if_sec: 5,
        fs_bytes: 0,
        fs_bytes_to_add: 0,
        fs_bytes_to_delete: 0,
        next_recording_id: 1,
    }];
    let next = streams_to_next(&streams, TEST_DIR_ID);
    assert_eq!(syncer.plan_flush(Timespec::new(14, 499), &next), None);
    assert_eq!(syncer.plan_flush(Timespec::new(14, 500), &next), Some("first".to_owned()));
    syncer.flush_done(false, Timespec::new(15, 0));
    assert_eq!(syncer.planned_flushes_len(), 2);
    assert_eq!(syncer.next_flush(), Some(Timespec::new(40, 500)));
    assert_eq!(syncer.plan_flush(Timespec::new(41, 0), &next), Some("second".to_owned()));
    syncer.flush_done(false, Timespec::new(41, 0));
    assert_eq!(syncer.next_flush(), Some(Timespec::new(75, 0)));
    assert_eq!(syncer.plan_flush(Timespec::new(75, 0), &next), Some("first".to_owned()));
    syncer.flush_done(true, Timespec::new(75, 0));
    assert_eq!(syncer.planned_flushes_len(), 0);
    assert_eq!(syncer.timeout(now), None);
}

/// A flush planned for a stream that is not known is dropped.
#[test]
fn flush_for_unknown_stream_is_dropped() {
    let mut syncer: Syncer<()> = Syncer::new(TEST_DIR_ID, &[]).unwrap();
    let now = Timespec::new(0, 0);
    syncer.schedule_flush(now, CompositeId::new(7, 1), 0, recording::Duration(0), "x".to_owned());
    let next = streams_to_next(&[], TEST_DIR_ID);
    assert_eq!(syncer.plan_flush(now, &next), None);
    assert_eq!(syncer.planned_flushes_len(), 0);
}

/// The sender of a flush command is dropped when the next planned flush
/// fires, and at once where none is planned.
#[test]
fn flush_command_waits_for_the_next_flush() {
    let mut syncer: Syncer<mpsc::SyncSender<()>> = Syncer::new(TEST_DIR_ID, &[]).unwrap();
    let (snd, rcv) = mpsc::sync_channel(0);
    let command: SyncerCommand<(), _> = SyncerCommand::Flush(snd);
    assert!(matches!(syncer.on_command(command), SyncerAction::Continue));
    assert_eq!(rcv.try_recv(), Err(mpsc::TryRecvError::Disconnected));

    let now = Timespec::new(0, 0);
    syncer.schedule_flush(now, CompositeId::new(1, 1), 0, recording::Duration(0), "x".to_owned());
    let (snd, rcv) = mpsc::sync_channel(0);
    let command: SyncerCommand<(), _> = SyncerCommand::Flush(snd);
    assert!(matches!(syncer.on_command(command), SyncerAction::Continue));
    assert_eq!(rcv.try_recv(), Err(mpsc::TryRecvError::Empty));
    syncer.flush_done(true, now);
    assert_eq!(rcv.try_recv(), Err(mpsc::TryRecvError::Disconnected));
}

#[test]
fn syncer_does_not_start_with_undeletable_files() {
    let outcomes = [Unlinked::Failed, Unlinked::AlreadyGone, Unlinked::Done, Unlinked::Failed];
    let r: Result<Syncer<()>, _> = Syncer::new(TEST_DIR_ID, &outcomes);
    assert_eq!(r.err().unwrap().to_string(), "Unable to delete 2 abandoned recordings.");
}

/// Files are abandoned that a crash left behind: those with the name of a
/// recording that its stream has not given out yet.
#[test]
fn abandoned_files() {
    let stream = |id, dir, next| Stream {
        id,
        sample_file_dir_id: dir,
        retain_bytes: 0,
        flush_if_sec: 0,
        fs_bytes: 0,
        fs_bytes_to_add: 0,
        fs_bytes_to_delete: 0,
        next_recording_id: next,
    };
    let streams = [stream(1, Some(1), 3), stream(2, Some(2), 1), stream(3, None, 1), stream(4, Some(1), 1)];
    let next = streams_to_next(&streams, 1);
    assert_eq!(next.len(), 2);
    assert_eq!(next.get(&1), Some(&3));
    assert_eq!(next.get(&4), Some(&1));
    let names: Vec<Vec<u8>> = vec![
        b"0000000100000002".to_vec(),
        b"0000000100000003".to_vec(),
        b"000000010000000a".to_vec(),
        b"000000010000000A".to_vec(),
        b"0000000200000005".to_vec(),
        b"0000000300000005".to_vec(),
        b"0000000400000001".to_vec(),
        b"0000000400000000".to_vec(),
        b"00000004000000010".to_vec(),
        b"meta".to_vec(),
        b"".to_vec(),
    ];
    assert_eq!(
        list_files_to_abandon(&names, &next),
        vec![CompositeId::new(1, 3), CompositeId::new(1, 10), CompositeId::new(4, 1)]
    );
}

/// A file that is not there counts as unlinked; any other failure fails.
#[test]
fn unlink_outcomes() {
    assert_eq!(unlink_outcome(Ok(())), Unlinked::Done);
    assert_eq!(unlink_outcome(Err(Some(Errno::ENOENT))), Unlinked::AlreadyGone);
    assert_eq!(unlink_outcome(Err(Some(Errno::EIO))), Unlinked::Failed);
    assert_eq!(unlink_outcome(Err(None)), Unlinked::Failed);
    assert_eq!(
        Error::UnlinkFailed { count: 2 }.to_string(),
        "Unable to unlink 2 files (see earlier warning messages for details)"
    );
}

/// The files are unlinked, then the directory is synced, then the store is
/// told; a worker makes each step until it succeeds.
#[test]
fn garbage_collection_retries_in_order() {
    let ids = vec![CompositeId::new(1, 1), CompositeId::new(1, 2)];
    let mut gc = GarbageCollection::new(ids.clone(), true);
    let again = AfterAttempt::SleepThenRetry(Duration { secs: 1, nanos: 0 });
    assert_eq!(gc.garbage(), &ids);
    assert_eq!(gc.step(), GcStep::Unlink(ids[0]));
    assert_eq!(gc.unlinked(Unlinked::Failed), again);
    assert_eq!(gc.step(), GcStep::Unlink(ids[0]));
    assert_eq!(gc.unlinked(Unlinked::AlreadyGone), AfterAttempt::Proceed);
    assert_eq!(gc.step(), GcStep::Unlink(ids[1]));
    assert_eq!(gc.unlinked(Unlinked::Done), AfterAttempt::Proceed);
    assert_eq!(gc.step(), GcStep::SyncDir);
    assert_eq!(gc.dir_synced(false), again);
    assert_eq!(gc.step(), GcStep::SyncDir);
    assert_eq!(gc.dir_synced(true), AfterAttempt::Proceed);
    assert_eq!(gc.step(), GcStep::Commit);
    assert_eq!(gc.committed(false), again);
    assert_eq!(gc.step(), GcStep::Commit);
    assert_eq!(gc.committed(true), AfterAttempt::Proceed);
    assert_eq!(gc.step(), GcStep::Done);
}

/// At the start of a syncer nothing is made again: a file that cannot be
/// unlinked fails the round once all files have been tried, and the store
/// is not told.
#[test]
fn garbage_collection_fails_at_rotation() {
    let ids = vec![CompositeId::new(1, 1), CompositeId::new(1, 2), CompositeId::new(1, 3)];
    let mut gc = GarbageCollection::new(ids.clone(), false);
    assert_eq!(gc.unlinked(Unlinked::Failed), AfterAttempt::Proceed);
    assert_eq!(gc.step(), GcStep::Unlink(ids[1]));
    assert_eq!(gc.unlinked(Unlinked::Done), AfterAttempt::Proceed);
    assert_eq!(gc.unlinked(Unlinked::Failed), AfterAttempt::Proceed);
    assert_eq!(gc.step(), GcStep::Failed(Error::UnlinkFailed { count: 2 }));

    let mut gc = GarbageCollection::new(ids.clone(), false);
    for _ in 0..3 {
        assert_eq!(gc.unlinked(Unlinked::AlreadyGone), AfterAttempt::Proceed);
    }
    assert_eq!(gc.step(), GcStep::SyncDir);
    assert_eq!(gc.dir_synced(false), AfterAttempt::Proceed);
    assert_eq!(gc.step(), GcStep::Failed(Error::DirSyncFailed));
    assert_eq!(
        Error::DirSyncFailed.to_string(),
        "unable to sync the sample file directory"
    );

    let mut gc = GarbageCollection::new(ids, false);
    for _ in 0..3 {
        gc.unlinked(Unlinked::Done);
    }
    gc.dir_synced(true);
    assert_eq!(gc.step(), GcStep::Commit);
    assert_eq!(gc.committed(false), AfterAttempt::Proceed);
    assert_eq!(gc.step(), GcStep::Failed(Error::DeleteGarbageFailed));
    assert_eq!(
        Error::DeleteGarbageFailed.to_string(),
        "unable to note the unlinked files in the store"
    );

    // With nothing to unlink there is nothing to do.
    let gc = GarbageCollection::new(Vec::new(), false);
    assert_eq!(gc.step(), GcStep::Done);
}
