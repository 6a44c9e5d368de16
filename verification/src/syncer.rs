//! The syncer of a sample file directory: which files to abandon at the
//! start, and when to flush the metadata store for the recordings that
//! have been saved.

use crate::clock::{Duration, Timespec, MAX_SECONDS, NANOS_PER_SEC};
use crate::db::{CompositeId, Stream};
use crate::dir::{parse_id, spec_parse_id};
use crate::error::Error;
use crate::recording;
use fnv::FnvHashMap;
use nix::errno::Errno;
use vstd::prelude::*;

verus! {

/// `fnv::FnvHasher`, the hasher of the maps that are keyed by stream id.
/// Nothing is known of what is inside.
#[verifier::external_type_specification]
#[verifier::external_body]
pub struct ExFnvHasher(fnv::FnvHasher);

/// `std::hash::BuildHasherDefault`, by which a map makes its hashers.
/// Nothing is known of what is inside.
#[verifier::external_type_specification]
#[verifier::external_body]
#[verifier::reject_recursive_types(H)]
pub struct ExBuildHasherDefault<H>(std::hash::BuildHasherDefault<H>);

/// `nix::errno::Errno`, the error number of a system call. Nothing is
/// known of which number a value holds.
#[verifier::external_type_specification]
#[verifier::external_body]
pub struct ExErrno(nix::errno::Errno);

/// `FnvHashMap::default`, that is `HashMap::default` with the FNV hasher:
/// the map that holds nothing.
#[verifier::external_body]
pub(crate) fn fnv_map_new() -> (map: FnvHashMap<i32, i32>)
    ensures
        map@ == (Map::<i32, i32>::empty()),
{
    FnvHashMap::default()
}

/// `HashMap::insert` on a map with the FNV hasher: the map then holds `v`
/// at `k`, and all else as before.
#[verifier::external_body]
pub(crate) fn fnv_map_insert(m: &mut FnvHashMap<i32, i32>, k: i32, v: i32)
    ensures
        final(m)@ == old(m)@.insert(k, v),
{
    m.insert(k, v);
}

/// `HashMap::get` on a map with the FNV hasher: what the map holds at `k`,
/// if anything.
#[verifier::external_body]
pub(crate) fn fnv_map_get(m: &FnvHashMap<i32, i32>, k: i32) -> (r: Option<i32>)
    ensures
        r == (if m@.contains_key(k) {
            Some(m@[k])
        } else {
            None
        }),
{
    m.get(&k).copied()
}

/// Whether an error number is `Errno::ENOENT`, the number that says that
/// there is no such file.
pub uninterp spec fn is_enoent(e: Errno) -> bool;

/// The comparison of a `nix::errno::Errno` with `Errno::ENOENT`, by the
/// `==` that nix derives for its error numbers: whether the number is the
/// one that says that there is no such file.
#[verifier::external_body]
pub(crate) fn errno_is_enoent(e: Errno) -> (r: bool)
    ensures
        r == is_enoent(e),
{
    e == Errno::ENOENT
}

/// How an attempt to unlink a sample file ended.
#[derive(Clone, Copy, Debug, PartialEq, Eq, Structural)]
pub enum Unlinked {
    /// The file is gone now.
    Done,
    /// The file was gone already, which is as good.
    AlreadyGone,
    /// The file could not be unlinked.
    Failed,
}

/// Tells how an attempt to unlink ended, from whether it failed, and if so
/// whether for want of the file.
pub fn unlinked(failure: Option<bool>) -> (u: Unlinked)
    ensures
        u == (match failure {
            None => Unlinked::Done,
            Some(true) => Unlinked::AlreadyGone,
            Some(false) => Unlinked::Failed,
        }),
{
    match failure {
        None => Unlinked::Done,
        Some(true) => Unlinked::AlreadyGone,
        Some(false) => Unlinked::Failed,
    }
}

/// How an attempt to unlink a sample file ended, by the error number that
/// the system gave if it failed: a file that was not there is as good as
/// one that is gone now; a failure without an error number is a failure.
pub open spec fn spec_unlink_outcome(result: Result<(), Option<Errno>>) -> Unlinked {
    match result {
        Ok(_) => Unlinked::Done,
        Err(None) => Unlinked::Failed,
        Err(Some(e)) => if is_enoent(e) {
            Unlinked::AlreadyGone
        } else {
            Unlinked::Failed
        },
    }
}

/// Tells how an attempt to unlink a sample file ended, from the error
/// number that the system gave if it failed: a file that was not there is
/// as good as one that is gone now. A failure without an error number is a
/// failure.
pub fn unlink_outcome(result: Result<(), Option<Errno>>) -> (u: Unlinked)
    ensures
        u == spec_unlink_outcome(result),
{
    match result {
        Ok(()) => unlinked(None),
        Err(None) => unlinked(Some(false)),
        Err(Some(e)) => unlinked(Some(errno_is_enoent(e))),
    }
}

/// The number of attempts among `outcomes` that failed.
pub open spec fn spec_count_failed(outcomes: Seq<Unlinked>) -> nat
    decreases outcomes.len(),
{
    if outcomes.len() == 0 {
        0
    } else {
        spec_count_failed(outcomes.drop_last()) + (if outcomes.last() == Unlinked::Failed {
            1nat
        } else {
            0nat
        })
    }
}

/// Counts the attempts to unlink that failed.
pub fn count_failed(outcomes: &[Unlinked]) -> (n: usize)
    ensures
        n == spec_count_failed(outcomes@),
{
    let mut n: usize = 0;
    let mut i: usize = 0;
    assert(outcomes@.take(0) =~= Seq::<Unlinked>::empty());
    while i < outcomes.len()
        invariant
            i <= outcomes@.len(),
            n <= i,
            n == spec_count_failed(outcomes@.take(i as int)),
        decreases outcomes@.len() - i,
    {
        proof {
            assert(outcomes@.take(i + 1).drop_last() =~= outcomes@.take(i as int));
        }
        if outcomes[i] == Unlinked::Failed {
            n = n + 1;
        }
        i = i + 1;
    }
    assert(outcomes@.take(i as int) =~= outcomes@);
    n
}

/// What a round of garbage collection holds: the recordings that are
/// deleted, and how far their files have been dealt with.
pub struct GcView {
    /// The recordings whose files are to be unlinked.
    pub garbage: Seq<CompositeId>,
    /// The number of files, from the first on, that have been dealt with.
    pub attempted: nat,
    /// The number of files among them that could not be unlinked.
    pub failed: nat,
    /// Whether a step that fails is made again, after a sleep, until it
    /// succeeds.
    pub retry: bool,
    /// Whether the directory has been synced since the last file was
    /// unlinked.
    pub synced: bool,
    /// Whether the store has taken note that the files are unlinked.
    pub committed: bool,
    /// Whether the round was given up at a step that failed.
    pub given_up: Option<Error>,
}

/// The next step of a round of garbage collection.
#[derive(Clone, Copy, Debug, PartialEq, Eq, Structural)]
pub enum GcStep {
    /// Unlink the file of this recording.
    Unlink(CompositeId),
    /// Sync the directory.
    SyncDir,
    /// Tell the store that the files of the round's recordings are
    /// unlinked.
    Commit,
    /// Nothing is left to do.
    Done,
    /// The round has failed.
    Failed(Error),
}

/// What follows an attempt at a step.
#[derive(Clone, Copy, Debug, PartialEq, Eq, Structural)]
pub enum AfterAttempt {
    /// Go on with the next step.
    Proceed,
    /// Sleep for this long, then make the same step again.
    SleepThenRetry(Duration),
}

impl GcView {
    /// Whether the state is one that a round can be in: the directory is
    /// synced only once every file is unlinked or was gone already, and the
    /// store is told only once the directory is synced.
    pub open spec fn wf(self) -> bool {
        &&& self.failed <= self.attempted <= self.garbage.len()
        &&& self.retry ==> self.failed == 0 && self.given_up is None
        &&& self.synced ==> self.attempted == self.garbage.len() && self.failed == 0
        &&& self.committed ==> self.synced
    }

    /// The state of a round that is about to start.
    pub open spec fn start(garbage: Seq<CompositeId>, retry: bool) -> GcView {
        GcView {
            garbage,
            attempted: 0,
            failed: 0,
            retry,
            synced: false,
            committed: false,
            given_up: None,
        }
    }

    /// The next step: the files are unlinked one after the other; then the
    /// directory is synced, so that the files stay unlinked; only then the
    /// store is told. A round that has nothing to unlink has nothing to do.
    /// A round that is not to retry fails once all files have been tried,
    /// if one of them could not be unlinked, and at once if another step
    /// fails.
    pub open spec fn step(self) -> GcStep {
        if self.given_up is Some {
            GcStep::Failed(self.given_up->Some_0)
        } else if self.garbage.len() == 0 || self.committed {
            GcStep::Done
        } else if self.attempted < self.garbage.len() {
            GcStep::Unlink(self.garbage[self.attempted as int])
        } else if self.failed > 0 {
            GcStep::Failed(Error::UnlinkFailed { count: self.failed as usize })
        } else if !self.synced {
            GcStep::SyncDir
        } else {
            GcStep::Commit
        }
    }

    /// What follows an attempt that failed, and the state after it, given
    /// the error to fail with where the round is not to retry.
    pub open spec fn after_failure(self, e: Error) -> (GcView, AfterAttempt) {
        if self.retry {
            (self, AfterAttempt::SleepThenRetry(Duration { secs: 1, nanos: 0 }))
        } else {
            (GcView { given_up: Some(e), ..self }, AfterAttempt::Proceed)
        }
    }

    /// The state after an attempt to unlink the file that is next, and what
    /// follows the attempt.
    pub open spec fn after_unlink(self, outcome: Unlinked) -> (GcView, AfterAttempt) {
        if outcome != Unlinked::Failed {
            (GcView { attempted: self.attempted + 1, ..self }, AfterAttempt::Proceed)
        } else if self.retry {
            (self, AfterAttempt::SleepThenRetry(Duration { secs: 1, nanos: 0 }))
        } else {
            (
                GcView { attempted: self.attempted + 1, failed: self.failed + 1, ..self },
                AfterAttempt::Proceed,
            )
        }
    }
}

/// A round of garbage collection: the files of the recordings that were
/// deleted are unlinked, the directory is synced, and the store is told,
/// in this order, so that the store never forgets a file that a crash
/// could bring back.
pub struct GarbageCollection {
    garbage: Vec<CompositeId>,
    attempted: usize,
    failed: usize,
    retry: bool,
    synced: bool,
    committed: bool,
    given_up: Option<Error>,
}

impl View for GarbageCollection {
    type V = GcView;

    closed spec fn view(&self) -> GcView {
        GcView {
            garbage: self.garbage@,
            attempted: self.attempted as nat,
            failed: self.failed as nat,
            retry: self.retry,
            synced: self.synced,
            committed: self.committed,
            given_up: self.given_up,
        }
    }
}

impl GarbageCollection {
    /// A round for the recordings `garbage`. With `retry`, a step that
    /// fails is made again until it succeeds; without, a failure ends the
    /// round.
    pub fn new(garbage: Vec<CompositeId>, retry: bool) -> (gc: GarbageCollection)
        ensures
            gc@ == GcView::start(garbage@, retry),
            gc@.wf(),
    {
        GarbageCollection {
            garbage,
            attempted: 0,
            failed: 0,
            retry,
            synced: false,
            committed: false,
            given_up: None,
        }
    }

    /// The recordings of the round.
    pub fn garbage(&self) -> (g: &Vec<CompositeId>)
        ensures
            g@ == self@.garbage,
    {
        &self.garbage
    }

    /// The next step of the round.
    pub fn step(&self) -> (s: GcStep)
        requires
            self@.wf(),
        ensures
            s == self@.step(),
    {
        match self.given_up {
            Some(e) => {
                return GcStep::Failed(e);
            },
            None => {},
        }
        if self.garbage.len() == 0 || self.committed {
            GcStep::Done
        } else if self.attempted < self.garbage.len() {
            GcStep::Unlink(self.garbage[self.attempted])
        } else if self.failed > 0 {
            GcStep::Failed(Error::UnlinkFailed { count: self.failed })
        } else if !self.synced {
            GcStep::SyncDir
        } else {
            GcStep::Commit
        }
    }

    /// Takes the outcome of the attempt to unlink the file that was next.
    pub fn unlinked(&mut self, outcome: Unlinked) -> (a: AfterAttempt)
        requires
            old(self)@.wf(),
            old(self)@.step() is Unlink,
        ensures
            (final(self)@, a) == old(self)@.after_unlink(outcome),
            final(self)@.wf(),
    {
        assert(self.attempted < self.garbage.len());
        match outcome {
            Unlinked::Failed => {
                if self.retry {
                    return AfterAttempt::SleepThenRetry(Duration::seconds(1));
                }
                self.failed = self.failed + 1;
                self.attempted = self.attempted + 1;
            },
            _ => {
                self.attempted = self.attempted + 1;
            },
        }
        AfterAttempt::Proceed
    }

    /// Takes the outcome of the attempt to sync the directory.
    pub fn dir_synced(&mut self, succeeded: bool) -> (a: AfterAttempt)
        requires
            old(self)@.wf(),
            old(self)@.step() == GcStep::SyncDir,
        ensures
            succeeded ==> final(self)@ == (GcView { synced: true, ..old(self)@ }) && a
                == AfterAttempt::Proceed,
            !succeeded ==> (final(self)@, a) == old(self)@.after_failure(Error::DirSyncFailed),
            final(self)@.wf(),
    {
        if succeeded {
            self.synced = true;
            AfterAttempt::Proceed
        } else if self.retry {
            AfterAttempt::SleepThenRetry(Duration::seconds(1))
        } else {
            self.given_up = Some(Error::DirSyncFailed);
            AfterAttempt::Proceed
        }
    }

    /// Takes the outcome of the attempt to tell the store.
    pub fn committed(&mut self, succeeded: bool) -> (a: AfterAttempt)
        requires
            old(self)@.wf(),
            old(self)@.step() == GcStep::Commit,
        ensures
            succeeded ==> final(self)@ == (GcView { committed: true, ..old(self)@ }) && a
                == AfterAttempt::Proceed,
            !succeeded ==> (final(self)@, a) == old(self)@.after_failure(
                Error::DeleteGarbageFailed,
            ),
            final(self)@.wf(),
    {
        if succeeded {
            self.committed = true;
            AfterAttempt::Proceed
        } else if self.retry {
            AfterAttempt::SleepThenRetry(Duration::seconds(1))
        } else {
            self.given_up = Some(Error::DeleteGarbageFailed);
            AfterAttempt::Proceed
        }
    }
}

/// The store is told that files are unlinked only once each of them has
/// been unlinked or found gone, and the directory has been synced after
/// that; and a round is done only once the store has been told, or where
/// there was nothing to unlink.
pub proof fn lemma_gc_order(gc: GcView)
    requires
        gc.wf(),
    ensures
        gc.step() == GcStep::Commit ==> gc.synced && gc.attempted == gc.garbage.len() && gc.failed
            == 0,
        gc.step() == GcStep::SyncDir ==> gc.attempted == gc.garbage.len() && gc.failed == 0,
        gc.step() == GcStep::Done ==> gc.committed || gc.garbage.len() == 0,
        gc.retry ==> !(gc.step() is Failed),
{
}

/// The next recording id of each of `streams` that keeps its recordings in
/// the directory `dir_id`, by the stream's id.
pub open spec fn spec_streams_to_next(streams: Seq<Stream>, dir_id: i32) -> Map<i32, i32>
    decreases streams.len(),
{
    if streams.len() == 0 {
        Map::empty()
    } else {
        let before = spec_streams_to_next(streams.drop_last(), dir_id);
        let s = streams.last();
        if s.sample_file_dir_id == Some(dir_id) {
            before.insert(s.id, s.next_recording_id)
        } else {
            before
        }
    }
}

/// Maps each stream that keeps its recordings in the directory `dir_id` to
/// the id that its next recording will get.
pub fn streams_to_next(streams: &[Stream], dir_id: i32) -> (m: FnvHashMap<i32, i32>)
    ensures
        m@ == spec_streams_to_next(streams@, dir_id),
{
    let mut m = fnv_map_new();
    let mut i: usize = 0;
    assert(streams@.take(0) =~= Seq::<Stream>::empty());
    while i < streams.len()
        invariant
            i <= streams@.len(),
            m@ == spec_streams_to_next(streams@.take(i as int), dir_id),
        decreases streams@.len() - i,
    {
        proof {
            assert(streams@.take(i + 1).drop_last() =~= streams@.take(i as int));
        }
        let s = streams[i];
        let here = match s.sample_file_dir_id {
            Some(d) => d == dir_id,
            None => false,
        };
        if here {
            fnv_map_insert(&mut m, s.id, s.next_recording_id);
        }
        i = i + 1;
    }
    assert(streams@.take(i as int) =~= streams@);
    m
}

/// The id of the file `name` if the file is abandoned: its name is that of
/// a recording of a stream of `streams_to_next`, with an id that the
/// stream has not given out yet.
pub open spec fn spec_abandoned(name: Seq<u8>, streams_to_next: Map<i32, i32>) -> Option<
    CompositeId,
> {
    match spec_parse_id(name) {
        None => None,
        Some(id) => if streams_to_next.contains_key(id.spec_stream()) && id.spec_recording()
            >= streams_to_next[id.spec_stream()] {
            Some(id)
        } else {
            None
        },
    }
}

/// The ids of the abandoned files among `names`, in the order of `names`.
pub open spec fn spec_files_to_abandon(names: Seq<Vec<u8>>, streams_to_next: Map<i32, i32>) -> Seq<
    CompositeId,
>
    decreases names.len(),
{
    if names.len() == 0 {
        Seq::empty()
    } else {
        let before = spec_files_to_abandon(names.drop_last(), streams_to_next);
        match spec_abandoned(names.last()@, streams_to_next) {
            Some(id) => before.push(id),
            None => before,
        }
    }
}

/// Lists the files of a sample file directory that are to be abandoned,
/// that is deleted though the store never knew them: `names` holds the
/// names of the files in the directory.
///
/// A crash leaves such a file behind where a recording had been begun and
/// not yet committed. Files with other names, and files of streams that
/// are not known, are left alone.
pub fn list_files_to_abandon(names: &[Vec<u8>], streams_to_next: &FnvHashMap<i32, i32>) -> (v: Vec<
    CompositeId,
>)
    ensures
        v@ == spec_files_to_abandon(names@, streams_to_next@),
{
    let mut v: Vec<CompositeId> = Vec::new();
    let mut i: usize = 0;
    assert(names@.take(0) =~= Seq::<Vec<u8>>::empty());
    while i < names.len()
        invariant
            i <= names@.len(),
            v@ == spec_files_to_abandon(names@.take(i as int), streams_to_next@),
        decreases names@.len() - i,
    {
        proof {
            assert(names@.take(i + 1).drop_last() =~= names@.take(i as int));
        }
        match parse_id(names[i].as_slice()) {
            Ok(id) => {
                match fnv_map_get(streams_to_next, id.stream()) {
                    Some(next) => {
                        if id.recording() >= next {
                            v.push(id);
                        }
                    },
                    None => {},
                }
            },
            Err(_) => {},
        }
        i = i + 1;
    }
    assert(names@.take(i as int) =~= names@);
    v
}

/// A flush of the metadata store that is planned.
#[derive(Debug)]
pub struct PlannedFlush<S> {
    /// The moment, by the monotonic clock, at which the flush is due.
    pub when: Timespec,
    /// The recording that calls for the flush. Once it is committed, the
    /// flush is not needed any more.
    pub recording: CompositeId,
    /// Why the flush is made, in words.
    pub reason: String,
    /// What to drop once the flush has fired or is found needless: by this
    /// a caller learns that it is over.
    pub senders: Vec<S>,
}

/// A command to the syncer.
#[derive(Debug)]
pub enum SyncerCommand<F, S> {
    /// The recording has been written to the file, and is to be saved.
    AsyncSaveRecording(CompositeId, recording::Duration, F),
    /// The store has been flushed.
    DatabaseFlushed,
    /// The sender is to be dropped when the next planned flush fires.
    Flush(S),
}

/// What the syncer's worker is to do about a command.
#[derive(Debug)]
pub enum SyncerAction<F> {
    /// Sync the file and the directory, mark the recording as synced, make
    /// room for it, and plan the flush that commits it.
    Save(CompositeId, recording::Duration, F),
    /// Unlink the files of the recordings that were deleted.
    CollectGarbage,
    /// Nothing.
    Continue,
}

/// The state of the worker that syncs one sample file directory.
pub struct Syncer<S> {
    dir_id: i32,
    planned_flushes: Vec<PlannedFlush<S>>,
}

/// Whether the recording of a planned flush is committed already, by the
/// next recording ids of the streams, or belongs to no stream: the flush
/// is then not needed.
pub open spec fn spec_obsolete<S>(f: PlannedFlush<S>, streams_to_next: Map<i32, i32>) -> bool {
    !streams_to_next.contains_key(f.recording.spec_stream()) || streams_to_next[f.recording.spec_stream()]
        > f.recording.spec_recording()
}

/// The planned flushes from the first on that is still needed.
pub open spec fn spec_still_needed<S>(
    planned: Seq<PlannedFlush<S>>,
    streams_to_next: Map<i32, i32>,
) -> Seq<PlannedFlush<S>>
    decreases planned.len(),
{
    if planned.len() == 0 || !spec_obsolete(planned[0], streams_to_next) {
        planned
    } else {
        spec_still_needed(planned.drop_first(), streams_to_next)
    }
}

/// How long a flush planned for a recording is to wait: up to
/// `flush_if_sec` seconds from the start of the recording, which has
/// lasted `duration` already; no time where that is past.
pub open spec fn spec_how_soon_nanos(flush_if_sec: i64, duration: recording::Duration) -> int {
    let wait = flush_if_sec * 1_000_000_000 - duration.0 * 100_000 / 9;
    if wait < 0 {
        0
    } else {
        wait
    }
}

/// The place of a flush due `nanos` nanoseconds after the clock's origin
/// among `planned`: behind all that are due no later.
pub open spec fn spec_place<S>(planned: Seq<PlannedFlush<S>>, nanos: int) -> int
    decreases planned.len(),
{
    if planned.len() == 0 || planned[0].when.nanos() > nanos {
        0
    } else {
        1 + spec_place(planned.drop_first(), nanos)
    }
}

impl<S> Syncer<S> {
    /// The id of the directory that the syncer works for.
    pub closed spec fn dir_id(&self) -> i32 {
        self.dir_id
    }

    /// The flushes that are planned, the soonest first.
    pub closed spec fn planned(&self) -> Seq<PlannedFlush<S>> {
        self.planned_flushes@
    }

    /// Whether the planned flushes are in order of their moments, and the
    /// moments lie within what the arithmetic takes.
    pub open spec fn wf(&self) -> bool {
        &&& forall|i: int, j: int|
            0 <= i <= j < self.planned().len() ==> (#[trigger] self.planned()[i]).when.nanos() <= (
            #[trigger] self.planned()[j]).when.nanos()
        &&& forall|i: int|
            0 <= i < self.planned().len() ==> {
                &&& 0 <= (#[trigger] self.planned()[i]).when.nsec < NANOS_PER_SEC
                &&& -2 * MAX_SECONDS - 1 <= self.planned()[i].when.sec <= 2 * MAX_SECONDS + 1
            }
    }

    /// The syncer of the directory `dir_id`, once the abandoned files have
    /// been unlinked, with the outcomes `abandoned`: a syncer cannot start
    /// with an abandoned file in its directory that it could not unlink.
    pub fn new(dir_id: i32, abandoned: &[Unlinked]) -> (r: Result<Syncer<S>, Error>)
        ensures
            spec_count_failed(abandoned@) > 0 ==> r == Err::<Syncer<S>, Error>(
                Error::UndeletableRecordings { count: spec_count_failed(abandoned@) as usize },
            ),
            spec_count_failed(abandoned@) == 0 ==> r is Ok && r->Ok_0.dir_id() == dir_id
                && r->Ok_0.planned() == Seq::<PlannedFlush<S>>::empty() && r->Ok_0.wf(),
    {
        let undeletable = count_failed(abandoned);
        if undeletable > 0 {
            return Err(Error::UndeletableRecordings { count: undeletable });
        }
        Ok(Syncer { dir_id, planned_flushes: Vec::new() })
    }

    /// The number of flushes that are planned.
    pub fn planned_flushes_len(&self) -> (n: usize)
        ensures
            n == self.planned().len(),
    {
        self.planned_flushes.len()
    }

    /// The moment at which the next planned flush is due, if any is
    /// planned.
    pub fn next_flush(&self) -> (t: Option<Timespec>)
        ensures
            t == (if self.planned().len() == 0 {
                None
            } else {
                Some(self.planned()[0].when)
            }),
    {
        if self.planned_flushes.len() == 0 {
            None
        } else {
            Some(self.planned_flushes[0].when)
        }
    }

    /// How long the worker is to wait for a command at `now` before it
    /// looks at the planned flushes: until the next is due, no time where
    /// that is past, and for ever where none is planned.
    pub fn timeout(&self, now: Timespec) -> (t: Option<Duration>)
        requires
            self.wf(),
            now.wf(),
        ensures
            self.planned().len() == 0 ==> t is None,
            self.planned().len() > 0 ==> t is Some && t->Some_0.nanos() == (if self.planned()[0].when.nanos()
                > now.nanos() {
                self.planned()[0].when.nanos() - now.nanos()
            } else {
                0
            }) && 0 <= t->Some_0.nanos < NANOS_PER_SEC,
    {
        if self.planned_flushes.len() == 0 {
            return None;
        }
        let wait = self.planned_flushes[0].when.since(now);
        if wait.is_negative() {
            Some(Duration::zero())
        } else {
            Some(wait)
        }
    }

    /// Takes a command: tells what the worker is to do about it. A sender
    /// to drop at the next flush goes to the flush that is due first; where
    /// none is planned, it is dropped at once.
    pub fn on_command<F>(&mut self, command: SyncerCommand<F, S>) -> (a: SyncerAction<F>)
        requires
            old(self).wf(),
        ensures
            final(self).wf(),
            final(self).dir_id() == old(self).dir_id(),
            match command {
                SyncerCommand::AsyncSaveRecording(id, duration, f) => a == SyncerAction::Save(
                    id,
                    duration,
                    f,
                ) && final(self).planned() == old(self).planned(),
                SyncerCommand::DatabaseFlushed => a == SyncerAction::<F>::CollectGarbage && final(self).planned() == old(self).planned(),
                SyncerCommand::Flush(sender) => a == SyncerAction::<F>::Continue && final(self).planned().len() == old(self).planned().len() && (old(self).planned().len() > 0
                    ==> {
                    &&& final(self).planned()[0].senders@ == old(self).planned()[0].senders@.push(
                        sender,
                    )
                    &&& final(self).planned()[0].when == old(self).planned()[0].when
                    &&& final(self).planned()[0].recording == old(self).planned()[0].recording
                    &&& final(self).planned()[0].reason == old(self).planned()[0].reason
                    &&& final(self).planned().drop_first() == old(self).planned().drop_first()
                }),
            },
    {
        match command {
            SyncerCommand::AsyncSaveRecording(id, duration, f) => SyncerAction::Save(id, duration, f),
            SyncerCommand::DatabaseFlushed => SyncerAction::CollectGarbage,
            SyncerCommand::Flush(sender) => {
                if self.planned_flushes.len() > 0 {
                    let ghost before = self.planned_flushes@;
                    let mut head = self.planned_flushes.remove(0);
                    head.senders.push(sender);
                    self.planned_flushes.insert(0, head);
                    proof {
                        assert(self.planned_flushes@.drop_first() =~= before.drop_first());
                        assert forall|i: int| 0 <= i < self.planned().len() implies (
                        #[trigger] self.planned()[i]).when == before[i].when by {
                            if i > 0 {
                                assert(self.planned()[i] == self.planned().drop_first()[i - 1]);
                            }
                        }
                    }
                }
                SyncerAction::Continue
            },
        }
    }

    /// Plans the flush that commits the recording `recording`, which has
    /// been saved at `now` and has lasted `duration`: the store is to be
    /// flushed `flush_if_sec` seconds after the start of the recording at
    /// the latest, and at once where that is past.
    pub fn schedule_flush(
        &mut self,
        now: Timespec,
        recording: CompositeId,
        flush_if_sec: i64,
        duration: recording::Duration,
        reason: String,
    )
        requires
            old(self).wf(),
            now.wf(),
            -MAX_SECONDS <= flush_if_sec <= MAX_SECONDS,
            0 <= duration.0,
        ensures
            final(self).wf(),
            final(self).dir_id() == old(self).dir_id(),
            final(self).planned().len() == old(self).planned().len() + 1,
            ({
                let when = now.nanos() + spec_how_soon_nanos(flush_if_sec, duration);
                let place = spec_place(old(self).planned(), when);
                let planned = final(self).planned()[place];
                &&& 0 <= place <= old(self).planned().len()
                &&& planned.when.nanos() == when
                &&& planned.recording == recording
                &&& planned.reason == reason
                &&& planned.senders@ == Seq::<S>::empty()
                &&& final(self).planned().remove(place) == old(self).planned()
            }),
    {
        let wait = Duration::seconds(flush_if_sec).minus(Duration::from_90k(duration.0));
        let how_soon = if wait.is_negative() {
            Duration::zero()
        } else {
            wait
        };
        let when = now.plus(how_soon);
        let ghost before = self.planned();
        let ghost place = spec_place(before, when.nanos());
        self.insert(PlannedFlush { when, recording, reason, senders: Vec::new() });
        proof {
            assert(self.planned().remove(place) =~= before);
        }
    }

    /// Puts a flush among the planned ones, behind all that are due no
    /// later.
    #[verifier::rlimit(40)]
    fn insert(&mut self, flush: PlannedFlush<S>)
        requires
            old(self).wf(),
            0 <= flush.when.nsec < NANOS_PER_SEC,
            -2 * MAX_SECONDS - 1 <= flush.when.sec <= 2 * MAX_SECONDS + 1,
        ensures
            final(self).wf(),
            final(self).dir_id() == old(self).dir_id(),
            final(self).planned() == old(self).planned().insert(
                spec_place(old(self).planned(), flush.when.nanos()),
                flush,
            ),
            0 <= spec_place(old(self).planned(), flush.when.nanos()) <= old(self).planned().len(),
    {
        let mut i: usize = 0;
        let ghost all = self.planned_flushes@;
        assert(all.subrange(0, all.len() as int) =~= all);
        assert forall|j: int| 0 <= j < all.len() implies 0 <= (#[trigger] all[j]).when.nsec
            < NANOS_PER_SEC by {
            assert(all[j] == self.planned()[j]);
        }
        while i < self.planned_flushes.len() && !self.planned_flushes[i].when.is_after(flush.when)
            invariant
                self.planned_flushes@ == all,
                self.wf(),
                i <= all.len(),
                0 <= flush.when.nsec < NANOS_PER_SEC,
                spec_place(all, flush.when.nanos()) == i + spec_place(
                    all.subrange(i as int, all.len() as int),
                    flush.when.nanos(),
                ),
                forall|j: int| 0 <= j < i ==> (#[trigger] all[j]).when.nanos() <= flush.when.nanos(),
                forall|j: int| 0 <= j < all.len() ==> 0 <= (#[trigger] all[j]).when.nsec < NANOS_PER_SEC,
            decreases all.len() - i,
        {
            proof {
                assert(all.subrange(i as int, all.len() as int).drop_first() =~= all.subrange(
                    i + 1,
                    all.len() as int,
                ));
            }
            i = i + 1;
        }
        let ghost when = flush.when;
        proof {
            let rest = all.subrange(i as int, all.len() as int);
            assert(spec_place(rest, when.nanos()) == 0);
            assert forall|j: int| i <= j < all.len() implies (#[trigger] all[j]).when.nanos()
                > when.nanos() by {
                assert(all[i as int].when.nanos() <= all[j].when.nanos());
                assert(rest[0] == all[i as int]);
            }
        }
        self.planned_flushes.insert(i, flush);
        proof {
            let new = self.planned_flushes@;
            assert forall|a: int, b: int| 0 <= a <= b < new.len() implies (#[trigger] new[a]).when.nanos()
                <= (#[trigger] new[b]).when.nanos() by {
                let x = if a < i {
                    all[a]
                } else if a == i {
                    new[a]
                } else {
                    all[a - 1]
                };
                let y = if b < i {
                    all[b]
                } else if b == i {
                    new[b]
                } else {
                    all[b - 1]
                };
                assert(new[a] == x && new[b] == y);
                if a < i && b > i {
                    assert(all[a].when.nanos() <= when.nanos());
                    assert(all[b - 1].when.nanos() > when.nanos());
                }
            }
            assert forall|a: int| 0 <= a < new.len() implies {
                &&& 0 <= (#[trigger] new[a]).when.nsec < NANOS_PER_SEC
                &&& -2 * MAX_SECONDS - 1 <= new[a].when.sec <= 2 * MAX_SECONDS + 1
            } by {
                if a < i {
                    assert(new[a] == all[a]);
                } else if a > i {
                    assert(new[a] == all[a - 1]);
                }
            }
        }
    }

    /// Looks at the planned flushes at `now`, a flush being due or a look
    /// having been asked for: returns the reason for which the store is to
    /// be flushed now, if it is.
    ///
    /// First the flushes are dropped whose recordings are committed
    /// already, as the streams' next recording ids in `streams_to_next`
    /// tell, up to the first that is still needed. The store is to be
    /// flushed if that one is due already.
    pub fn plan_flush(&mut self, now: Timespec, streams_to_next: &FnvHashMap<i32, i32>) -> (r:
        Option<String>)
        requires
            old(self).wf(),
            0 <= now.nsec < NANOS_PER_SEC,
        ensures
            final(self).wf(),
            final(self).dir_id() == old(self).dir_id(),
            final(self).planned() == spec_still_needed(old(self).planned(), streams_to_next@),
            match r {
                Some(reason) => final(self).planned().len() > 0 && final(self).planned()[0].when.nanos()
                    <= now.nanos() && reason@ == final(self).planned()[0].reason@,
                None => final(self).planned().len() == 0 || final(self).planned()[0].when.nanos()
                    > now.nanos(),
            },
    {
        let ghost all = self.planned_flushes@;
        let ghost mut dropped: int = 0;
        assert(all.subrange(0, all.len() as int) =~= all);
        loop
            invariant
                0 <= dropped <= all.len(),
                self.planned_flushes@ == all.subrange(dropped, all.len() as int),
                spec_still_needed(self.planned_flushes@, streams_to_next@) == spec_still_needed(
                    all,
                    streams_to_next@,
                ),
                all == old(self).planned(),
                old(self).wf(),
                self.dir_id == old(self).dir_id,
            ensures
                self.planned_flushes@ == spec_still_needed(all, streams_to_next@),
                0 <= dropped <= all.len(),
                self.planned_flushes@ == all.subrange(dropped, all.len() as int),
                self.dir_id == old(self).dir_id,
            decreases all.len() - dropped,
        {
            if self.planned_flushes.len() == 0 {
                break ;
            }
            let id = self.planned_flushes[0].recording;
            let obsolete = match fnv_map_get(streams_to_next, id.stream()) {
                None => true,
                Some(next) => next > id.recording(),
            };
            if !obsolete {
                break ;
            }
            let ghost before = self.planned_flushes@;
            self.planned_flushes.remove(0);
            proof {
                assert(self.planned_flushes@ =~= before.drop_first());
                assert(self.planned_flushes@ =~= all.subrange(dropped + 1, all.len() as int));
                dropped = dropped + 1;
            }
        }
        proof {
            assert forall|i: int| 0 <= i < self.planned().len() implies self.planned()[i] == all[dropped
                + i] by {}
        }
        if self.planned_flushes.len() == 0 {
            return None;
        }
        if self.planned_flushes[0].when.is_after(now) {
            return None;
        }
        Some(self.planned_flushes[0].reason.clone())
    }

    /// Takes the outcome of the flush that `plan_flush` asked for. A flush
    /// that succeeded has committed all that was planned: nothing is
    /// planned any more. After one that failed, the flush that was due is
    /// put off by a minute from `now`.
    pub fn flush_done(&mut self, succeeded: bool, now: Timespec)
        requires
            old(self).wf(),
            now.wf(),
        ensures
            final(self).wf(),
            final(self).dir_id() == old(self).dir_id(),
            succeeded || old(self).planned().len() == 0 ==> final(self).planned() == Seq::<
                PlannedFlush<S>,
            >::empty(),
            !succeeded && old(self).planned().len() > 0 ==> ({
                let rest = old(self).planned().drop_first();
                let place = spec_place(rest, now.nanos() + 60_000_000_000);
                &&& final(self).planned().len() == old(self).planned().len()
                &&& final(self).planned().remove(place) == rest
                &&& final(self).planned()[place].when == (Timespec {
                    sec: (now.sec + 60) as i64,
                    nsec: now.nsec,
                })
                &&& final(self).planned()[place].recording == old(self).planned()[0].recording
                &&& final(self).planned()[place].reason == old(self).planned()[0].reason
                &&& final(self).planned()[place].senders == old(self).planned()[0].senders
            }),
    {
        if succeeded || self.planned_flushes.len() == 0 {
            self.planned_flushes.clear();
            return ;
        }
        let ghost before = self.planned_flushes@;
        let mut head = self.planned_flushes.remove(0);
        proof {
            assert(self.planned_flushes@ =~= before.drop_first());
            assert forall|i: int| 0 <= i < self.planned().len() implies self.planned()[i] == before[i
                + 1] by {}
        }
        head.when = now.plus(Duration::minutes(1));
        let ghost place = spec_place(self.planned(), head.when.nanos());
        let ghost rest = self.planned();
        self.insert(head);
        proof {
            assert(self.planned().remove(place) =~= rest);
        }
    }
}

} // verus!
