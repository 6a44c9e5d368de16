//! Keeping each stream within its budget of bytes: which of its oldest
//! recordings have to go.

use crate::db::Stream;
use crate::error::Error;
use vstd::prelude::*;

verus! {

/// The largest number of bytes, either way, that the arithmetic of this
/// module takes in one figure: 2^60.
pub const MAX_BYTES: i64 = 0x1000_0000_0000_0000;

/// `bytes` rounded up to a multiple of `block`.
pub open spec fn spec_round_up(bytes: int, block: int) -> int {
    (bytes + block - 1) / block * block
}

/// Rounds the size of a file up to a multiple of the block size of the
/// filesystem: to what the file takes there.
pub fn round_up(bytes: i64, block: i64) -> (r: i64)
    requires
        0 <= bytes <= MAX_BYTES,
        0 < block <= MAX_BYTES,
    ensures
        r == spec_round_up(bytes as int, block as int),
        bytes <= r < bytes + block,
        r % block == 0,
{
    let blocks = (bytes + block - 1) / block;
    assert(bytes <= blocks * block < bytes + block && (blocks * block) % (block as int) == 0)
        by (nonlinear_arith)
        requires
            blocks == (bytes + block - 1) / (block as int),
            0 <= bytes,
            0 < block,
    ;
    blocks * block
}

/// Whether the figures of a stream lie within what the arithmetic takes.
pub open spec fn stream_fits(s: Stream) -> bool {
    &&& -MAX_BYTES <= s.retain_bytes <= MAX_BYTES
    &&& -MAX_BYTES <= s.fs_bytes <= MAX_BYTES
    &&& -MAX_BYTES <= s.fs_bytes_to_add <= MAX_BYTES
    &&& -MAX_BYTES <= s.fs_bytes_to_delete <= MAX_BYTES
}

/// The bytes that a stream takes on the filesystem once the store is
/// flushed: those committed, with those to add, without those to delete.
pub open spec fn spec_fs_bytes_after_flush(s: Stream) -> int {
    s.fs_bytes + s.fs_bytes_to_add - s.fs_bytes_to_delete
}

/// The bytes by which a stream is over its budget when `extra` more bytes
/// are needed.
pub open spec fn spec_bytes_needed(s: Stream, extra: int) -> int {
    spec_fs_bytes_after_flush(s) + extra - s.retain_bytes
}

/// The number of recordings to delete, from the oldest on, to free `need`
/// bytes, where `freed` have been freed already: recordings go, each with
/// what it takes on the filesystem, until what is freed reaches `need`,
/// or no recording is left.
pub open spec fn spec_count_to_delete(sizes: Seq<i32>, block: int, need: int, freed: int) -> nat
    decreases sizes.len(),
{
    if sizes.len() == 0 || freed >= need {
        0
    } else {
        1 + spec_count_to_delete(
            sizes.drop_first(),
            block,
            need,
            freed + spec_round_up(sizes[0] as int, block),
        )
    }
}

/// The bytes that the first `n` of `sizes` take on the filesystem.
pub open spec fn spec_fs_bytes(sizes: Seq<i32>, block: int, n: nat) -> int
    decreases n,
{
    if n == 0 || sizes.len() == 0 {
        0
    } else {
        spec_round_up(sizes[0] as int, block) + spec_fs_bytes(
            sizes.drop_first(),
            block,
            (n - 1) as nat,
        )
    }
}

/// What a pass of deletion over one stream comes to.
#[derive(Clone, Copy, Debug, PartialEq, Eq, Structural)]
pub struct Deletion {
    /// The number of recordings to delete, from the oldest on.
    pub recordings: usize,
    /// The bytes that they take on the filesystem.
    pub fs_bytes: i64,
}

/// Selects the recordings to delete to bring a stream within its budget
/// when `extra_bytes_needed` more bytes are needed: `sample_file_bytes`
/// holds the lengths of the stream's recordings, the oldest first.
///
/// Nothing goes while the stream is within its budget.
pub fn delete_recordings(
    stream: &Stream,
    extra_bytes_needed: i64,
    sample_file_bytes: &[i32],
    block: i64,
) -> (d: Deletion)
    requires
        stream_fits(*stream),
        -MAX_BYTES <= extra_bytes_needed <= MAX_BYTES,
        0 < block <= MAX_BYTES,
        forall|i: int| 0 <= i < sample_file_bytes@.len() ==> sample_file_bytes@[i] >= 0,
    ensures
        d.recordings == spec_count_to_delete(
            sample_file_bytes@,
            block as int,
            spec_bytes_needed(*stream, extra_bytes_needed as int),
            0,
        ),
        d.fs_bytes == spec_fs_bytes(sample_file_bytes@, block as int, d.recordings as nat),
        d.recordings <= sample_file_bytes@.len(),
        spec_bytes_needed(*stream, extra_bytes_needed as int) <= 0 ==> d.recordings == 0,
        d.recordings < sample_file_bytes@.len() ==> d.fs_bytes >= spec_bytes_needed(
            *stream,
            extra_bytes_needed as int,
        ),
{
    let fs_bytes_needed = stream.fs_bytes + stream.fs_bytes_to_add - stream.fs_bytes_to_delete
        + extra_bytes_needed - stream.retain_bytes;
    let mut fs_bytes_to_delete: i64 = 0;
    let mut n: usize = 0;
    let ghost all = sample_file_bytes@;
    let ghost b = block as int;
    let ghost need = fs_bytes_needed as int;
    assert(all.subrange(0, all.len() as int) =~= all);
    while n < sample_file_bytes.len() && fs_bytes_to_delete < fs_bytes_needed
        invariant
            all == sample_file_bytes@,
            b == block,
            need == fs_bytes_needed,
            0 < block <= MAX_BYTES,
            -5 * MAX_BYTES <= fs_bytes_needed <= 5 * MAX_BYTES,
            n <= all.len(),
            0 <= fs_bytes_to_delete,
            fs_bytes_to_delete <= 7 * MAX_BYTES,
            forall|i: int| 0 <= i < all.len() ==> all[i] >= 0,
            spec_count_to_delete(all, b, need, 0) == n + spec_count_to_delete(
                all.subrange(n as int, all.len() as int),
                b,
                need,
                fs_bytes_to_delete as int,
            ),
            forall|m: nat|
                m >= n ==> #[trigger] spec_fs_bytes(all, b, m) == fs_bytes_to_delete + spec_fs_bytes(
                    all.subrange(n as int, all.len() as int),
                    b,
                    (m - n) as nat,
                ),
        decreases all.len() - n,
    {
        let size = round_up(sample_file_bytes[n] as i64, block);
        proof {
            let rest = all.subrange(n as int, all.len() as int);
            assert(rest.drop_first() =~= all.subrange(n + 1, all.len() as int));
            assert(rest[0] == all[n as int]);
            assert forall|m: nat| m >= n + 1 implies #[trigger] spec_fs_bytes(all, b, m)
                == fs_bytes_to_delete + size + spec_fs_bytes(
                all.subrange(n + 1, all.len() as int),
                b,
                (m - (n + 1)) as nat,
            ) by {
                assert(spec_fs_bytes(all, b, m) == fs_bytes_to_delete + spec_fs_bytes(
                    rest,
                    b,
                    (m - n) as nat,
                ));
            }
        }
        fs_bytes_to_delete = fs_bytes_to_delete + size;
        n = n + 1;
    }
    proof {
        let rest = all.subrange(n as int, all.len() as int);
        assert(spec_fs_bytes(all, b, n as nat) == fs_bytes_to_delete + spec_fs_bytes(rest, b, 0));
    }
    Deletion { recordings: n, fs_bytes: fs_bytes_to_delete }
}

/// A new, lower limit for the bytes of a stream's recordings.
#[derive(Clone, Copy, Debug)]
pub struct NewLimit {
    pub stream_id: i32,
    pub limit: i64,
}

/// The extra bytes that a stream has to free to come within a new limit,
/// `None` where it is within the limit as it is.
pub open spec fn spec_extra_for_limit(s: Stream, limit: i64) -> Option<i64> {
    if limit >= spec_fs_bytes_after_flush(s) {
        None
    } else {
        Some((s.retain_bytes - limit) as i64)
    }
}

/// The index in `streams` of the first stream with the id `id`.
pub open spec fn spec_find_stream(streams: Seq<Stream>, id: i32) -> Option<int>
    decreases streams.len(),
{
    if streams.len() == 0 {
        None
    } else {
        match spec_find_stream(streams.drop_last(), id) {
            Some(i) => Some(i),
            None => if streams.last().id == id {
                Some(streams.len() - 1)
            } else {
                None
            },
        }
    }
}

/// Finds the stream with the id `id`.
pub fn find_stream(streams: &[Stream], id: i32) -> (r: Option<usize>)
    ensures
        match spec_find_stream(streams@, id) {
            Some(i) => r == Some(i as usize) && 0 <= i < streams@.len() && streams@[i].id == id,
            None => r is None,
        },
{
    let mut i: usize = 0;
    assert(streams@.take(0) =~= Seq::<Stream>::empty());
    while i < streams.len()
        invariant
            i <= streams@.len(),
            spec_find_stream(streams@.take(i as int), id) is None,
        decreases streams@.len() - i,
    {
        proof {
            assert(streams@.take(i + 1).drop_last() =~= streams@.take(i as int));
        }
        if streams[i].id == id {
            proof {
                lemma_find_stream_extends(streams@, id, i + 1);
            }
            return Some(i);
        }
        i = i + 1;
    }
    assert(streams@.take(i as int) =~= streams@);
    None
}

proof fn lemma_find_stream_extends(streams: Seq<Stream>, id: i32, k: int)
    requires
        0 <= k <= streams.len(),
        spec_find_stream(streams.take(k), id) is Some,
    ensures
        spec_find_stream(streams, id) == spec_find_stream(streams.take(k), id),
    decreases streams.len() - k,
{
    if k < streams.len() {
        assert(streams.take(k + 1).drop_last() =~= streams.take(k));
        lemma_find_stream_extends(streams, id, k + 1);
    } else {
        assert(streams.take(k) =~= streams);
    }
}

/// What the new limits ask of their streams, one after the other: for each
/// stream that is over its new limit, its id and the extra bytes that it
/// has to free. The first limit that names no stream ends the list.
pub open spec fn spec_lower_retention(streams: Seq<Stream>, limits: Seq<NewLimit>) -> Result<
    Seq<(i32, i64)>,
    Error,
>
    decreases limits.len(),
{
    if limits.len() == 0 {
        Ok(Seq::empty())
    } else {
        match spec_lower_retention(streams, limits.drop_last()) {
            Err(e) => Err(e),
            Ok(plan) => {
                let l = limits.last();
                match spec_find_stream(streams, l.stream_id) {
                    None => Err(Error::NoSuchStream { stream_id: l.stream_id }),
                    Some(i) => match spec_extra_for_limit(streams[i], l.limit) {
                        None => Ok(plan),
                        Some(extra) => Ok(plan.push((l.stream_id, extra))),
                    },
                }
            },
        }
    }
}

/// Plans the deletions that bring streams within new, lower limits: for
/// each stream that is over its new limit, its id and the extra bytes to
/// ask of [`delete_recordings`]. The limits in the store are not changed.
/// A limit of 0 asks for all recordings of its stream.
pub fn lower_retention(streams: &[Stream], limits: &[NewLimit]) -> (r: Result<
    Vec<(i32, i64)>,
    Error,
>)
    requires
        forall|i: int| 0 <= i < streams@.len() ==> stream_fits(#[trigger] streams@[i]),
        forall|i: int|
            0 <= i < limits@.len() ==> -MAX_BYTES <= (#[trigger] limits@[i]).limit <= MAX_BYTES,
    ensures
        match spec_lower_retention(streams@, limits@) {
            Ok(plan) => r is Ok && r->Ok_0@ == plan,
            Err(e) => r == Err::<Vec<(i32, i64)>, Error>(e),
        },
{
    let mut plan: Vec<(i32, i64)> = Vec::new();
    let mut k: usize = 0;
    assert(limits@.take(0) =~= Seq::<NewLimit>::empty());
    while k < limits.len()
        invariant
            k <= limits@.len(),
            forall|i: int| 0 <= i < streams@.len() ==> stream_fits(#[trigger] streams@[i]),
            forall|i: int|
                0 <= i < limits@.len() ==> -MAX_BYTES <= (#[trigger] limits@[i]).limit
                    <= MAX_BYTES,
            spec_lower_retention(streams@, limits@.take(k as int)) == Ok::<Seq<(i32, i64)>, Error>(
                plan@,
            ),
        decreases limits@.len() - k,
    {
        let l = limits[k];
        proof {
            assert(limits@.take(k + 1).drop_last() =~= limits@.take(k as int));
            assert(limits@.take(k + 1).last() == l);
        }
        let i = match find_stream(streams, l.stream_id) {
            Some(i) => i,
            None => {
                proof {
                    lemma_lower_retention_fails(streams@, limits@, k + 1);
                }
                return Err(Error::NoSuchStream { stream_id: l.stream_id });
            },
        };
        let stream = streams[i];
        let fs_bytes_before = stream.fs_bytes + stream.fs_bytes_to_add - stream.fs_bytes_to_delete;
        if l.limit < fs_bytes_before {
            plan.push((l.stream_id, stream.retain_bytes - l.limit));
        }
        k = k + 1;
    }
    assert(limits@.take(k as int) =~= limits@);
    Ok(plan)
}

proof fn lemma_lower_retention_fails(streams: Seq<Stream>, limits: Seq<NewLimit>, k: int)
    requires
        0 <= k <= limits.len(),
        spec_lower_retention(streams, limits.take(k)) is Err,
    ensures
        spec_lower_retention(streams, limits) == spec_lower_retention(streams, limits.take(k)),
    decreases limits.len() - k,
{
    if k < limits.len() {
        assert(limits.take(k + 1).drop_last() =~= limits.take(k));
        lemma_lower_retention_fails(streams, limits, k + 1);
    } else {
        assert(limits.take(k) =~= limits);
    }
}

} // verus!
