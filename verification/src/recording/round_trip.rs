//! Decoding a sample index gives back what was encoded.

use crate::coding::{
    lemma_varint_len, lemma_varint_round_trip, spec_unzigzag32, spec_varint32, spec_zigzag32,
};
use crate::recording::{
    encodable, sample_encodable, spec_decode, spec_decode_from, spec_encode, spec_encode_sample, spec_first_varint,
    spec_iterate, spec_next, spec_second_varint, total_bytes, total_duration, EncState, IterState,
    Sample,
};
use vstd::prelude::*;

verus! {

/// The state that an iterator is in after it has read the first `k` of
/// `samples` from their index, but for the two running sums.
pub open spec fn tracks(st: IterState, samples: Seq<Sample>, k: int) -> bool {
    let es = EncState::initial().after_all(samples.take(k));
    &&& st.i == spec_encode(samples.take(k)).len()
    &&& st.duration_90k == es.prev_duration_90k
    &&& st.prev_bytes_key() == es.prev_bytes_key
    &&& st.prev_bytes_nonkey() == es.prev_bytes_nonkey
    &&& k > 0 ==> st.sample() == samples[k - 1]
    &&& k == 0 ==> st == IterState::initial()
}

proof fn lemma_take_step(samples: Seq<Sample>, k: int)
    requires
        0 <= k < samples.len(),
    ensures
        samples.take(k + 1).drop_last() == samples.take(k),
        samples.take(k + 1).last() == samples[k],
        spec_encode(samples.take(k + 1)) == spec_encode(samples.take(k)) + spec_encode_sample(
            EncState::initial().after_all(samples.take(k)),
            samples[k],
        ),
        EncState::initial().after_all(samples.take(k + 1)) == EncState::initial().after_all(
            samples.take(k),
        ).after(samples[k]),
        total_bytes(samples.take(k + 1)) == total_bytes(samples.take(k)) + samples[k].bytes,
        total_duration(samples.take(k + 1)) == total_duration(samples.take(k))
            + samples[k].duration_90k,
{
    assert(samples.take(k + 1).drop_last() =~= samples.take(k));
}

proof fn lemma_enc_state(samples: Seq<Sample>, k: int)
    requires
        encodable(samples),
        0 <= k <= samples.len(),
    ensures
        ({
            let es = EncState::initial().after_all(samples.take(k));
            &&& es.prev_bytes_key >= 0
            &&& es.prev_bytes_nonkey >= 0
            &&& es.prev_duration_90k == (if k == 0 {
                0
            } else {
                samples[k - 1].duration_90k
            })
        }),
    decreases k,
{
    if k > 0 {
        lemma_enc_state(samples, k - 1);
        lemma_take_step(samples, k - 1);
        assert(sample_encodable(samples, k - 1));
    } else {
        assert(samples.take(0).len() == 0);
    }
}

proof fn lemma_encode_prefix(samples: Seq<Sample>, k: int, m: int)
    requires
        0 <= k <= m <= samples.len(),
    ensures
        spec_encode(samples.take(k)).len() <= spec_encode(samples.take(m)).len(),
        spec_encode(samples.take(m)).subrange(0, spec_encode(samples.take(k)).len() as int)
            == spec_encode(samples.take(k)),
    decreases m - k,
{
    if k < m {
        lemma_encode_prefix(samples, k, m - 1);
        lemma_take_step(samples, m - 1);
        let a = spec_encode(samples.take(k));
        let b = spec_encode(samples.take(m - 1));
        let c = spec_encode(samples.take(m));
        assert(c.subrange(0, a.len() as int) =~= b.subrange(0, a.len() as int));
    } else {
        let a = spec_encode(samples.take(k));
        assert(a.subrange(0, a.len() as int) =~= a);
    }
}

/// The bytes of the sample `k` stand in the index where the bytes of the
/// samples before it end.
proof fn lemma_sample_bytes_at(samples: Seq<Sample>, k: int)
    requires
        0 <= k < samples.len(),
    ensures
        ({
            let data = spec_encode(samples);
            let from = spec_encode(samples.take(k)).len() as int;
            let to = spec_encode(samples.take(k + 1)).len() as int;
            &&& from <= to <= data.len()
            &&& data.subrange(from, to) == spec_encode_sample(
                EncState::initial().after_all(samples.take(k)),
                samples[k],
            )
            &&& (k == samples.len() - 1 ==> to == data.len())
        }),
{
    let n = samples.len() as int;
    assert(samples.take(n) =~= samples);
    lemma_encode_prefix(samples, k + 1, n);
    lemma_take_step(samples, k);
    let data = spec_encode(samples);
    let a = spec_encode(samples.take(k));
    let c = spec_encode(samples.take(k + 1));
    let e = spec_encode_sample(EncState::initial().after_all(samples.take(k)), samples[k]);
    assert(c == a + e);
    assert(data.subrange(0, c.len() as int) == c);
    assert(data.subrange(a.len() as int, c.len() as int) =~= e) by {
        assert forall|j: int| 0 <= j < e.len() implies data.subrange(
            a.len() as int,
            c.len() as int,
        )[j] == e[j] by {
            assert(data[a.len() + j] == data.subrange(0, c.len() as int)[a.len() + j]);
        }
    }
}

/// One step of an iterator that stands where the bytes of `s` begin, and
/// that holds what the encoder held when it wrote them, reads `s`.
proof fn lemma_next_reads_sample(st: IterState, es: EncState, s: Sample, data: Seq<u8>)
    requires
        st.i >= 0,
        st.i + spec_encode_sample(es, s).len() <= data.len(),
        data.subrange(st.i, st.i + spec_encode_sample(es, s).len()) == spec_encode_sample(es, s),
        st.duration_90k == es.prev_duration_90k,
        st.prev_bytes_key() == es.prev_bytes_key,
        st.prev_bytes_nonkey() == es.prev_bytes_nonkey,
        es.prev_bytes_key >= 0,
        es.prev_bytes_nonkey >= 0,
        s.bytes > 0,
        s.duration_90k >= 0,
        -0x4000_0000 <= s.duration_90k - es.prev_duration_90k < 0x4000_0000,
        s.duration_90k == 0 ==> st.i + spec_encode_sample(es, s).len() == data.len(),
    ensures
        spec_next(st, data) == (
            IterState {
                i: st.i + spec_encode_sample(es, s).len(),
                is_key: s.is_key,
                pos: st.advanced().pos,
                start_90k: st.advanced().start_90k,
                duration_90k: s.duration_90k,
                bytes: s.bytes,
                bytes_other: es.prev_bytes(!s.is_key),
            },
            Ok::<bool, crate::error::Error>(true),
        ),
{
    reveal(spec_next);
    let v1 = spec_first_varint(es, s);
    let v2 = spec_second_varint(es, s);
    let e1 = spec_varint32(v1);
    let e2 = spec_varint32(v2);
    let e = spec_encode_sample(es, s);
    lemma_varint_len(v1);
    lemma_varint_len(v2);
    assert(e == e1 + e2);
    let i1 = st.i + e1.len();
    let i2 = i1 + e2.len();
    assert(data.subrange(st.i, i1) =~= e1) by {
        assert forall|j: int| 0 <= j < e1.len() implies data.subrange(st.i, i1)[j] == e1[j] by {
            assert(data[st.i + j] == data.subrange(st.i, st.i + e.len())[j]);
        }
    }
    assert(data.subrange(i1, i2) =~= e2) by {
        assert forall|j: int| 0 <= j < e2.len() implies data.subrange(i1, i2)[j] == e2[j] by {
            assert(data[i1 + j] == data.subrange(st.i, st.i + e.len())[e1.len() + j]);
        }
    }
    lemma_varint_round_trip(data, st.i, v1);
    lemma_varint_round_trip(data, i1, v2);
    let dd = (s.duration_90k - es.prev_duration_90k) as i32;
    let zz = spec_zigzag32(dd);
    assert(zz < 0x8000_0000);
    let key: int = if s.is_key {
        1
    } else {
        0
    };
    assert(v1 == 2 * zz + key);
    assert(v1 / 2 == zz && v1 % 2 == key);
    assert(spec_unzigzag32(zz) == dd);
    let bd = (s.bytes - es.prev_bytes(s.is_key)) as i32;
    assert(spec_unzigzag32(v2) == bd);
}

/// At the end of the index a step leaves the last sample behind and
/// reports the end.
pub proof fn lemma_next_at_end(st: IterState, data: Seq<u8>)
    requires
        st.i == data.len(),
    ensures
        spec_next(st, data) == (st.advanced(), Ok::<bool, crate::error::Error>(false)),
{
    reveal(spec_next);
}

/// An iterator reads from the index of `samples`, step by step, the samples
/// themselves; and where the sums of the lengths and of the durations fit
/// in 32 bits, it gives for each sample the sum of the lengths and the sum
/// of the durations of the samples before it.
pub proof fn lemma_iterate_encoded(samples: Seq<Sample>, k: int)
    requires
        encodable(samples),
        0 <= k <= samples.len(),
    ensures
        tracks(spec_iterate(spec_encode(samples), k as nat), samples, k),
        k > 0 ==> spec_next(
            spec_iterate(spec_encode(samples), (k - 1) as nat),
            spec_encode(samples),
        ).1 == Ok::<bool, crate::error::Error>(true),
        k > 0 && total_bytes(samples) <= i32::MAX && total_duration(samples) <= i32::MAX ==> {
            &&& spec_iterate(spec_encode(samples), k as nat).pos == total_bytes(
                samples.take(k - 1),
            )
            &&& spec_iterate(spec_encode(samples), k as nat).start_90k == total_duration(
                samples.take(k - 1),
            )
        },
    decreases k,
{
    let data = spec_encode(samples);
    if k == 0 {
        assert(samples.take(0).len() == 0);
    } else {
        lemma_iterate_encoded(samples, k - 1);
        let st = spec_iterate(data, (k - 1) as nat);
        let es = EncState::initial().after_all(samples.take(k - 1));
        let s = samples[k - 1];
        assert(sample_encodable(samples, k - 1));
        lemma_enc_state(samples, k - 1);
        lemma_take_step(samples, k - 1);
        lemma_sample_bytes_at(samples, k - 1);
        lemma_next_reads_sample(st, es, s, data);
        if total_bytes(samples) <= i32::MAX && total_duration(samples) <= i32::MAX {
            lemma_totals_monotonic(samples, k - 1);
            lemma_totals_monotonic(samples, k);
            if k > 1 {
                lemma_take_step(samples, k - 2);
            } else {
                assert(samples.take(0).len() == 0);
            }
        }
    }
}

proof fn lemma_totals_monotonic(samples: Seq<Sample>, k: int)
    requires
        encodable(samples),
        0 <= k <= samples.len(),
    ensures
        0 <= total_bytes(samples.take(k)) <= total_bytes(samples),
        0 <= total_duration(samples.take(k)) <= total_duration(samples),
    decreases samples.len() - k,
{
    if k < samples.len() {
        lemma_totals_monotonic(samples, k + 1);
        lemma_take_step(samples, k);
        lemma_totals_nonnegative(samples, k);
        assert(sample_encodable(samples, k));
    } else {
        assert(samples.take(k) =~= samples);
        lemma_totals_nonnegative(samples, k);
    }
}

proof fn lemma_totals_nonnegative(samples: Seq<Sample>, k: int)
    requires
        encodable(samples),
        0 <= k <= samples.len(),
    ensures
        0 <= total_bytes(samples.take(k)),
        0 <= total_duration(samples.take(k)),
    decreases k,
{
    if k > 0 {
        lemma_totals_nonnegative(samples, k - 1);
        lemma_take_step(samples, k - 1);
        assert(sample_encodable(samples, k - 1));
    } else {
        assert(samples.take(0).len() == 0);
    }
}

proof fn lemma_step_facts(samples: Seq<Sample>, k: int)
    requires
        encodable(samples),
        0 <= k <= samples.len(),
    ensures
        ({
            let data = spec_encode(samples);
            let st = spec_iterate(data, k as nat);
            let st2 = spec_iterate(data, (k + 1) as nat);
            &&& st2 == spec_next(st, data).0
            &&& k < samples.len() ==> {
                &&& spec_next(st, data).1 == Ok::<bool, crate::error::Error>(true)
                &&& st.i < st2.i <= data.len()
                &&& st2.sample() == samples[k]
            }
            &&& k == samples.len() ==> spec_next(st, data).1 == Ok::<bool, crate::error::Error>(
                false,
            )
        }),
{
    let data = spec_encode(samples);
    let n = samples.len() as int;
    let st = spec_iterate(data, k as nat);
    lemma_iterate_encoded(samples, k);
    if k == n {
        assert(samples.take(n) =~= samples);
        lemma_next_at_end(st, data);
    } else {
        lemma_iterate_encoded(samples, k + 1);
        lemma_sample_bytes_at(samples, k);
        lemma_take_step(samples, k);
        let es = EncState::initial().after_all(samples.take(k));
        lemma_varint_len(spec_first_varint(es, samples[k]));
        assert(spec_encode_sample(es, samples[k]).len() >= 1);
    }
}

proof fn lemma_decode_rest(samples: Seq<Sample>, k: int)
    requires
        encodable(samples),
        0 <= k <= samples.len(),
    ensures
        spec_decode_from(spec_iterate(spec_encode(samples), k as nat), spec_encode(samples)) == Ok::<
            Seq<Sample>,
            crate::error::Error,
        >(samples.subrange(k, samples.len() as int)),
    decreases samples.len() - k,
{
    let data = spec_encode(samples);
    let n = samples.len() as int;
    lemma_step_facts(samples, k);
    if k == n {
        assert(samples.subrange(k, n) =~= Seq::<Sample>::empty());
    } else {
        lemma_decode_rest(samples, k + 1);
        assert(samples.subrange(k, n) =~= seq![samples[k]] + samples.subrange(k + 1, n));
    }
}

/// Whether the row `r` is that of a recording with the samples `samples`:
/// its index is theirs, and so are its length, its duration and its
/// counts.
pub open spec fn recording_holds(r: crate::db::RecordingView, samples: Seq<Sample>) -> bool {
    &&& r.video_index == spec_encode(samples)
    &&& r.sample_file_bytes == total_bytes(samples)
    &&& r.duration_90k == total_duration(samples)
    &&& r.video_samples == samples.len()
    &&& r.video_sync_samples == crate::recording::count_keys(samples)
}

/// A row stays the row of its samples as samples are added to it: the
/// length of the file is the sum of the lengths in the index, the number
/// of samples is the number of entries of the index, and the number of key
/// frames is the number of entries flagged as such.
pub proof fn lemma_add_sample_keeps_row(
    r: crate::db::RecordingView,
    samples: Seq<Sample>,
    s: Sample,
)
    requires
        recording_holds(r, samples),
        r.sample_file_bytes + s.bytes <= i32::MAX,
        i32::MIN <= r.duration_90k + s.duration_90k <= i32::MAX,
        s.bytes >= 0,
        r.video_samples < i32::MAX,
    ensures
        recording_holds(
            r.with_sample(EncState::initial().after_all(samples), s),
            samples.push(s),
        ),
        EncState::initial().after_all(samples.push(s)) == EncState::initial().after_all(
            samples,
        ).after(s),
{
    let all = samples.push(s);
    assert(all.drop_last() =~= samples);
    lemma_count_keys_bound(samples);
}

proof fn lemma_count_keys_bound(samples: Seq<Sample>)
    ensures
        0 <= crate::recording::count_keys(samples) <= samples.len(),
    decreases samples.len(),
{
    if samples.len() > 0 {
        lemma_count_keys_bound(samples.drop_last());
    }
}

/// The index grows with each sample.
pub proof fn lemma_encode_len_monotonic(samples: Seq<Sample>, k: int)
    requires
        0 <= k <= samples.len(),
    ensures
        spec_encode(samples.take(k)).len() <= spec_encode(samples).len(),
{
    assert(samples.take(samples.len() as int) =~= samples);
    lemma_encode_prefix(samples, k, samples.len() as int);
}

/// The sums of an encodable sequence are not negative.
pub proof fn lemma_totals(samples: Seq<Sample>)
    requires
        encodable(samples),
    ensures
        0 <= total_bytes(samples),
        0 <= total_duration(samples),
{
    lemma_totals_monotonic(samples, 0);
}

/// Decoding the index of `samples` gives `samples` back.
pub proof fn lemma_round_trip(samples: Seq<Sample>)
    requires
        encodable(samples),
    ensures
        spec_decode(spec_encode(samples)) == Ok::<Seq<Sample>, crate::error::Error>(samples),
{
    lemma_decode_rest(samples, 0);
    assert(samples.subrange(0, samples.len() as int) =~= samples);
}

/// On the index of `samples`, an iterator that has taken `k` steps stands at
/// the sample `k - 1`, and reports as its position in the file the sum of
/// the lengths of the samples before it, and as its start the sum of their
/// durations.
pub proof fn lemma_iterator_positions(samples: Seq<Sample>, k: int)
    requires
        encodable(samples),
        total_bytes(samples) <= i32::MAX,
        total_duration(samples) <= i32::MAX,
        1 <= k <= samples.len(),
    ensures
        spec_iterate(spec_encode(samples), k as nat).sample() == samples[k - 1],
        spec_iterate(spec_encode(samples), k as nat).pos == total_bytes(samples.take(k - 1)),
        spec_iterate(spec_encode(samples), k as nat).start_90k == total_duration(
            samples.take(k - 1),
        ),
{
    lemma_iterate_encoded(samples, k);
}

} // verus!
