//! What holds of every notification stream.

use crate::buffer::bytes_contents;
use crate::notification::{
    due_deliveries, due_for_stream, find_handle, sample_at, stamp_at, stream_limit, walk_samples,
    walk_stamps, walk_stream, Deliveries, Delivery, DeliveryView, NotHandle, SampleSpan, StreamEnd,
    Walk, LEN_NOT_SAMPLE_MIN, LEN_STAMP_HEADER_MIN, LEN_STREAM_HEADER,
};
use crate::wire::{lemma_u32_at, lemma_u64_at, u32_at, u32_bytes, u64_at, u64_bytes};
use vstd::prelude::*;

verus! {

/// The samples stand one behind the other from `from` on and up to `to`, each
/// behind its header.
pub open spec fn in_order(samples: Seq<SampleSpan>, from: int, to: int) -> bool {
    &&& forall|i: int|
        0 <= i < samples.len() ==> from + LEN_NOT_SAMPLE_MIN <= (#[trigger] samples[i]).start
            && samples[i].stop() <= to
    &&& forall|i: int, j: int|
        0 <= i < j < samples.len() ==> (#[trigger] samples[i]).stop() + LEN_NOT_SAMPLE_MIN <= (
        #[trigger] samples[j]).start
}

/// The stream is as long as it states: it has the bytes for its length field and
/// for its number of stamps, and those that the length field counts.
pub open spec fn is_framed(data: Seq<u8>) -> bool {
    data.len() >= LEN_STREAM_HEADER && stream_limit(data) <= data.len()
}

proof fn lemma_samples_in_order(data: Seq<u8>, limit: int, at: int, count: nat, timestamp: u64)
    requires
        0 <= at <= limit <= u32::MAX + 4,
    ensures
        ({
            let w = walk_samples(data, limit, at, count, timestamp);
            &&& at <= w.next <= limit
            &&& in_order(w.samples, at, w.next)
            &&& limit <= data.len() ==> w.end != StreamEnd::OutOfBounds
        }),
    decreases count,
{
    let header = sample_at(data, at);
    let start = at + LEN_NOT_SAMPLE_MIN;
    let stop = start + header.sample_size;
    if count > 0 && start <= limit && start <= data.len() && !(header.not_hdl == 0
        && header.sample_size == 0) && stop <= limit {
        lemma_samples_in_order(data, limit, stop, (count - 1) as nat, timestamp);
    }
}

proof fn lemma_stamps_in_order(data: Seq<u8>, limit: int, at: int, count: nat)
    requires
        0 <= at,
        limit <= u32::MAX + 4,
    ensures
        ({
            let w = walk_stamps(data, limit, at, count);
            &&& at <= w.next
            &&& w.next <= limit || (w.next == at && w.samples.len() == 0)
            &&& in_order(w.samples, at + LEN_STAMP_HEADER_MIN, w.next)
            &&& limit <= data.len() ==> w.end != StreamEnd::OutOfBounds
        }),
    decreases count,
{
    let header = stamp_at(data, at);
    let first = at + LEN_STAMP_HEADER_MIN;
    if count > 0 && first <= limit && first <= data.len() && !(header.timestamp == 0
        && header.samples == 0) {
        lemma_samples_in_order(data, limit, first, header.samples as nat, header.timestamp);
        let stamp = walk_samples(data, limit, first, header.samples as nat, header.timestamp);
        if stamp.end == StreamEnd::Complete {
            lemma_stamps_in_order(data, limit, stamp.next, (count - 1) as nat);
        }
    }
}

/// The samples of a stream stand one behind the other, each behind a header of
/// its own, behind the header of the first stamp, and within the length that the
/// stream states for itself.
pub proof fn law_samples_in_order(data: Seq<u8>)
    ensures
        in_order(
            walk_stream(data).samples,
            LEN_STREAM_HEADER + LEN_STAMP_HEADER_MIN,
            stream_limit(data),
        ),
{
    if data.len() >= LEN_STREAM_HEADER {
        lemma_stamps_in_order(
            data,
            stream_limit(data),
            LEN_STREAM_HEADER as int,
            u32_at(data, 4) as nat,
        );
    }
}

/// A sample is due for a call where its handle has an entry in the register.
pub open spec fn is_due<C>(register: Seq<NotHandle<C>>) -> spec_fn(SampleSpan) -> bool {
    |sample: SampleSpan| find_handle(register, sample.not_hdl) is Some
}

/// The call that is due for a sample: that of the first entry for its handle,
/// with its handle, its time stamp and its bytes.
pub open spec fn call_for<C>(register: Seq<NotHandle<C>>, data: Seq<u8>) -> spec_fn(
    SampleSpan,
) -> DeliveryView<C> {
    |sample: SampleSpan|
        DeliveryView {
            callback: find_handle(register, sample.not_hdl)->0.callback,
            not_hdl: sample.not_hdl,
            timestamp: sample.timestamp,
            payload: data.subrange(sample.start as int, sample.stop()),
        }
}

proof fn lemma_due_in_bounds<C>(
    register: Seq<NotHandle<C>>,
    data: Seq<u8>,
    samples: Seq<SampleSpan>,
    end: StreamEnd,
)
    requires
        forall|i: int| 0 <= i < samples.len() ==> (#[trigger] samples[i]).stop() <= data.len(),
    ensures
        due_deliveries(register, data, samples, end) == (
            samples.filter(is_due(register)).map_values(call_for(register, data)),
            end,
        ),
    decreases samples.len(),
{
    let due = due_deliveries(register, data, samples, end);
    let keep = is_due(register);
    let call = call_for(register, data);
    if samples.len() == 0 {
        reveal(Seq::filter);
        assert(due.0 =~= samples.filter(keep).map_values(call));
    } else {
        let rest = samples.drop_first();
        assert forall|i: int| 0 <= i < rest.len() implies (#[trigger] rest[i]).stop()
            <= data.len() by {
            assert(rest[i] == samples[i + 1]);
        }
        lemma_due_in_bounds(register, data, rest, end);
        assert(samples =~= seq![samples[0]] + rest);
        Seq::filter_distributes_over_add(seq![samples[0]], rest, keep);
        reveal_with_fuel(Seq::filter, 2);
        let first = seq![samples[0]];
        assert(first.drop_last() =~= Seq::empty());
        assert(samples[0].stop() <= data.len());
        if keep(samples[0]) {
            assert(first.filter(keep) =~= seq![samples[0]]);
        } else {
            assert(first.filter(keep) =~= Seq::empty());
        }
        assert(due.0 =~= samples.filter(keep).map_values(call));
    }
}

/// Of a stream that is as long as it states, each sample whose handle has an
/// entry in the register leads to one call, in the order of the samples, with
/// the bytes of the sample; no other call is made, and no byte is missing.
pub proof fn law_framed_stream<C>(register: Seq<NotHandle<C>>, data: Seq<u8>)
    requires
        is_framed(data),
    ensures
        walk_stream(data).end != StreamEnd::OutOfBounds,
        due_for_stream(register, data) == (
            walk_stream(data).samples.filter(is_due(register)).map_values(call_for(register, data)),
            walk_stream(data).end,
        ),
{
    lemma_stamps_in_order(
        data,
        stream_limit(data),
        LEN_STREAM_HEADER as int,
        u32_at(data, 4) as nat,
    );
    law_samples_in_order(data);
    let walk = walk_stream(data);
    lemma_due_in_bounds(register, data, walk.samples, walk.end);
}

proof fn lemma_samples_of_longer(
    data: Seq<u8>,
    tail: Seq<u8>,
    limit: int,
    at: int,
    count: nat,
    timestamp: u64,
)
    requires
        0 <= at,
        limit <= data.len(),
    ensures
        walk_samples(data + tail, limit, at, count, timestamp) == walk_samples(
            data,
            limit,
            at,
            count,
            timestamp,
        ),
    decreases count,
{
    let start = at + LEN_NOT_SAMPLE_MIN;
    if count > 0 && start <= limit {
        assert(sample_at(data + tail, at) == sample_at(data, at));
        let stop = start + sample_at(data, at).sample_size;
        lemma_samples_of_longer(data, tail, limit, stop, (count - 1) as nat, timestamp);
    }
}

proof fn lemma_stamps_of_longer(data: Seq<u8>, tail: Seq<u8>, limit: int, at: int, count: nat)
    requires
        0 <= at,
        limit <= data.len(),
        limit <= u32::MAX + 4,
    ensures
        walk_stamps(data + tail, limit, at, count) == walk_stamps(data, limit, at, count),
    decreases count,
{
    let first = at + LEN_STAMP_HEADER_MIN;
    if count > 0 && first <= limit {
        assert(stamp_at(data + tail, at) == stamp_at(data, at));
        let header = stamp_at(data, at);
        let samples = header.samples as nat;
        lemma_samples_of_longer(data, tail, limit, first, samples, header.timestamp);
        lemma_samples_in_order(data, limit, first, samples, header.timestamp);
        let stamp = walk_samples(data, limit, first, samples, header.timestamp);
        lemma_stamps_of_longer(data, tail, limit, stamp.next, (count - 1) as nat);
    }
}

proof fn lemma_due_of_longer<C>(
    register: Seq<NotHandle<C>>,
    data: Seq<u8>,
    tail: Seq<u8>,
    samples: Seq<SampleSpan>,
    end: StreamEnd,
)
    requires
        forall|i: int| 0 <= i < samples.len() ==> (#[trigger] samples[i]).stop() <= data.len(),
    ensures
        due_deliveries(register, data + tail, samples, end) == due_deliveries(
            register,
            data,
            samples,
            end,
        ),
    decreases samples.len(),
{
    if samples.len() > 0 {
        let rest = samples.drop_first();
        assert forall|i: int| 0 <= i < rest.len() implies (#[trigger] rest[i]).stop()
            <= data.len() by {
            assert(rest[i] == samples[i + 1]);
        }
        lemma_due_of_longer(register, data, tail, rest, end);
        let first = samples[0];
        assert(first.stop() <= data.len());
        assert((data + tail).subrange(first.start as int, first.stop()) =~= data.subrange(
            first.start as int,
            first.stop(),
        ));
    }
}

/// Bytes behind those that a stream states for itself change nothing.
pub proof fn law_bytes_behind_stream<C>(
    register: Seq<NotHandle<C>>,
    data: Seq<u8>,
    tail: Seq<u8>,
)
    requires
        is_framed(data),
    ensures
        walk_stream(data + tail) == walk_stream(data),
        due_for_stream(register, data + tail) == due_for_stream(register, data),
{
    assert(u32_at(data + tail, 0) == u32_at(data, 0));
    assert(u32_at(data + tail, 4) == u32_at(data, 4));
    lemma_stamps_of_longer(
        data,
        tail,
        stream_limit(data),
        LEN_STREAM_HEADER as int,
        u32_at(data, 4) as nat,
    );
    law_samples_in_order(data);
    let walk = walk_stream(data);
    lemma_due_of_longer(register, data, tail, walk.samples, walk.end);
}

/// A sample as a device sends it.
pub struct SampleData {
    pub not_hdl: u32,
    pub payload: Seq<u8>,
}

/// A stamp as a device sends it.
pub struct StampData {
    pub timestamp: u64,
    pub samples: Seq<SampleData>,
}

/// The bytes of a sample.
#[verifier::opaque]
pub open spec fn sample_bytes(sample: SampleData) -> Seq<u8> {
    u32_bytes(sample.not_hdl) + u32_bytes(sample.payload.len() as u32) + sample.payload
}

/// The bytes of a sequence of samples.
pub open spec fn samples_bytes(samples: Seq<SampleData>) -> Seq<u8>
    decreases samples.len(),
{
    if samples.len() == 0 {
        Seq::empty()
    } else {
        sample_bytes(samples[0]) + samples_bytes(samples.drop_first())
    }
}

/// The bytes of a stamp.
#[verifier::opaque]
pub open spec fn stamp_bytes(stamp: StampData) -> Seq<u8> {
    u64_bytes(stamp.timestamp) + u32_bytes(stamp.samples.len() as u32) + samples_bytes(
        stamp.samples,
    )
}

/// The bytes of a sequence of stamps.
pub open spec fn stamps_bytes(stamps: Seq<StampData>) -> Seq<u8>
    decreases stamps.len(),
{
    if stamps.len() == 0 {
        Seq::empty()
    } else {
        stamp_bytes(stamps[0]) + stamps_bytes(stamps.drop_first())
    }
}

/// The bytes of a notification stream.
pub open spec fn stream_bytes(stamps: Seq<StampData>) -> Seq<u8> {
    u32_bytes((4 + stamps_bytes(stamps).len()) as u32) + u32_bytes(stamps.len() as u32)
        + stamps_bytes(stamps)
}

/// The sample is not of the kind that ends a stamp.
pub open spec fn is_filled_sample(sample: SampleData) -> bool {
    sample.not_hdl != 0 || sample.payload.len() > 0
}

/// The stamp is not of the kind that ends a stream, and holds no sample that
/// ends it.
pub open spec fn is_filled_stamp(stamp: StampData) -> bool {
    &&& stamp.timestamp != 0 || stamp.samples.len() > 0
    &&& forall|i: int|
        0 <= i < stamp.samples.len() ==> is_filled_sample(#[trigger] stamp.samples[i])
}

/// The calls for the samples of one stamp.
pub open spec fn calls_for_samples<C>(
    register: Seq<NotHandle<C>>,
    timestamp: u64,
    samples: Seq<SampleData>,
) -> Seq<DeliveryView<C>>
    decreases samples.len(),
{
    if samples.len() == 0 {
        Seq::empty()
    } else {
        let rest = calls_for_samples(register, timestamp, samples.drop_first());
        match find_handle(register, samples[0].not_hdl) {
            None => rest,
            Some(handle) => seq![
                DeliveryView {
                    callback: handle.callback,
                    not_hdl: samples[0].not_hdl,
                    timestamp,
                    payload: samples[0].payload,
                },
            ] + rest,
        }
    }
}

/// The calls for a sequence of stamps.
pub open spec fn calls_for_stamps<C>(
    register: Seq<NotHandle<C>>,
    stamps: Seq<StampData>,
) -> Seq<DeliveryView<C>>
    decreases stamps.len(),
{
    if stamps.len() == 0 {
        Seq::empty()
    } else {
        calls_for_samples(register, stamps[0].timestamp, stamps[0].samples) + calls_for_stamps(
            register,
            stamps.drop_first(),
        )
    }
}

proof fn lemma_count_of_samples(samples: Seq<SampleData>)
    ensures
        LEN_NOT_SAMPLE_MIN * samples.len() <= samples_bytes(samples).len(),
    decreases samples.len(),
{
    reveal(sample_bytes);
    if samples.len() > 0 {
        lemma_count_of_samples(samples.drop_first());
    }
}

proof fn lemma_count_of_stamps(stamps: Seq<StampData>)
    ensures
        LEN_STAMP_HEADER_MIN * stamps.len() <= stamps_bytes(stamps).len(),
    decreases stamps.len(),
{
    reveal(stamp_bytes);
    if stamps.len() > 0 {
        lemma_count_of_stamps(stamps.drop_first());
    }
}

/// Ways to group a record of three parts that stands between other bytes.
proof fn lemma_regroup(before: Seq<u8>, x: Seq<u8>, y: Seq<u8>, z: Seq<u8>, after: Seq<u8>)
    ensures
        ({
            let data = before + ((x + y + z) + after);
            let n = (before.len() + x.len() + y.len()) as int;
            &&& before + x + (y + (z + after)) == data
            &&& before + x + y + (z + after) == data
            &&& data.subrange(0, n) + z + after == data
            &&& data.subrange(n, n + z.len()) == z
        }),
{
    let data = before + ((x + y + z) + after);
    let n = (before.len() + x.len() + y.len()) as int;
    assert(before + x + (y + (z + after)) =~= data);
    assert(before + x + y + (z + after) =~= data);
    assert(data.subrange(0, n) + z + after =~= data);
    assert(data.subrange(n, n + z.len()) =~= z);
}

/// An encoded sample is read back as it was sent.
proof fn lemma_sample_encoded(before: Seq<u8>, sample: SampleData, after: Seq<u8>)
    requires
        sample.payload.len() <= u32::MAX,
    ensures
        ({
            let data = before + (sample_bytes(sample) + after);
            let at = before.len() as int;
            let start = at + LEN_NOT_SAMPLE_MIN;
            &&& sample_at(data, at).not_hdl == sample.not_hdl
            &&& sample_at(data, at).sample_size == sample.payload.len()
            &&& data.subrange(start, start + sample.payload.len()) == sample.payload
            &&& sample_bytes(sample).len() == LEN_NOT_SAMPLE_MIN + sample.payload.len()
        }),
{
    let data = before + (sample_bytes(sample) + after);
    let at = before.len() as int;
    let handle = u32_bytes(sample.not_hdl);
    let size = u32_bytes(sample.payload.len() as u32);
    let tail = sample.payload + after;
    assert(sample_bytes(sample) == handle + size + sample.payload) by {
        reveal(sample_bytes);
    }
    assert(handle.len() == 4 && size.len() == 4);
    lemma_regroup(before, handle, size, sample.payload, after);
    assert(u32_at(data, at) == sample.not_hdl) by {
        lemma_u32_at(before, sample.not_hdl, size + tail);
    }
    assert(u32_at(data, at + 4) == sample.payload.len()) by {
        lemma_u32_at(before + handle, sample.payload.len() as u32, tail);
        assert((before + handle).len() == at + 4);
    }
}

/// An encoded stamp header is read back as it was sent.
proof fn lemma_stamp_encoded(before: Seq<u8>, stamp: StampData, after: Seq<u8>)
    requires
        stamp.samples.len() <= u32::MAX,
    ensures
        ({
            let data = before + (stamp_bytes(stamp) + after);
            let at = before.len() as int;
            &&& stamp_at(data, at).timestamp == stamp.timestamp
            &&& stamp_at(data, at).samples == stamp.samples.len()
            &&& stamp_bytes(stamp).len() == LEN_STAMP_HEADER_MIN + samples_bytes(
                stamp.samples,
            ).len()
            &&& data == data.subrange(0, at + LEN_STAMP_HEADER_MIN) + samples_bytes(stamp.samples)
                + after
        }),
{
    let data = before + (stamp_bytes(stamp) + after);
    let at = before.len() as int;
    let time = u64_bytes(stamp.timestamp);
    let count = u32_bytes(stamp.samples.len() as u32);
    let body = samples_bytes(stamp.samples);
    let tail = body + after;
    assert(stamp_bytes(stamp) == time + count + body) by {
        reveal(stamp_bytes);
    }
    assert(time.len() == 8 && count.len() == 4);
    lemma_regroup(before, time, count, body, after);
    assert(u64_at(data, at) == stamp.timestamp) by {
        lemma_u64_at(before, stamp.timestamp, count + tail);
    }
    assert(u32_at(data, at + 8) == stamp.samples.len()) by {
        lemma_u32_at(before + time, stamp.samples.len() as u32, tail);
        assert((before + time).len() == at + 8);
    }
}

/// The walk over encoded samples finds them all, and leads to the calls for
/// them, whatever samples `rest` come behind.
proof fn lemma_samples_encoded<C>(
    register: Seq<NotHandle<C>>,
    before: Seq<u8>,
    samples: Seq<SampleData>,
    after: Seq<u8>,
    limit: int,
    timestamp: u64,
    rest: Seq<SampleSpan>,
    end: StreamEnd,
)
    requires
        before.len() + samples_bytes(samples).len() <= limit <= before.len() + samples_bytes(
            samples,
        ).len() + after.len(),
        limit <= u32::MAX + 4,
        samples_bytes(samples).len() <= u32::MAX,
        forall|i: int| 0 <= i < samples.len() ==> is_filled_sample(#[trigger] samples[i]),
    ensures
        ({
            let data = before + samples_bytes(samples) + after;
            let w = walk_samples(data, limit, before.len() as int, samples.len(), timestamp);
            let behind = due_deliveries(register, data, rest, end);
            &&& w.end == StreamEnd::Complete
            &&& w.next == before.len() + samples_bytes(samples).len()
            &&& due_deliveries(register, data, w.samples + rest, end) == (
                calls_for_samples(register, timestamp, samples) + behind.0,
                behind.1,
            )
        }),
    decreases samples.len(),
{
    let data = before + samples_bytes(samples) + after;
    let w = walk_samples(data, limit, before.len() as int, samples.len(), timestamp);
    let behind = due_deliveries(register, data, rest, end);
    if samples.len() == 0 {
        assert(w.samples + rest =~= rest);
        assert(calls_for_samples(register, timestamp, samples) + behind.0 =~= behind.0);
    } else {
        let sample = samples[0];
        let others = samples.drop_first();
        let size = sample.payload.len() as u32;
        let passed = before + sample_bytes(sample);
        assert(is_filled_sample(sample));
        assert(sample_bytes(sample).len() == LEN_NOT_SAMPLE_MIN + sample.payload.len()) by {
            reveal(sample_bytes);
        }
        assert(passed + samples_bytes(others) + after =~= data);
        assert forall|i: int| 0 <= i < others.len() implies is_filled_sample(
            #[trigger] others[i],
        ) by {
            assert(others[i] == samples[i + 1]);
        }
        lemma_samples_encoded(
            register,
            passed,
            others,
            after,
            limit,
            timestamp,
            rest,
            end,
        );
        let tail = samples_bytes(others) + after;
        assert(before + (sample_bytes(sample) + tail) =~= data);
        lemma_sample_encoded(before, sample, tail);
        let inner = walk_samples(data, limit, passed.len() as int, others.len(), timestamp);
        let span = SampleSpan {
            not_hdl: sample.not_hdl,
            timestamp,
            start: (before.len() + LEN_NOT_SAMPLE_MIN) as u64,
            size,
        };
        assert(w.samples == seq![span] + inner.samples);
        let list = w.samples + rest;
        assert(list[0] == span);
        assert(list.drop_first() =~= inner.samples + rest);
        let calls = calls_for_samples(register, timestamp, others);
        match find_handle(register, sample.not_hdl) {
            None => {},
            Some(handle) => {
                let call = DeliveryView {
                    callback: handle.callback,
                    not_hdl: sample.not_hdl,
                    timestamp,
                    payload: sample.payload,
                };
                assert(seq![call] + (calls + behind.0) =~= (seq![call] + calls) + behind.0);
            },
        }
    }
}

/// One step of the walk over stamps, where the samples of the stamp are complete.
proof fn lemma_stamps_step(
    data: Seq<u8>,
    limit: int,
    at: int,
    count: nat,
    samples: nat,
    timestamp: u64,
)
    requires
        count > 0,
        at + LEN_STAMP_HEADER_MIN <= limit <= data.len(),
        stamp_at(data, at).timestamp == timestamp,
        stamp_at(data, at).samples == samples,
        timestamp != 0 || samples != 0,
        walk_samples(data, limit, at + LEN_STAMP_HEADER_MIN, samples, timestamp).end
            == StreamEnd::Complete,
    ensures
        ({
            let stamp = walk_samples(data, limit, at + LEN_STAMP_HEADER_MIN, samples, timestamp);
            let rest = walk_stamps(data, limit, stamp.next, (count - 1) as nat);
            walk_stamps(data, limit, at, count) == (Walk {
                samples: stamp.samples + rest.samples,
                ..rest
            })
        }),
{
}

/// The walk over `count` stamps from offset `at` on to the end of `data` leads to
/// `calls`.
#[verifier::opaque]
spec fn leads_to<C>(
    register: Seq<NotHandle<C>>,
    data: Seq<u8>,
    at: int,
    count: nat,
    calls: Seq<DeliveryView<C>>,
) -> bool {
    let w = walk_stamps(data, data.len() as int, at, count);
    &&& w.end == StreamEnd::Complete
    &&& due_deliveries(register, data, w.samples, StreamEnd::Complete) == (
        calls,
        StreamEnd::Complete,
    )
}

/// The walk over an encoded stamp leads to the calls for its samples, and then to
/// those for the stamps behind it.
proof fn lemma_first_stamp<C>(
    register: Seq<NotHandle<C>>,
    before: Seq<u8>,
    stamp: StampData,
    behind: Seq<u8>,
    count: nat,
    calls: Seq<DeliveryView<C>>,
)
    requires
        count > 0,
        is_filled_stamp(stamp),
        before.len() + stamp_bytes(stamp).len() + behind.len() <= u32::MAX + 4,
        stamp_bytes(stamp).len() <= u32::MAX,
        leads_to(
            register,
            before + (stamp_bytes(stamp) + behind),
            (before + stamp_bytes(stamp)).len() as int,
            (count - 1) as nat,
            calls,
        ),
    ensures
        leads_to(
            register,
            before + (stamp_bytes(stamp) + behind),
            before.len() as int,
            count,
            calls_for_samples(register, stamp.timestamp, stamp.samples) + calls,
        ),
{
    let data = before + (stamp_bytes(stamp) + behind);
    let at = before.len() as int;
    assert(stamp_bytes(stamp).len() == LEN_STAMP_HEADER_MIN + samples_bytes(
        stamp.samples,
    ).len()) by {
        reveal(stamp_bytes);
    }
    lemma_count_of_samples(stamp.samples);
    lemma_stamp_encoded(before, stamp, behind);
    lemma_stamp_leads_on(register, data, at, count, stamp, behind, calls);
}

proof fn lemma_stamp_leads_on<C>(
    register: Seq<NotHandle<C>>,
    data: Seq<u8>,
    at: int,
    count: nat,
    stamp: StampData,
    behind: Seq<u8>,
    calls: Seq<DeliveryView<C>>,
)
    requires
        0 <= at,
        count > 0,
        is_filled_stamp(stamp),
        data.len() == at + LEN_STAMP_HEADER_MIN + samples_bytes(stamp.samples).len()
            + behind.len(),
        data.len() <= u32::MAX + 4,
        samples_bytes(stamp.samples).len() <= u32::MAX,
        stamp_at(data, at).timestamp == stamp.timestamp,
        stamp_at(data, at).samples == stamp.samples.len(),
        data == data.subrange(0, at + LEN_STAMP_HEADER_MIN) + samples_bytes(stamp.samples)
            + behind,
        leads_to(register, data, data.len() - behind.len(), (count - 1) as nat, calls),
    ensures
        leads_to(
            register,
            data,
            at,
            count,
            calls_for_samples(register, stamp.timestamp, stamp.samples) + calls,
        ),
{
    reveal(leads_to);
    let limit = data.len() as int;
    let rest = walk_stamps(data, limit, limit - behind.len(), (count - 1) as nat);
    lemma_samples_encoded(
        register,
        data.subrange(0, at + LEN_STAMP_HEADER_MIN),
        stamp.samples,
        behind,
        limit,
        stamp.timestamp,
        rest.samples,
        StreamEnd::Complete,
    );
    lemma_stamps_step(data, limit, at, count, stamp.samples.len(), stamp.timestamp);
}

/// The walk over encoded stamps leads to the calls for them.
proof fn lemma_stamps_encoded<C>(
    register: Seq<NotHandle<C>>,
    before: Seq<u8>,
    stamps: Seq<StampData>,
)
    requires
        before.len() + stamps_bytes(stamps).len() <= u32::MAX + 4,
        stamps_bytes(stamps).len() <= u32::MAX,
        forall|i: int| 0 <= i < stamps.len() ==> is_filled_stamp(#[trigger] stamps[i]),
    ensures
        leads_to(
            register,
            before + stamps_bytes(stamps),
            before.len() as int,
            stamps.len(),
            calls_for_stamps(register, stamps),
        ),
    decreases stamps.len(),
{
    let data = before + stamps_bytes(stamps);
    if stamps.len() == 0 {
        reveal(leads_to);
    } else {
        let stamp = stamps[0];
        let others = stamps.drop_first();
        let behind = stamps_bytes(others);
        assert(is_filled_stamp(stamp));
        assert forall|i: int| 0 <= i < others.len() implies is_filled_stamp(
            #[trigger] others[i],
        ) by {
            assert(others[i] == stamps[i + 1]);
        }
        lemma_stamps_encoded(register, before + stamp_bytes(stamp), others);
        assert(before + stamp_bytes(stamp) + behind =~= data);
        assert(before + (stamp_bytes(stamp) + behind) =~= data);
        lemma_first_stamp(
            register,
            before,
            stamp,
            behind,
            stamps.len(),
            calls_for_stamps(register, others),
        );
    }
}

/// What a device sends arrives: of a stream of stamps and samples none of which
/// ends it early, each sample leads to the call of the first entry for its
/// handle, if there is one, with its handle, the time of its stamp and its
/// bytes, in the order in which they were sent.
pub proof fn law_stream_arrives<C>(register: Seq<NotHandle<C>>, stamps: Seq<StampData>)
    requires
        4 + stamps_bytes(stamps).len() <= u32::MAX,
        forall|i: int| 0 <= i < stamps.len() ==> is_filled_stamp(#[trigger] stamps[i]),
    ensures
        due_for_stream(register, stream_bytes(stamps)) == (
            calls_for_stamps(register, stamps),
            StreamEnd::Complete,
        ),
{
    let data = stream_bytes(stamps);
    let body = stamps_bytes(stamps);
    let length = (4 + body.len()) as u32;
    let count = stamps.len() as u32;
    lemma_count_of_stamps(stamps);
    lemma_u32_at(Seq::empty(), length, u32_bytes(count) + body);
    assert(Seq::<u8>::empty() + u32_bytes(length) + (u32_bytes(count) + body) =~= data);
    lemma_u32_at(u32_bytes(length), count, body);
    let before = u32_bytes(length) + u32_bytes(count);
    assert(before + body =~= data);
    lemma_stamps_encoded(register, before, stamps);
    reveal(leads_to);
}

/// The callback that was registered first for a handle is the one that is called;
/// a registration for one handle does not touch another.
pub proof fn law_first_registration_counts<C>(
    register: Seq<NotHandle<C>>,
    handle: NotHandle<C>,
    not_hdl: u32,
)
    ensures
        find_handle(register.push(handle), not_hdl) == match find_handle(register, not_hdl) {
            Some(earlier) => Some(earlier),
            None => if handle.not_hdl == not_hdl {
                Some(handle)
            } else {
                None
            },
        },
    decreases register.len(),
{
    let longer = register.push(handle);
    if register.len() == 0 {
        assert(longer.drop_first() =~= register);
    } else {
        assert(longer.drop_first() =~= register.drop_first().push(handle));
        law_first_registration_counts(register.drop_first(), handle, not_hdl);
    }
}

/// A handle that is found is an entry of the register for the handle, and where
/// none is found there is no such entry.
pub proof fn law_found_handle<C>(register: Seq<NotHandle<C>>, not_hdl: u32)
    ensures
        match find_handle(register, not_hdl) {
            Some(handle) => handle.not_hdl == not_hdl && register.contains(handle),
            None => forall|i: int|
                0 <= i < register.len() ==> (#[trigger] register[i]).not_hdl != not_hdl,
        },
    decreases register.len(),
{
    if register.len() > 0 {
        let rest = register.drop_first();
        if register[0].not_hdl == not_hdl {
            assert(register.contains(register[0]));
        } else {
            law_found_handle(rest, not_hdl);
            match find_handle(register, not_hdl) {
                Some(handle) => {
                    let i = choose|i: int| 0 <= i < rest.len() && rest[i] == handle;
                    assert(register[i + 1] == handle);
                },
                None => {
                    assert forall|i: int| 0 <= i < register.len() implies (
                    #[trigger] register[i]).not_hdl != not_hdl by {
                        if i > 0 {
                            assert(rest[i - 1] == register[i]);
                        }
                    }
                },
            }
        }
    }
}

/// Where the headers of stamps and samples have their fields.
pub proof fn law_fields_of_records(data: Seq<u8>, at: int)
    ensures
        stamp_at(data, at).timestamp == u64_at(data, at),
        stamp_at(data, at).samples == u32_at(data, at + 8),
        sample_at(data, at).not_hdl == u32_at(data, at),
        sample_at(data, at).sample_size == u32_at(data, at + 4),
{
}

/// How the walk over one more sample relates to the walk over what follows it. A
/// sample that is whole within the stream is found and the rest follows behind
/// its last byte. One that the stream has no room for ends the walk, as does one
/// whose header is missing; one of zeros is the last of its stamp.
pub proof fn law_walk_over_one_more_sample(
    data: Seq<u8>,
    limit: int,
    at: int,
    left: nat,
    timestamp: u64,
)
    requires
        0 <= at,
        limit <= u32::MAX + 4,
    ensures
        ({
            let none = walk_samples(data, limit, at, 0, timestamp);
            none.samples.len() == 0 && none.next == at && none.end == StreamEnd::Complete
        }),
        ({
            let not_hdl = u32_at(data, at);
            let size = u32_at(data, at + 4);
            let w = walk_samples(data, limit, at, left + 1, timestamp);
            let rest = walk_samples(data, limit, at + 8 + size, left, timestamp);
            if at + 8 > limit {
                w.samples.len() == 0 && w.end == StreamEnd::NotEnoughData
            } else if at + 8 > data.len() {
                w.samples.len() == 0 && w.end == StreamEnd::OutOfBounds
            } else if not_hdl == 0 && size == 0 {
                w.samples.len() == 0 && w.end == StreamEnd::Complete && w.next == at
            } else if at + 8 + size > limit {
                w.samples.len() == 0 && w.end == StreamEnd::NotEnoughData
            } else {
                &&& w.samples.len() == rest.samples.len() + 1
                &&& w.samples.drop_first() == rest.samples
                &&& w.samples[0].not_hdl == not_hdl
                &&& w.samples[0].timestamp == timestamp
                &&& w.samples[0].start == at + 8
                &&& w.samples[0].size == size
                &&& w.next == rest.next
                &&& w.end == rest.end
            }
        }),
{
    let size = u32_at(data, at + 4);
    let w = walk_samples(data, limit, at, left + 1, timestamp);
    let rest = walk_samples(data, limit, at + 8 + size, left, timestamp);
    if w.samples.len() > 0 {
        assert(w.samples.drop_first() =~= rest.samples);
    }
}

/// How the walk over one more stamp relates to the walk over what follows it. The
/// samples of the stamp come first, under its time; where they are complete, the
/// rest follows behind them. A stamp that the stream has no room for, or one of
/// zeros, is the end of the stream.
pub proof fn law_walk_over_one_more_stamp(data: Seq<u8>, limit: int, at: int, left: nat)
    ensures
        ({
            let none = walk_stamps(data, limit, at, 0);
            none.samples.len() == 0 && none.end == StreamEnd::Complete
        }),
        ({
            let timestamp = u64_at(data, at);
            let count = u32_at(data, at + 8);
            let w = walk_stamps(data, limit, at, left + 1);
            let stamp = walk_samples(data, limit, at + 12, count as nat, timestamp);
            let rest = walk_stamps(data, limit, stamp.next, left);
            if at + 12 > limit {
                w.samples.len() == 0 && w.end == StreamEnd::Complete
            } else if at + 12 > data.len() {
                w.samples.len() == 0 && w.end == StreamEnd::OutOfBounds
            } else if timestamp == 0 && count == 0 {
                w.samples.len() == 0 && w.end == StreamEnd::Complete
            } else if stamp.end != StreamEnd::Complete {
                w.samples == stamp.samples && w.end == stamp.end
            } else {
                w.samples == stamp.samples + rest.samples && w.end == rest.end
            }
        }),
{
}

/// A stream begins with its length and its number of stamps; the stamps follow at
/// 8, and reach four bytes further than the length says. One that is shorter than
/// that beginning has no samples.
pub proof fn law_walk_over_stream(data: Seq<u8>)
    ensures
        data.len() >= 8 ==> walk_stream(data) == walk_stamps(
            data,
            u32_at(data, 0) + 4,
            8,
            u32_at(data, 4) as nat,
        ),
        data.len() < 8 ==> walk_stream(data).samples.len() == 0 && walk_stream(data).end
            == StreamEnd::OutOfBounds,
{
}

/// The entry that is found for a handle is the first one that has it: no entry
/// before it has the handle. Where no entry has it, none is found.
pub proof fn law_first_entry_is_found<C>(register: Seq<NotHandle<C>>, not_hdl: u32, k: int)
    requires
        0 <= k <= register.len(),
        forall|j: int| 0 <= j < k ==> (#[trigger] register[j]).not_hdl != not_hdl,
        k < register.len() ==> register[k].not_hdl == not_hdl,
    ensures
        k < register.len() ==> find_handle(register, not_hdl) == Some(register[k]),
        k == register.len() ==> find_handle(register, not_hdl) is None,
    decreases k,
{
    if k > 0 {
        assert(register[0].not_hdl != not_hdl);
        let rest = register.drop_first();
        assert forall|j: int| 0 <= j < k - 1 implies (#[trigger] rest[j]).not_hdl != not_hdl by {
            assert(rest[j] == register[j + 1]);
        }
        law_first_entry_is_found(rest, not_hdl, k - 1);
    }
}

/// How the calls for one more sample relate to those for the samples behind it.
/// Without an entry for its handle nothing changes. With one, the callback of the
/// first such entry is called before all others, with the handle, the time and the
/// bytes of the sample; where these bytes are not all there, no call follows.
pub proof fn law_calls_for_one_more_sample<C>(
    register: Seq<NotHandle<C>>,
    data: Seq<u8>,
    sample: SampleSpan,
    behind: Seq<SampleSpan>,
    end: StreamEnd,
    k: int,
)
    requires
        0 <= k <= register.len(),
        forall|j: int| 0 <= j < k ==> (#[trigger] register[j]).not_hdl != sample.not_hdl,
        k < register.len() ==> register[k].not_hdl == sample.not_hdl,
    ensures
        due_deliveries(register, data, Seq::empty(), end) == (Seq::<DeliveryView<C>>::empty(), end),
        ({
            let now = due_deliveries(register, data, seq![sample] + behind, end);
            let later = due_deliveries(register, data, behind, end);
            if k == register.len() {
                now == later
            } else if sample.start + sample.size > data.len() {
                now.0.len() == 0 && now.1 == StreamEnd::OutOfBounds
            } else {
                &&& now.1 == later.1
                &&& now.0.len() == later.0.len() + 1
                &&& now.0.drop_first() == later.0
                &&& now.0[0].callback == register[k].callback
                &&& now.0[0].not_hdl == sample.not_hdl
                &&& now.0[0].timestamp == sample.timestamp
                &&& now.0[0].payload == data.subrange(
                    sample.start as int,
                    sample.start + sample.size,
                )
            }
        }),
{
    law_first_entry_is_found(register, sample.not_hdl, k);
    assert((seq![sample] + behind).drop_first() =~= behind);
    assert((seq![sample] + behind)[0] == sample);
    let now = due_deliveries(register, data, seq![sample] + behind, end);
    let later = due_deliveries(register, data, behind, end);
    if k < register.len() && sample.start + sample.size <= data.len() {
        assert(now.0.drop_first() =~= later.0);
    }
}

/// The calls for a stream are those for the samples that the walk over it finds.
pub proof fn law_calls_for_stream<C>(register: Seq<NotHandle<C>>, data: Seq<u8>)
    ensures
        due_for_stream(register, data) == due_deliveries(
            register,
            data,
            walk_stream(data).samples,
            walk_stream(data).end,
        ),
{
}

/// A delivery that delivers a call has a clone of its callback and all that it is
/// called with, and deliveries that deliver calls are as many, in the same order,
/// and come to the same end.
pub proof fn law_deliveries_are_the_calls<C: Clone>(
    one: Delivery<C>,
    call: DeliveryView<C>,
    all: Deliveries<C>,
    calls: Seq<DeliveryView<C>>,
    end: StreamEnd,
)
    ensures
        one.delivers(call) ==> {
            &&& cloned(call.callback, one.callback)
            &&& one.not_hdl == call.not_hdl
            &&& one.timestamp == call.timestamp
            &&& bytes_contents(one.payload) == call.payload
        },
        all.deliver((calls, end)) ==> {
            &&& all.end == end
            &&& all.due@.len() == calls.len()
            &&& forall|i: int|
                0 <= i < calls.len() ==> {
                    let made = #[trigger] all.due@[i];
                    &&& made.not_hdl == calls[i].not_hdl
                    &&& made.timestamp == calls[i].timestamp
                    &&& bytes_contents(made.payload) == calls[i].payload
                    &&& cloned(calls[i].callback, made.callback)
                }
        },
{
}

proof fn lemma_sample_has_call<C>(
    register: Seq<NotHandle<C>>,
    timestamp: u64,
    samples: Seq<SampleData>,
    i: int,
    k: int,
)
    requires
        0 <= i < samples.len(),
        0 <= k < register.len(),
        register[k].not_hdl == samples[i].not_hdl,
        forall|j: int| 0 <= j < k ==> (#[trigger] register[j]).not_hdl != samples[i].not_hdl,
    ensures
        calls_for_samples(register, timestamp, samples).contains(
            DeliveryView {
                callback: register[k].callback,
                not_hdl: samples[i].not_hdl,
                timestamp,
                payload: samples[i].payload,
            },
        ),
    decreases samples.len(),
{
    let call = DeliveryView {
        callback: register[k].callback,
        not_hdl: samples[i].not_hdl,
        timestamp,
        payload: samples[i].payload,
    };
    let calls = calls_for_samples(register, timestamp, samples);
    let others = samples.drop_first();
    let later = calls_for_samples(register, timestamp, others);
    if i == 0 {
        law_first_entry_is_found(register, samples[0].not_hdl, k);
        assert(calls[0] == call);
    } else {
        assert(others[i - 1] == samples[i]);
        lemma_sample_has_call(register, timestamp, others, i - 1, k);
        let n = choose|n: int| 0 <= n < later.len() && later[n] == call;
        match find_handle(register, samples[0].not_hdl) {
            None => {
                assert(calls[n] == call);
            },
            Some(_) => {
                assert(calls[n + 1] == call);
            },
        }
    }
}

proof fn lemma_stamp_has_calls<C>(
    register: Seq<NotHandle<C>>,
    stamps: Seq<StampData>,
    s: int,
    call: DeliveryView<C>,
)
    requires
        0 <= s < stamps.len(),
        calls_for_samples(register, stamps[s].timestamp, stamps[s].samples).contains(call),
    ensures
        calls_for_stamps(register, stamps).contains(call),
    decreases stamps.len(),
{
    let first = calls_for_samples(register, stamps[0].timestamp, stamps[0].samples);
    let others = stamps.drop_first();
    let later = calls_for_stamps(register, others);
    let calls = calls_for_stamps(register, stamps);
    if s == 0 {
        let n = choose|n: int| 0 <= n < first.len() && first[n] == call;
        assert(calls[n] == call);
    } else {
        assert(others[s - 1] == stamps[s]);
        lemma_stamp_has_calls(register, others, s - 1, call);
        let n = choose|n: int| 0 <= n < later.len() && later[n] == call;
        assert(calls[first.len() + n] == call);
    }
}

/// Every sample that a device sends for a registered handle arrives: the callback
/// of the first entry for its handle is called with the handle, the time of its
/// stamp and its bytes, whatever else the stream holds.
pub proof fn law_every_sent_sample_arrives<C>(
    register: Seq<NotHandle<C>>,
    stamps: Seq<StampData>,
    s: int,
    i: int,
    k: int,
)
    requires
        4 + stamps_bytes(stamps).len() <= u32::MAX,
        forall|m: int|
            0 <= m < stamps.len() ==> (#[trigger] stamps[m]).timestamp != 0
                || stamps[m].samples.len() > 0,
        forall|m: int, n: int|
            0 <= m < stamps.len() && 0 <= n < stamps[m].samples.len() ==> (
            #[trigger] stamps[m].samples[n]).not_hdl != 0 || stamps[m].samples[n].payload.len() > 0,
        0 <= s < stamps.len(),
        0 <= i < stamps[s].samples.len(),
        0 <= k < register.len(),
        register[k].not_hdl == stamps[s].samples[i].not_hdl,
        forall|j: int|
            0 <= j < k ==> (#[trigger] register[j]).not_hdl != stamps[s].samples[i].not_hdl,
    ensures
        due_for_stream(register, stream_bytes(stamps)).1 == StreamEnd::Complete,
        due_for_stream(register, stream_bytes(stamps)).0.contains(
            DeliveryView {
                callback: register[k].callback,
                not_hdl: stamps[s].samples[i].not_hdl,
                timestamp: stamps[s].timestamp,
                payload: stamps[s].samples[i].payload,
            },
        ),
{
    assert forall|m: int| 0 <= m < stamps.len() implies is_filled_stamp(#[trigger] stamps[m]) by {
        assert forall|n: int| 0 <= n < stamps[m].samples.len() implies is_filled_sample(
            #[trigger] stamps[m].samples[n],
        ) by {}
    }
    law_stream_arrives(register, stamps);
    let stamp = stamps[s];
    lemma_sample_has_call(register, stamp.timestamp, stamp.samples, i, k);
    lemma_stamp_has_calls(
        register,
        stamps,
        s,
        DeliveryView {
            callback: register[k].callback,
            not_hdl: stamp.samples[i].not_hdl,
            timestamp: stamp.timestamp,
            payload: stamp.samples[i].payload,
        },
    );
}

/// A stream of one sample under one stamp leads to one call where its handle has an
/// entry in the register, and to none where it has not: whatever the handle, the
/// time and the bytes are.
pub proof fn law_lone_sample<C>(
    register: Seq<NotHandle<C>>,
    not_hdl: u32,
    timestamp: u64,
    payload: Seq<u8>,
    k: int,
)
    requires
        24 + payload.len() <= u32::MAX,
        not_hdl != 0 || payload.len() > 0,
        0 <= k <= register.len(),
        forall|j: int| 0 <= j < k ==> (#[trigger] register[j]).not_hdl != not_hdl,
        k < register.len() ==> register[k].not_hdl == not_hdl,
    ensures
        ({
            let data = u32_bytes((24 + payload.len()) as u32) + u32_bytes(1) + u64_bytes(timestamp)
                + u32_bytes(1) + u32_bytes(not_hdl) + u32_bytes(payload.len() as u32) + payload;
            due_for_stream(register, data) == (
                if k < register.len() {
                    seq![
                        DeliveryView {
                            callback: register[k].callback,
                            not_hdl,
                            timestamp,
                            payload,
                        },
                    ]
                } else {
                    Seq::empty()
                },
                StreamEnd::Complete,
            )
        }),
{
    let sample = SampleData { not_hdl, payload };
    let stamp = StampData { timestamp, samples: seq![sample] };
    let stamps = seq![stamp];
    let data = u32_bytes((24 + payload.len()) as u32) + u32_bytes(1) + u64_bytes(timestamp)
        + u32_bytes(1) + u32_bytes(not_hdl) + u32_bytes(payload.len() as u32) + payload;
    reveal(sample_bytes);
    reveal(stamp_bytes);
    assert(stamp.samples.drop_first() =~= Seq::<SampleData>::empty());
    assert(stamps.drop_first() =~= Seq::<StampData>::empty());
    reveal_with_fuel(samples_bytes, 2);
    reveal_with_fuel(stamps_bytes, 2);
    reveal_with_fuel(calls_for_samples, 2);
    reveal_with_fuel(calls_for_stamps, 2);
    assert(samples_bytes(stamp.samples) =~= sample_bytes(sample));
    assert(stamps_bytes(stamps) =~= stamp_bytes(stamp));
    assert(stream_bytes(stamps) =~= data);
    assert(is_filled_sample(stamp.samples[0]));
    assert(is_filled_stamp(stamps[0]));
    law_stream_arrives(register, stamps);
    law_first_entry_is_found(register, not_hdl, k);
    let calls = calls_for_stamps(register, stamps);
    if k < register.len() {
        assert(calls =~= seq![
            DeliveryView { callback: register[k].callback, not_hdl, timestamp, payload },
        ]);
    } else {
        assert(calls =~= Seq::empty());
    }
}

/// Seven pieces one behind the other, each between what stands before and behind it.
proof fn lemma_pieces(
    a: Seq<u8>,
    b: Seq<u8>,
    c: Seq<u8>,
    d: Seq<u8>,
    e: Seq<u8>,
    f: Seq<u8>,
    g: Seq<u8>,
    data: Seq<u8>,
)
    requires
        a.len() == 4,
        b.len() == 4,
        c.len() == 8,
        d.len() == 4,
        e.len() == 4,
        f.len() == 4,
        data == a + b + c + d + e + f + g,
    ensures
        data.len() == 28 + g.len(),
        data == Seq::empty() + a + data.skip(4),
        data == data.take(4) + b + data.skip(8),
        data == data.take(8) + c + data.skip(16),
        data == data.take(16) + d + data.skip(20),
        data == data.take(20) + e + data.skip(24),
        data == data.take(24) + f + data.skip(28),
        data.skip(28) == g,
{
    assert(data =~= Seq::empty() + a + data.skip(4));
    assert(data =~= data.take(4) + b + data.skip(8));
    assert(data =~= data.take(8) + c + data.skip(16));
    assert(data =~= data.take(16) + d + data.skip(20));
    assert(data =~= data.take(20) + e + data.skip(24));
    assert(data =~= data.take(24) + f + data.skip(28));
    assert(data.skip(28) =~= g);
}

/// Where the fields of a stream of one stamp with one sample stand.
proof fn lemma_lone_fields(
    stated: u32,
    timestamp: u64,
    not_hdl: u32,
    size: u32,
    bytes: Seq<u8>,
    data: Seq<u8>,
)
    requires
        data == u32_bytes(stated) + u32_bytes(1) + u64_bytes(timestamp) + u32_bytes(1) + u32_bytes(
            not_hdl,
        ) + u32_bytes(size) + bytes,
    ensures
        data.len() == 28 + bytes.len(),
        u32_at(data, 0) == stated,
        u32_at(data, 4) == 1,
        u64_at(data, 8) == timestamp,
        u32_at(data, 16) == 1,
        u32_at(data, 20) == not_hdl,
        u32_at(data, 24) == size,
        data.skip(28) == bytes,
{
    lemma_pieces(
        u32_bytes(stated),
        u32_bytes(1),
        u64_bytes(timestamp),
        u32_bytes(1),
        u32_bytes(not_hdl),
        u32_bytes(size),
        bytes,
        data,
    );
    assert(u32_at(data, 0) == stated) by {
        lemma_u32_at(Seq::empty(), stated, data.skip(4));
    }
    assert(u32_at(data, 4) == 1) by {
        lemma_u32_at(data.take(4), 1, data.skip(8));
    }
    assert(u64_at(data, 8) == timestamp) by {
        lemma_u64_at(data.take(8), timestamp, data.skip(16));
    }
    assert(u32_at(data, 16) == 1) by {
        lemma_u32_at(data.take(16), 1, data.skip(20));
    }
    assert(u32_at(data, 20) == not_hdl) by {
        lemma_u32_at(data.take(20), not_hdl, data.skip(24));
    }
    assert(u32_at(data, 24) == size) by {
        lemma_u32_at(data.take(24), size, data.skip(28));
    }
}

/// The samples of a stream of one stamp with one sample.
proof fn lemma_lone_walk(data: Seq<u8>)
    requires
        data.len() >= 28,
        u32_at(data, 4) == 1,
        u32_at(data, 16) == 1,
    ensures
        ({
            let stated = u32_at(data, 0);
            let not_hdl = u32_at(data, 20);
            let size = u32_at(data, 24);
            let whole = walk_stream(data);
            if stated < 16 {
                whole.samples.len() == 0 && whole.end == StreamEnd::Complete
            } else if stated < 24 {
                whole.samples.len() == 0 && whole.end == StreamEnd::NotEnoughData
            } else if not_hdl == 0 && size == 0 {
                whole.samples.len() == 0 && whole.end == StreamEnd::Complete
            } else if stated < 24 + size {
                whole.samples.len() == 0 && whole.end == StreamEnd::NotEnoughData
            } else {
                whole.samples == seq![
                    SampleSpan { not_hdl, timestamp: u64_at(data, 8), start: 28, size },
                ] && whole.end == StreamEnd::Complete
            }
        }),
{
    let limit = u32_at(data, 0) + 4;
    let timestamp = u64_at(data, 8);
    let size = u32_at(data, 24);
    law_walk_over_stream(data);
    law_walk_over_one_more_stamp(data, limit, 8, 0);
    law_walk_over_one_more_sample(data, limit, 20, 0, timestamp);
    law_walk_over_one_more_sample(data, limit, 28 + size, 0, timestamp);
    let stamp = walk_samples(data, limit, 20, 1, timestamp);
    law_walk_over_one_more_stamp(data, limit, stamp.next, 0);
    let whole = walk_stream(data);
    if stamp.samples.len() > 0 {
        assert(whole.samples =~= seq![stamp.samples[0]]);
    }
}

/// The calls for a stream of one stamp with one sample.
proof fn lemma_lone_calls<C>(register: Seq<NotHandle<C>>, data: Seq<u8>, bytes: Seq<u8>, k: int)
    requires
        data.len() == 28 + bytes.len(),
        data.skip(28) == bytes,
        u32_at(data, 4) == 1,
        u32_at(data, 16) == 1,
        0 <= k <= register.len(),
        forall|j: int| 0 <= j < k ==> (#[trigger] register[j]).not_hdl != u32_at(data, 20),
        k < register.len() ==> register[k].not_hdl == u32_at(data, 20),
    ensures
        ({
            let stated = u32_at(data, 0);
            let not_hdl = u32_at(data, 20);
            let size = u32_at(data, 24);
            let (calls, end) = due_for_stream(register, data);
            if stated < 16 {
                calls.len() == 0 && end == StreamEnd::Complete
            } else if stated < 24 {
                calls.len() == 0 && end == StreamEnd::NotEnoughData
            } else if not_hdl == 0 && size == 0 {
                calls.len() == 0 && end == StreamEnd::Complete
            } else if stated < 24 + size {
                calls.len() == 0 && end == StreamEnd::NotEnoughData
            } else if k == register.len() {
                calls.len() == 0 && end == StreamEnd::Complete
            } else if bytes.len() < size {
                calls.len() == 0 && end == StreamEnd::OutOfBounds
            } else {
                &&& end == StreamEnd::Complete
                &&& calls.len() == 1
                &&& calls[0].callback == register[k].callback
                &&& calls[0].not_hdl == not_hdl
                &&& calls[0].timestamp == u64_at(data, 8)
                &&& calls[0].payload == bytes.take(size as int)
            }
        }),
{
    let size = u32_at(data, 24);
    lemma_lone_walk(data);
    let whole = walk_stream(data);
    if whole.samples.len() > 0 {
        let span = whole.samples[0];
        assert(whole.samples =~= seq![span] + Seq::<SampleSpan>::empty());
        law_calls_for_one_more_sample(register, data, span, Seq::empty(), whole.end, k);
        if bytes.len() >= size {
            assert(data.subrange(28, 28 + size) =~= data.skip(28).take(size as int));
        }
    } else {
        assert(whole.samples =~= Seq::<SampleSpan>::empty());
    }
}

/// What a stream of one stamp with one sample comes to, whatever length it states for
/// itself, whatever size the sample states, and however many bytes follow. The
/// sample counts where the stream has room for it; then all its bytes have to be
/// there for a call, and only those go into it.
pub proof fn law_stated_lengths_count<C>(
    register: Seq<NotHandle<C>>,
    stated: u32,
    timestamp: u64,
    not_hdl: u32,
    size: u32,
    bytes: Seq<u8>,
    k: int,
)
    requires
        0 <= k <= register.len(),
        forall|j: int| 0 <= j < k ==> (#[trigger] register[j]).not_hdl != not_hdl,
        k < register.len() ==> register[k].not_hdl == not_hdl,
    ensures
        ({
            let data = u32_bytes(stated) + u32_bytes(1) + u64_bytes(timestamp) + u32_bytes(1)
                + u32_bytes(not_hdl) + u32_bytes(size) + bytes;
            let (calls, end) = due_for_stream(register, data);
            if stated < 16 {
                calls.len() == 0 && end == StreamEnd::Complete
            } else if stated < 24 {
                calls.len() == 0 && end == StreamEnd::NotEnoughData
            } else if not_hdl == 0 && size == 0 {
                calls.len() == 0 && end == StreamEnd::Complete
            } else if stated < 24 + size {
                calls.len() == 0 && end == StreamEnd::NotEnoughData
            } else if k == register.len() {
                calls.len() == 0 && end == StreamEnd::Complete
            } else if bytes.len() < size {
                calls.len() == 0 && end == StreamEnd::OutOfBounds
            } else {
                &&& end == StreamEnd::Complete
                &&& calls.len() == 1
                &&& calls[0].callback == register[k].callback
                &&& calls[0].not_hdl == not_hdl
                &&& calls[0].timestamp == timestamp
                &&& calls[0].payload == bytes.take(size as int)
            }
        }),
{
    let data = u32_bytes(stated) + u32_bytes(1) + u64_bytes(timestamp) + u32_bytes(1) + u32_bytes(
        not_hdl,
    ) + u32_bytes(size) + bytes;
    lemma_lone_fields(stated, timestamp, not_hdl, size, bytes, data);
    lemma_lone_calls(register, data, bytes, k);
}

} // verus!
