//! Device notifications: the walk over the stream of samples that a device
//! sends, and the callbacks that are due for them.

use crate::buffer::{as_slice, bytes_contents, slice};
use crate::client::Client;
use crate::wire::{read_u32, read_u64, u32_at, u64_at};
use bytes::Bytes;
use vstd::prelude::*;

verus! {

/// Length of a stamp header: time stamp (8) and number of samples (4).
pub const LEN_STAMP_HEADER_MIN: usize = 12;

/// Length of a sample header: notification handle (4) and sample size (4).
pub const LEN_NOT_SAMPLE_MIN: usize = 8;

/// Offset of the first stamp header: behind the length and the number of stamps.
pub const LEN_STREAM_HEADER: usize = 8;

/// A stamp header: when its samples were taken, and how many there are.
#[derive(Debug, Clone, Copy, PartialEq, Eq, Structural)]
pub struct AdsStampHeader {
    pub timestamp: u64,
    pub samples: u32,
}

/// A sample header: whom the sample is for, and how many bytes it has.
#[derive(Debug, Clone, Copy, PartialEq, Eq, Structural)]
pub struct AdsNotificationSample {
    pub not_hdl: u32,
    pub sample_size: u32,
}

impl Default for AdsStampHeader {
    fn default() -> (header: AdsStampHeader)
        ensures
            header == (AdsStampHeader { timestamp: 0, samples: 0 }),
    {
        AdsStampHeader { timestamp: 0, samples: 0 }
    }
}

impl Default for AdsNotificationSample {
    fn default() -> (header: AdsNotificationSample)
        ensures
            header == (AdsNotificationSample { not_hdl: 0, sample_size: 0 }),
    {
        AdsNotificationSample { not_hdl: 0, sample_size: 0 }
    }
}

/// The stamp header at offset `at`.
pub open spec fn stamp_at(data: Seq<u8>, at: int) -> AdsStampHeader {
    AdsStampHeader { timestamp: u64_at(data, at), samples: u32_at(data, at + 8) }
}

/// The sample header at offset `at`.
pub open spec fn sample_at(data: Seq<u8>, at: int) -> AdsNotificationSample {
    AdsNotificationSample { not_hdl: u32_at(data, at), sample_size: u32_at(data, at + 4) }
}

/// A sample that was found in a stream: its handle, the time stamp it stands
/// under, and where in the stream its bytes stand.
#[derive(Debug, Clone, Copy, PartialEq, Eq, Structural)]
pub struct SampleSpan {
    pub not_hdl: u32,
    pub timestamp: u64,
    pub start: u64,
    pub size: u32,
}

impl SampleSpan {
    /// Offset behind the last byte of the sample.
    pub open spec fn stop(self) -> int {
        self.start + self.size
    }
}

/// How the walk over a stream came to its end.
#[derive(Debug, Clone, Copy, PartialEq, Eq, Structural)]
pub enum StreamEnd {
    /// There was no further stamp to read.
    Complete,
    /// A sample reaches beyond the length that the stream states for itself.
    NotEnoughData,
    /// The stream states more bytes than there are: the walk came to bytes that
    /// are missing.
    OutOfBounds,
}

/// A walk: the samples that it found, where it came to, and how it ended.
pub struct Walk {
    pub samples: Seq<SampleSpan>,
    pub next: int,
    pub end: StreamEnd,
}

/// The walk over at most `count` samples from offset `at` on, in a stream that
/// states `limit` bytes for itself. A sample header of zeros does not move the
/// walk on, so what is left of `count` is spent on it: it ends the stamp.
pub open spec fn walk_samples(
    data: Seq<u8>,
    limit: int,
    at: int,
    count: nat,
    timestamp: u64,
) -> Walk
    decreases count,
{
    let header = sample_at(data, at);
    let start = at + LEN_NOT_SAMPLE_MIN;
    let stop = start + header.sample_size;
    if count == 0 {
        Walk { samples: Seq::empty(), next: at, end: StreamEnd::Complete }
    } else if start > limit {
        Walk { samples: Seq::empty(), next: at, end: StreamEnd::NotEnoughData }
    } else if start > data.len() {
        Walk { samples: Seq::empty(), next: at, end: StreamEnd::OutOfBounds }
    } else if header.not_hdl == 0 && header.sample_size == 0 {
        Walk { samples: Seq::empty(), next: at, end: StreamEnd::Complete }
    } else if stop > limit {
        Walk { samples: Seq::empty(), next: start, end: StreamEnd::NotEnoughData }
    } else {
        let rest = walk_samples(data, limit, stop, (count - 1) as nat, timestamp);
        let span = SampleSpan {
            not_hdl: header.not_hdl,
            timestamp,
            start: start as u64,
            size: header.sample_size,
        };
        Walk { samples: seq![span] + rest.samples, ..rest }
    }
}

/// The walk over at most `count` stamps from offset `at` on. Where no stamp
/// header fits into the stream any more, or a stamp header is all zeros, the
/// walk does not move on: the stream is at its end.
pub open spec fn walk_stamps(data: Seq<u8>, limit: int, at: int, count: nat) -> Walk
    decreases count,
{
    let header = stamp_at(data, at);
    let first = at + LEN_STAMP_HEADER_MIN;
    if count == 0 || first > limit {
        Walk { samples: Seq::empty(), next: at, end: StreamEnd::Complete }
    } else if first > data.len() {
        Walk { samples: Seq::empty(), next: at, end: StreamEnd::OutOfBounds }
    } else if header.timestamp == 0 && header.samples == 0 {
        Walk { samples: Seq::empty(), next: at, end: StreamEnd::Complete }
    } else {
        let stamp = walk_samples(data, limit, first, header.samples as nat, header.timestamp);
        if stamp.end != StreamEnd::Complete {
            stamp
        } else {
            let rest = walk_stamps(data, limit, stamp.next, (count - 1) as nat);
            Walk { samples: stamp.samples + rest.samples, ..rest }
        }
    }
}

/// The number of bytes that a stream states for itself: those that its length
/// field counts, and the length field.
pub open spec fn stream_limit(data: Seq<u8>) -> int {
    u32_at(data, 0) + 4
}

/// The walk over a whole notification stream.
pub open spec fn walk_stream(data: Seq<u8>) -> Walk {
    if data.len() < LEN_STREAM_HEADER {
        Walk { samples: Seq::empty(), next: 0, end: StreamEnd::OutOfBounds }
    } else {
        walk_stamps(
            data,
            stream_limit(data),
            LEN_STREAM_HEADER as int,
            u32_at(data, 4) as nat,
        )
    }
}

/// Reads the stamp header at offset `at`.
fn read_stamp(data: &[u8], at: usize) -> (header: AdsStampHeader)
    requires
        at + LEN_STAMP_HEADER_MIN <= data.len(),
    ensures
        header == stamp_at(data@, at as int),
{
    AdsStampHeader { timestamp: read_u64(data, at), samples: read_u32(data, at + 8) }
}

/// Reads the sample header at offset `at`.
fn read_sample(data: &[u8], at: usize) -> (header: AdsNotificationSample)
    requires
        at + LEN_NOT_SAMPLE_MIN <= data.len(),
    ensures
        header == sample_at(data@, at as int),
{
    AdsNotificationSample { not_hdl: read_u32(data, at), sample_size: read_u32(data, at + 4) }
}

/// The samples of a stream, in their order, and how the walk over it ended.
#[derive(Debug)]
pub struct NotificationScan {
    pub samples: Vec<SampleSpan>,
    pub end: StreamEnd,
}

/// Walks over the samples of one stamp and appends them to `found`. Gives the
/// offset that the walk came to, and how it ended.
fn scan_samples(
    data: &[u8],
    limit: u64,
    from: u64,
    header: AdsStampHeader,
    found: &mut Vec<SampleSpan>,
) -> (r: (u64, StreamEnd))
    requires
        from <= limit <= u32::MAX + 4,
    ensures
        ({
            let w = walk_samples(
                data@,
                limit as int,
                from as int,
                header.samples as nat,
                header.timestamp,
            );
            &&& final(found)@ == old(found)@ + w.samples
            &&& r.0 == w.next
            &&& r.1 == w.end
            &&& r.0 <= limit
        }),
{
    let mut at: u64 = from;
    let mut left: u32 = header.samples;
    let len: u64 = data.len() as u64;
    let ghost whole = walk_samples(
        data@,
        limit as int,
        from as int,
        header.samples as nat,
        header.timestamp,
    );
    let ghost before = found@;
    while left > 0
        invariant
            at <= limit <= u32::MAX + 4,
            len == data@.len(),
            before == old(found)@,
            whole == walk_samples(
                data@,
                limit as int,
                from as int,
                header.samples as nat,
                header.timestamp,
            ),
            ({
                let w = walk_samples(
                    data@,
                    limit as int,
                    at as int,
                    left as nat,
                    header.timestamp,
                );
                &&& before + whole.samples == found@ + w.samples
                &&& whole.next == w.next
                &&& whole.end == w.end
            }),
        decreases left,
    {
        let start: u64 = at + LEN_NOT_SAMPLE_MIN as u64;
        if start > limit {
            return (at, StreamEnd::NotEnoughData);
        }
        if start > len {
            return (at, StreamEnd::OutOfBounds);
        }
        let sample = read_sample(data, at as usize);
        if sample == AdsNotificationSample::default() {
            return (at, StreamEnd::Complete);
        }
        if start + sample.sample_size as u64 > limit {
            return (start, StreamEnd::NotEnoughData);
        }
        let ghost earlier = found@;
        let span = SampleSpan {
            not_hdl: sample.not_hdl,
            timestamp: header.timestamp,
            start,
            size: sample.sample_size,
        };
        found.push(span);
        at = start + sample.sample_size as u64;
        left = left - 1;
        proof {
            let w = walk_samples(data@, limit as int, at as int, left as nat, header.timestamp);
            assert(earlier + (seq![span] + w.samples) =~= earlier.push(span) + w.samples);
        }
    }
    (at, StreamEnd::Complete)
}

/// Walks over a notification stream and lists its samples.
pub fn scan_notification(data: &[u8]) -> (scan: NotificationScan)
    ensures
        scan.samples@ == walk_stream(data@).samples,
        scan.end == walk_stream(data@).end,
{
    let mut found: Vec<SampleSpan> = Vec::new();
    if data.len() < LEN_STREAM_HEADER {
        return NotificationScan { samples: found, end: StreamEnd::OutOfBounds };
    }
    let stream_length: usize = match Client::not_extract_length(data) {
        Ok(size) => size,
        Err(_) => 0,
    };
    let mut left: u32 = match Client::not_extract_stamps(data) {
        Ok(stamps) => stamps,
        Err(_) => 0,
    };
    let limit: u64 = stream_length as u64 + 4;
    let mut at: u64 = LEN_STREAM_HEADER as u64;
    let len: u64 = data.len() as u64;
    let ghost whole = walk_stream(data@);
    while left > 0
        invariant
            at <= u32::MAX + 4,
            limit <= u32::MAX + 4,
            len == data@.len(),
            ({
                let w = walk_stamps(data@, limit as int, at as int, left as nat);
                &&& whole.samples == found@ + w.samples
                &&& whole.end == w.end
            }),
            whole == walk_stream(data@),
        decreases left,
    {
        let first: u64 = at + LEN_STAMP_HEADER_MIN as u64;
        if first > limit {
            return NotificationScan { samples: found, end: StreamEnd::Complete };
        }
        if first > len {
            return NotificationScan { samples: found, end: StreamEnd::OutOfBounds };
        }
        let header = read_stamp(data, at as usize);
        if header == AdsStampHeader::default() {
            return NotificationScan { samples: found, end: StreamEnd::Complete };
        }
        let ghost earlier = found@;
        let (next, end) = scan_samples(data, limit, first, header, &mut found);
        if end != StreamEnd::Complete {
            return NotificationScan { samples: found, end };
        }
        proof {
            let stamp = walk_samples(
                data@,
                limit as int,
                first as int,
                header.samples as nat,
                header.timestamp,
            );
            let rest = walk_stamps(data@, limit as int, next as int, (left - 1) as nat);
            assert(earlier + (stamp.samples + rest.samples) =~= (earlier + stamp.samples)
                + rest.samples);
        }
        at = next;
        left = left - 1;
    }
    NotificationScan { samples: found, end: StreamEnd::Complete }
}

/// A callback, and the notification handle that it was registered for.
#[derive(Debug, Clone)]
pub struct NotHandle<C> {
    pub callback: C,
    pub not_hdl: u32,
}

/// The first entry of the register for the handle `not_hdl`.
pub open spec fn find_handle<C>(register: Seq<NotHandle<C>>, not_hdl: u32) -> Option<NotHandle<C>>
    decreases register.len(),
{
    if register.len() == 0 {
        None
    } else if register[0].not_hdl == not_hdl {
        Some(register[0])
    } else {
        find_handle(register.drop_first(), not_hdl)
    }
}

/// A call that is due: the callback, and what it is called with.
#[derive(Debug)]
pub struct Delivery<C> {
    pub callback: C,
    pub not_hdl: u32,
    pub timestamp: u64,
    pub payload: Bytes,
}

/// What a [`Delivery`] stands for.
pub struct DeliveryView<C> {
    pub callback: C,
    pub not_hdl: u32,
    pub timestamp: u64,
    pub payload: Seq<u8>,
}

impl<C: Clone> Delivery<C> {
    /// The delivery is `due`, with a clone of its callback.
    pub open spec fn delivers(self, due: DeliveryView<C>) -> bool {
        &&& cloned(due.callback, self.callback)
        &&& self.not_hdl == due.not_hdl
        &&& self.timestamp == due.timestamp
        &&& bytes_contents(self.payload) == due.payload
    }
}

/// The calls that are due for a sequence of samples, and the end that the
/// samples come to. A sample without an entry in the register is passed over.
/// At a sample that has one, but not all its bytes, it is over.
pub open spec fn due_deliveries<C>(
    register: Seq<NotHandle<C>>,
    data: Seq<u8>,
    samples: Seq<SampleSpan>,
    end: StreamEnd,
) -> (Seq<DeliveryView<C>>, StreamEnd)
    decreases samples.len(),
{
    if samples.len() == 0 {
        (Seq::empty(), end)
    } else {
        let sample = samples[0];
        let rest = due_deliveries(register, data, samples.drop_first(), end);
        match find_handle(register, sample.not_hdl) {
            None => rest,
            Some(handle) => if sample.stop() > data.len() {
                (Seq::empty(), StreamEnd::OutOfBounds)
            } else {
                let due = DeliveryView {
                    callback: handle.callback,
                    not_hdl: sample.not_hdl,
                    timestamp: sample.timestamp,
                    payload: data.subrange(sample.start as int, sample.stop()),
                };
                (seq![due] + rest.0, rest.1)
            },
        }
    }
}

/// The calls that are due for a notification stream, and the end it comes to.
pub open spec fn due_for_stream<C>(
    register: Seq<NotHandle<C>>,
    data: Seq<u8>,
) -> (Seq<DeliveryView<C>>, StreamEnd) {
    let walk = walk_stream(data);
    due_deliveries(register, data, walk.samples, walk.end)
}

/// The calls that are due for a notification stream, in their order, and how the
/// stream came to its end.
#[derive(Debug)]
pub struct Deliveries<C> {
    pub due: Vec<Delivery<C>>,
    pub end: StreamEnd,
}

impl<C: Clone> Deliveries<C> {
    /// These are the deliveries `due`, and the end `due` has.
    pub open spec fn deliver(self, due: (Seq<DeliveryView<C>>, StreamEnd)) -> bool {
        &&& self.due@.len() == due.0.len()
        &&& forall|i: int| 0 <= i < due.0.len() ==> (#[trigger] self.due@[i]).delivers(due.0[i])
        &&& self.end == due.1
    }
}

/// Finds the first entry of the register for a handle.
pub fn lookup_handle<C>(register: &Vec<NotHandle<C>>, not_hdl: u32) -> (found: Option<
    &NotHandle<C>,
>)
    ensures
        match found {
            Some(handle) => {
                &&& find_handle(register@, not_hdl) == Some(*handle)
                &&& handle.not_hdl == not_hdl
                &&& exists|k: int|
                    {
                        &&& 0 <= k < register@.len()
                        &&& #[trigger] register@[k] == *handle
                        &&& forall|j: int|
                            0 <= j < k ==> (#[trigger] register@[j]).not_hdl != not_hdl
                    }
            },
            None => {
                &&& find_handle(register@, not_hdl) is None
                &&& forall|j: int|
                    0 <= j < register@.len() ==> (#[trigger] register@[j]).not_hdl != not_hdl
            },
        },
{
    let mut i: usize = 0;
    assert(register@.skip(0) =~= register@);
    while i < register.len()
        invariant
            i <= register@.len(),
            find_handle(register@, not_hdl) == find_handle(register@.skip(i as int), not_hdl),
            forall|j: int| 0 <= j < i ==> (#[trigger] register@[j]).not_hdl != not_hdl,
        decreases register@.len() - i,
    {
        if register[i].not_hdl == not_hdl {
            assert(register@[i as int].not_hdl == not_hdl);
            return Some(&register[i]);
        }
        assert(register@.skip(i as int).drop_first() =~= register@.skip(i + 1));
        i = i + 1;
    }
    None
}

impl Client<()> {
    /// Finds the calls that are due for the notification stream `data`: one for
    /// each sample whose handle has an entry in the register, with the time
    /// stamp of the sample and its bytes.
    pub fn process_device_notification<C: Clone>(
        not_register: &Vec<NotHandle<C>>,
        data: &Bytes,
    ) -> (deliveries: Deliveries<C>)
        ensures
            deliveries.deliver(due_for_stream(not_register@, bytes_contents(*data))),
            ({
                let due = due_for_stream(not_register@, bytes_contents(*data));
                &&& deliveries.end == due.1
                &&& deliveries.due@.len() == due.0.len()
                &&& forall|i: int|
                    0 <= i < due.0.len() ==> {
                        let made = #[trigger] deliveries.due@[i];
                        &&& cloned(due.0[i].callback, made.callback)
                        &&& made.not_hdl == due.0[i].not_hdl
                        &&& made.timestamp == due.0[i].timestamp
                        &&& bytes_contents(made.payload) == due.0[i].payload
                    }
            }),
    {
        let stream = as_slice(data);
        let scan = scan_notification(stream);
        let ghost whole = due_for_stream(not_register@, stream@);
        let mut due: Vec<Delivery<C>> = Vec::new();
        let mut i: usize = 0;
        assert(scan.samples@.skip(0) =~= scan.samples@);
        assert(whole.0 =~= Seq::empty() + whole.0);
        let ghost mut done: Seq<DeliveryView<C>> = Seq::empty();
        while i < scan.samples.len()
            invariant
                i <= scan.samples@.len(),
                stream@ == bytes_contents(*data),
                whole == due_for_stream(not_register@, bytes_contents(*data)),
                ({
                    let rest = due_deliveries(
                        not_register@,
                        stream@,
                        scan.samples@.skip(i as int),
                        scan.end,
                    );
                    &&& whole.0 == done + rest.0
                    &&& whole.1 == rest.1
                }),
                due@.len() == done.len(),
                forall|k: int| 0 <= k < done.len() ==> (#[trigger] due@[k]).delivers(done[k]),
            decreases scan.samples@.len() - i,
        {
            let sample = scan.samples[i];
            assert(scan.samples@.skip(i as int).drop_first() =~= scan.samples@.skip(i + 1));
            match lookup_handle(not_register, sample.not_hdl) {
                None => {},
                Some(handle) => {
                    let stop: u128 = sample.start as u128 + sample.size as u128;
                    if stop > stream.len() as u128 {
                        assert(whole.0 =~= done);
                        return Deliveries { due, end: StreamEnd::OutOfBounds };
                    }
                    let payload = slice(data, sample.start as usize, stop as usize);
                    let ghost view = DeliveryView {
                        callback: handle.callback,
                        not_hdl: sample.not_hdl,
                        timestamp: sample.timestamp,
                        payload: stream@.subrange(sample.start as int, sample.stop()),
                    };
                    due.push(
                        Delivery {
                            callback: handle.callback.clone(),
                            not_hdl: sample.not_hdl,
                            timestamp: sample.timestamp,
                            payload,
                        },
                    );
                    proof {
                        let rest = due_deliveries(
                            not_register@,
                            stream@,
                            scan.samples@.skip(i + 1),
                            scan.end,
                        );
                        assert(done + (seq![view] + rest.0) =~= done.push(view) + rest.0);
                        done = done.push(view);
                    }
                },
            }
            i = i + 1;
        }
        assert(whole.0 =~= done);
        Deliveries { due, end: scan.end }
    }
}

} // verus!
