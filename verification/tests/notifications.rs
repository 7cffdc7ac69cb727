use ads_client::notification::{
    lookup_handle, scan_notification, AdsNotificationSample, AdsStampHeader, Deliveries, NotHandle,
    StreamEnd,
};
use ads_client::{AmsNetId, Client};
use bytes::Bytes;

fn sample(not_hdl: u32, payload: &[u8]) -> Vec<u8> {
    let mut bytes = not_hdl.to_ne_bytes().to_vec();
    bytes.extend_from_slice(&(payload.len() as u32).to_ne_bytes());
    bytes.extend_from_slice(payload);
    bytes
}

fn stamp(timestamp: u64, samples: &[Vec<u8>]) -> Vec<u8> {
    let mut bytes = timestamp.to_ne_bytes().to_vec();
    bytes.extend_from_slice(&(samples.len() as u32).to_ne_bytes());
    bytes.extend_from_slice(&samples.concat());
    bytes
}

fn stream(stamps: &[Vec<u8>]) -> Vec<u8> {
    let body = stamps.concat();
    let mut bytes = (body.len() as u32 + 4).to_ne_bytes().to_vec();
    bytes.extend_from_slice(&(stamps.len() as u32).to_ne_bytes());
    bytes.extend_from_slice(&body);
    bytes
}

fn register() -> Vec<NotHandle<char>> {
    vec![
        NotHandle { callback: 'a', not_hdl: 1 },
        NotHandle { callback: 'b', not_hdl: 2 },
        NotHandle { callback: 'c', not_hdl: 1 },
    ]
}

fn process(bytes: Vec<u8>) -> Deliveries<char> {
    Client::process_device_notification(&register(), &Bytes::from(bytes))
}

fn calls(deliveries: &Deliveries<char>) -> Vec<(char, u32, u64, Vec<u8>)> {
    deliveries
        .due
        .iter()
        .map(|d| (d.callback, d.not_hdl, d.timestamp, d.payload.to_vec()))
        .collect()
}

#[test]
fn every_registered_sample_is_delivered_in_order() {
    let found = process(stream(&[
        stamp(100, &[sample(2, &[7, 8]), sample(9, &[1, 1, 1]), sample(1, &[])]),
        stamp(200, &[sample(1, &[5])]),
    ]));
    let expected = vec![
        ('b', 2, 100, vec![7, 8]),
        ('a', 1, 100, vec![]),
        ('a', 1, 200, vec![5]),
    ];
    assert_eq!(calls(&found), expected);
    assert_eq!(found.end, StreamEnd::Complete);
}

#[test]
fn spans_of_the_samples() {
    let data = stream(&[stamp(1, &[sample(2, &[7, 8]), sample(3, &[9])])]);
    let scan = scan_notification(&data);
    let spans: Vec<(u64, u32)> = scan.samples.iter().map(|s| (s.start, s.size)).collect();
    assert_eq!(spans, vec![(28, 2), (38, 1)]);
    assert_eq!(Client::not_extract_length(&data).unwrap(), 35);
    assert_eq!(Client::not_extract_stamps(&data).unwrap(), 1);
}

#[test]
fn sample_header_of_zeros_ends_its_stamp() {
    let found = process(stream(&[stamp(100, &[sample(0, &[]), sample(1, &[5])])]));
    assert!(found.due.is_empty());
    assert_eq!(found.end, StreamEnd::Complete);
}

#[test]
fn stamp_header_of_zeros_ends_the_stream() {
    let found = process(stream(&[stamp(0, &[]), stamp(100, &[sample(1, &[5])])]));
    assert!(found.due.is_empty());
    assert_eq!(found.end, StreamEnd::Complete);
}

#[test]
fn stamp_that_does_not_fit_is_no_stamp() {
    let mut data = stream(&[stamp(100, &[sample(1, &[5])])]);
    data[4..8].copy_from_slice(&3u32.to_ne_bytes());
    let found = process(data);
    assert_eq!(calls(&found), vec![('a', 1, 100, vec![5])]);
    assert_eq!(found.end, StreamEnd::Complete);
}

#[test]
fn sample_header_beyond_the_stream_ends_it() {
    let mut data = stream(&[stamp(100, &[sample(1, &[5])])]);
    data[16..20].copy_from_slice(&2u32.to_ne_bytes());
    let found = process(data);
    assert_eq!(calls(&found), vec![('a', 1, 100, vec![5])]);
    assert_eq!(found.end, StreamEnd::NotEnoughData);
}

#[test]
fn sample_beyond_the_stream_ends_it() {
    let mut data = stream(&[stamp(100, &[sample(1, &[5])])]);
    data[24..28].copy_from_slice(&2u32.to_ne_bytes());
    let found = process(data);
    assert!(found.due.is_empty());
    assert_eq!(found.end, StreamEnd::NotEnoughData);
}

#[test]
fn missing_bytes_are_noticed() {
    let data = stream(&[stamp(100, &[sample(2, &[6]), sample(1, &[5, 5])])]);
    let cut = data[..data.len() - 1].to_vec();
    let found = process(cut);
    assert_eq!(calls(&found), vec![('b', 2, 100, vec![6])]);
    assert_eq!(found.end, StreamEnd::OutOfBounds);
    assert_eq!(process(data[..24].to_vec()).end, StreamEnd::OutOfBounds);
    assert_eq!(process(data[..12].to_vec()).end, StreamEnd::OutOfBounds);
    assert_eq!(process(data[..7].to_vec()).end, StreamEnd::OutOfBounds);
}

#[test]
fn missing_bytes_of_a_sample_that_nobody_waits_for_do_not_matter() {
    let data = stream(&[stamp(100, &[sample(2, &[6]), sample(9, &[5, 5])])]);
    let found = process(data[..data.len() - 1].to_vec());
    assert_eq!(calls(&found), vec![('b', 2, 100, vec![6])]);
    assert_eq!(found.end, StreamEnd::Complete);
}

#[test]
fn bytes_behind_the_stream_change_nothing() {
    let data = stream(&[stamp(100, &[sample(1, &[5])])]);
    let mut longer = data.clone();
    longer.extend_from_slice(&[1, 2, 3, 4, 5, 6, 7, 8, 9, 10, 11, 12, 13]);
    assert_eq!(calls(&process(longer)), calls(&process(data)));
}

#[test]
fn first_registration_counts() {
    let register = register();
    assert_eq!(lookup_handle(&register, 1).unwrap().callback, 'a');
    assert!(lookup_handle(&register, 3).is_none());
}

#[test]
fn callbacks_are_registered_in_order() {
    let made = Client::<u8>::new(
        (AmsNetId([1; 6]), 1),
        Some((AmsNetId([2; 6]), 2)),
        ads_client::AdsTimeout::DefaultTimeout,
        None,
        None,
    );
    let mut client = made.unwrap().0;
    client.register_not_handle(4, 40);
    client.register_not_handle(5, 50);
    let entries: Vec<(u32, u8)> =
        client.not_handles.iter().map(|h| (h.not_hdl, h.callback)).collect();
    assert_eq!(entries, vec![(4, 40), (5, 50)]);
}

#[test]
fn empty_headers() {
    assert_eq!(AdsStampHeader::default(), AdsStampHeader { timestamp: 0, samples: 0 });
    let sample = AdsNotificationSample { not_hdl: 0, sample_size: 0 };
    assert_eq!(AdsNotificationSample::default(), sample);
}
