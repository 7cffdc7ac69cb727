use std::time::Duration;

use ads_client::channel::HandleData;
use ads_client::command::{take_command_handle, CommandWriteHandle};
use ads_client::response::{Action, ProcessStateMachine, ReadEvent, ResponseReader};
use ads_client::{AdsCommand, AdsError, AdsTimeout, AmsAddr, AmsNetId, Client, ClientBuilder};
use bytes::{Bytes, BytesMut};

const TARGET: AmsAddr = (AmsNetId([5, 80, 201, 232, 1, 1]), 851);
const SOURCE: AmsAddr = (AmsNetId([10, 11, 12, 13, 14, 15]), 0x8001);

fn client() -> Client<u32> {
    let made: Result<(Client<u32>, ResponseReader), AdsError> =
        ClientBuilder::new(TARGET).src_ams_addr(SOURCE).build(None);
    made.unwrap().0
}

fn filled(bytes: &[u8]) -> ReadEvent {
    ReadEvent::Filled(BytesMut::from(bytes))
}

fn response_header(cmd: u16, length: u32, error: u32, invoke_id: u32) -> [u8; 38] {
    let mut header = [0xEE; 38];
    header[22..24].copy_from_slice(&cmd.to_ne_bytes());
    header[26..30].copy_from_slice(&length.to_ne_bytes());
    header[30..34].copy_from_slice(&error.to_ne_bytes());
    header[34..38].copy_from_slice(&invoke_id.to_ne_bytes());
    header
}

#[test]
fn builder_defaults() {
    let builder = ClientBuilder::new(TARGET);
    assert_eq!(builder.router_addr, ([127, 0, 0, 1], 48898));
    assert_eq!(builder.dst_ams_addr, TARGET);
    assert_eq!(builder.src_ams_addr, None);
    assert_eq!(builder.timeout, AdsTimeout::DefaultTimeout);
    assert_eq!(builder.retry_delay, None);
}

#[test]
fn builder_keeps_what_it_is_given() {
    let delay = Some(Duration::from_millis(250));
    let builder = ClientBuilder::new(TARGET)
        .timeout(AdsTimeout::CustomTimeout(7))
        .retry_delay(None)
        .retry_delay(delay)
        .src_ams_addr(SOURCE)
        .router_addr("router:1");
    let again = builder.clone();
    assert_eq!(again.router_addr, "router:1");
    assert_eq!(again.src_ams_addr, Some(SOURCE));
    let made: Result<(Client<u32>, ResponseReader), AdsError> = builder.build(None);
    let (client, reader) = made.unwrap();
    assert_eq!(client.timeout, 7);
    assert_eq!(client.dst_ams_addr, TARGET);
    assert_eq!(client.src_ams_addr, SOURCE);
    assert_eq!(client.hdl_cnt, 1);
    assert!(client.cmd_handles.is_empty());
    assert!(client.not_handles.is_empty());
    assert_eq!(reader.state, ProcessStateMachine::ReadHeader);
    assert_eq!(reader.retry_delay, delay);
}

#[test]
fn order_of_builder_calls_does_not_matter() {
    let one = ClientBuilder::new(TARGET)
        .src_ams_addr(SOURCE)
        .router_addr(3)
        .timeout(AdsTimeout::CustomTimeout(1));
    let other = ClientBuilder::new(TARGET)
        .timeout(AdsTimeout::CustomTimeout(1))
        .router_addr(3)
        .src_ams_addr(SOURCE);
    assert_eq!(format!("{:?}", one), format!("{:?}", other));
}

#[test]
fn default_timeout_is_five_seconds() {
    assert_eq!(client().timeout, 5);
    assert_eq!(AdsTimeout::default().seconds(), 5);
    assert_eq!(AdsTimeout::CustomTimeout(60).seconds(), 60);
}

#[test]
fn router_is_asked_for_an_address_only_where_none_was_given() {
    assert_eq!(Client::connect_request(&None), Some([0x00, 0x10, 0x02, 0, 0, 0, 0, 0]));
    assert_eq!(Client::connect_request(&Some(SOURCE)), None);
}

#[test]
fn address_comes_from_the_answer_of_the_router() {
    let [first, second] = 0x1234u16.to_ne_bytes();
    let answer = [0, 16, 8, 0, 0, 0, 1, 2, 3, 4, 5, 6, first, second];
    let made: Result<(Client<u32>, ResponseReader), AdsError> =
        ClientBuilder::new(TARGET).build(Some(answer));
    assert_eq!(made.unwrap().0.src_ams_addr, (AmsNetId([1, 2, 3, 4, 5, 6]), 0x1234));
    let given = Client::connect(&Some(SOURCE), &Some(answer));
    assert_eq!(given.unwrap(), SOURCE);
}

#[test]
fn silent_router_is_an_error() {
    let made: Result<(Client<u32>, ResponseReader), AdsError> =
        ClientBuilder::new(TARGET).build(None);
    let error = made.unwrap_err();
    assert_eq!(error.n_error, 18);
    assert_eq!(error.s_msg, "Port disabled \u{2013} TwinCAT system service not started.");
}

#[test]
fn failed_write_is_an_error() {
    assert!(Client::socket_write(true).is_ok());
    let error = Client::socket_write(false).unwrap_err();
    assert_eq!(error.n_error, 10);
    assert_eq!(error.s_msg, "Writing to Tcp Stream socket failed");
}

#[test]
fn request_header_bytes() {
    let header = client().c_init_ams_header(0x0102_0304, Some(12), AdsCommand::ReadWrite);
    let mut expected: [u8; 38] = [
        0, 0, 0, 0, 0, 0, 5, 80, 201, 232, 1, 1, 0x53, 0x03, 10, 11, 12, 13, 14, 15, 0x01, 0x80,
        0, 0, 4, 0, 0, 0, 0, 0, 0, 0, 0, 0, 0, 0, 0, 0,
    ];
    expected[2..6].copy_from_slice(&44u32.to_ne_bytes());
    expected[22..24].copy_from_slice(&9u16.to_ne_bytes());
    expected[26..30].copy_from_slice(&12u32.to_ne_bytes());
    expected[34..38].copy_from_slice(&0x0102_0304u32.to_ne_bytes());
    assert_eq!(header, expected);
    let empty = client().c_init_ams_header(1, None, AdsCommand::ReadState);
    assert_eq!(&empty[2..6], &32u32.to_ne_bytes());
    assert_eq!(&empty[26..30], &[0, 0, 0, 0]);
}

#[test]
fn request_is_filled_into_whatever_header_is_shared() {
    let mut client = client();
    client.ams_header = [0xAA; 38];
    let header = client.c_init_ams_header(7, Some(1), AdsCommand::Read);
    let mut expected = [0xAA; 38];
    expected[2..6].copy_from_slice(&33u32.to_ne_bytes());
    expected[22..24].copy_from_slice(&2u16.to_ne_bytes());
    expected[26..30].copy_from_slice(&1u32.to_ne_bytes());
    expected[34..38].copy_from_slice(&7u32.to_ne_bytes());
    assert_eq!(header, expected);
}

/// Reads `bytes` in the pieces that the reader asks for, and lists what it does.
fn read_all(reader: &mut ResponseReader, mut bytes: &[u8]) -> Vec<(u32, Vec<u8>)> {
    let mut done = Vec::new();
    while bytes.len() >= reader.state.size() {
        let (piece, rest) = bytes.split_at(reader.state.size());
        bytes = rest;
        match Client::process_response(reader, filled(piece)) {
            Action::Response { invoke_id, data, .. } => done.push((invoke_id, data.to_vec())),
            Action::Notification(data) => done.push((0, data.to_vec())),
            _ => {}
        }
    }
    done
}

#[test]
fn frames_are_found_in_a_stream_of_bytes() {
    let mut bytes = response_header(2, 3, 0, 11).to_vec();
    bytes.extend_from_slice(&[1, 2, 3]);
    bytes.extend_from_slice(&response_header(3, 0, 0, 12));
    bytes.extend_from_slice(&response_header(8, 1, 0, 13));
    bytes.push(4);
    bytes.extend_from_slice(&response_header(2, 2, 0, 14));
    bytes.push(5);
    let mut reader = ResponseReader { state: ProcessStateMachine::ReadHeader, retry_delay: None };
    assert_eq!(read_all(&mut reader, &bytes), vec![(11, vec![1, 2, 3]), (0, vec![4])]);
    assert_eq!(reader.state.size(), 2);
}

#[test]
fn header_fields_are_read_back() {
    let header = client().c_init_ams_header(77, Some(300), AdsCommand::Write);
    assert_eq!(Client::extract_length(&header).unwrap(), 300);
    assert_eq!(Client::extract_error_code(&header).unwrap(), 0);
    assert_eq!(Client::extract_invoke_id(&header).unwrap(), 77);
    assert_eq!(Client::extract_cmd_tyte(&header).unwrap(), AdsCommand::Write);
    let header = response_header(2, 5, 0x0706, 9);
    assert_eq!(Client::extract_error_code(&header).unwrap(), 0x0706);
}

#[test]
fn command_codes() {
    for code in 0..10u16 {
        assert_eq!(AdsCommand::from_code(code).unwrap().code(), code);
    }
    assert_eq!(AdsCommand::from_code(8).unwrap(), AdsCommand::DeviceNotification);
    assert_eq!(AdsCommand::from_code(10).unwrap_err().n_error, 8);
    let error = Client::extract_cmd_tyte(&response_header(0x0208, 1, 0, 1)).unwrap_err();
    assert_eq!(error.s_msg, "Unknown command ID");
}

#[test]
fn return_codes() {
    assert_eq!(Client::eval_return_code(&[0, 0, 0, 0, 9]).unwrap(), 0);
    let error = Client::eval_return_code(&0x0710u32.to_ne_bytes()).unwrap_err();
    assert_eq!(error.n_error, 0x0710);
    assert_eq!(error.s_msg, "Errorcode of ADS response");
    assert!(Client::eval_ams_error(0).is_ok());
    let error = Client::eval_ams_error(6).unwrap_err();
    assert_eq!(error.n_error, 6);
    assert_eq!(error.s_msg, "Errorcode of ADS response");
}

#[test]
fn invoke_ids_count_up_and_start_again() {
    let mut client = client();
    assert_eq!(client.create_invoke_id(), 1);
    assert_eq!(client.create_invoke_id(), 2);
    client.hdl_cnt = 0xFFFF;
    assert_eq!(client.create_invoke_id(), 0xFFFF);
    assert_eq!(client.create_invoke_id(), 0);
}

#[test]
fn buffers_have_the_size_of_what_is_read() {
    let header = ProcessStateMachine::ReadHeader.buffer();
    assert_eq!(&header[..], &[0u8; 38][..]);
    let payload = ProcessStateMachine::ReadPayload {
        len_payload: 3,
        err_code: 0,
        invoke_id: 1,
        cmd: AdsCommand::Read,
    };
    assert_eq!(payload.size(), 3);
    assert_eq!(&payload.buffer()[..], &[0u8; 3][..]);
}

#[test]
fn frames_lead_to_their_actions() {
    let mut reader = ResponseReader { state: ProcessStateMachine::ReadHeader, retry_delay: None };
    let action = Client::process_response(&mut reader, filled(&response_header(2, 3, 7, 42)));
    assert!(matches!(action, Action::Read));
    let expected = ProcessStateMachine::ReadPayload {
        len_payload: 3,
        err_code: 7,
        invoke_id: 42,
        cmd: AdsCommand::Read,
    };
    assert_eq!(reader.state, expected);
    match Client::process_response(&mut reader, filled(&[1, 2, 3])) {
        Action::Response { err_code, invoke_id, data } => {
            assert_eq!((err_code, invoke_id), (7, 42));
            assert_eq!(data, Bytes::from_static(&[1, 2, 3]));
        }
        other => panic!("{:?}", other),
    }
    assert_eq!(reader.state, ProcessStateMachine::ReadHeader);

    Client::process_response(&mut reader, filled(&response_header(8, 1, 0, 0)));
    match Client::process_response(&mut reader, filled(&[9])) {
        Action::Notification(data) => assert_eq!(data, Bytes::from_static(&[9])),
        other => panic!("{:?}", other),
    }
}

#[test]
fn header_without_payload_is_skipped() {
    let mut reader = ResponseReader { state: ProcessStateMachine::ReadHeader, retry_delay: None };
    let action = Client::process_response(&mut reader, filled(&response_header(2, 0, 7, 42)));
    assert!(matches!(action, Action::Read));
    assert_eq!(reader.state, ProcessStateMachine::ReadHeader);
}

#[test]
fn unknown_command_counts_as_a_response() {
    let state = Client::process_header(&response_header(99, 4, 1, 2));
    let expected = ProcessStateMachine::ReadPayload {
        len_payload: 4,
        err_code: 1,
        invoke_id: 2,
        cmd: AdsCommand::Invalid,
    };
    assert_eq!(state, expected);
}

#[test]
fn interruptions_keep_the_state() {
    let delay = Duration::from_secs(2);
    let state = ProcessStateMachine::ReadPayload {
        len_payload: 4,
        err_code: 1,
        invoke_id: 2,
        cmd: AdsCommand::Read,
    };
    let mut reader = ResponseReader { state, retry_delay: Some(delay) };
    let action = Client::process_response(&mut reader, ReadEvent::Failed);
    assert!(matches!(action, Action::Wait(d) if d == delay));
    assert_eq!(reader.state, state);
    assert!(matches!(
        Client::process_response(&mut reader, ReadEvent::WouldBlock),
        Action::Read
    ));
    assert_eq!(reader.state, state);
    reader.retry_delay = None;
    assert!(matches!(Client::process_response(&mut reader, ReadEvent::Failed), Action::Read));
    assert_eq!(reader.state, state);
    assert!(matches!(Client::process_response(&mut reader, ReadEvent::Empty), Action::Read));
    assert_eq!(reader.state, ProcessStateMachine::ReadHeader);
}

#[test]
fn response_reaches_its_request() {
    let mut client = client();
    let mut first = client.register_command_handle(1, AdsCommand::Read);
    let mut second = client.register_command_handle(2, AdsCommand::Write);
    let mut third = client.register_command_handle(3, AdsCommand::ReadState);
    assert_eq!((second.invoke_id, second.cmd_type), (2, AdsCommand::Write));

    let data = Bytes::from_static(&[4, 5]);
    let written = Client::process_command(6, 1, &mut client.cmd_handles, data.clone());
    assert!(matches!(written, Some(Ok(()))));
    let HandleData { ams_err, payload } = first.data_receiver.try_recv().unwrap();
    assert_eq!(ams_err, 6);
    assert_eq!(payload, data);
    assert!(second.data_receiver.try_recv().is_err());
    assert!(third.data_receiver.try_recv().is_err());
    let ids: Vec<u32> = client.cmd_handles.iter().map(|handle| handle.invoke_id).collect();
    assert_eq!(ids, vec![3, 2]);
}

#[test]
fn response_without_a_request_expires() {
    let mut client = client();
    let _handle = client.register_command_handle(1, AdsCommand::Read);
    let written = Client::process_command(0, 2, &mut client.cmd_handles, Bytes::new());
    assert!(written.is_none());
    assert_eq!(client.cmd_handles.len(), 1);
}

#[test]
fn response_comes_back_where_nobody_waits() {
    let mut client = client();
    drop(client.register_command_handle(1, AdsCommand::Read));
    let data = Bytes::from_static(&[8]);
    let written = Client::process_command(3, 1, &mut client.cmd_handles, data.clone());
    let back = written.unwrap().unwrap_err();
    assert_eq!((back.ams_err, back.payload), (3, data));
    assert!(client.cmd_handles.is_empty());
}

#[test]
fn first_of_two_requests_with_one_id_is_taken() {
    let mut client = client();
    let _first = client.register_command_handle(5, AdsCommand::Read);
    let _second = client.register_command_handle(5, AdsCommand::Write);
    let taken: CommandWriteHandle = take_command_handle(&mut client.cmd_handles, 5).unwrap();
    assert_eq!(taken.cmd_type, AdsCommand::Read);
    assert!(take_command_handle(&mut client.cmd_handles, 4).is_none());
}
