//! What holds of calls: what one call gives for every input, and how calls that
//! follow each other hang together.

use crate::buffer::{buffer_contents, bytes_contents};
use crate::builder::ClientBuilder;
use crate::channel::{same_channel, sent, HandleData};
use crate::client::{law_router_gives_the_address, Client};
use crate::command::{
    command_index, law_command_index, law_registered_request_is_found, take_command_handle,
    CommandReadHandle, CommandWriteHandle,
};
use crate::header::{law_request_is_addressed, law_request_is_filled_in, with_request, HEADER_SIZE};
use crate::notification::{
    due_for_stream, lookup_handle, scan_notification, walk_stream, AdsNotificationSample,
    AdsStampHeader, Deliveries, DeliveryView, NotHandle, NotificationScan, StreamEnd,
};
use crate::response::{
    behind_header, law_behind_header, Action, ProcessStateMachine, ReadEvent, ResponseReader,
};
use crate::stream_laws::{
    law_every_sent_sample_arrives, law_first_entry_is_found, law_lone_sample,
    law_samples_in_order, law_stated_lengths_count, stamps_bytes, stream_bytes, StampData,
};
use crate::types::{
    command_of, law_command_numbers, AdsCommand, AdsError, AdsTimeout, AmsAddr, AmsNetId,
};
use crate::wire::{
    encode_low_first, lemma_u16_at, lemma_u32_at, lemma_u64_at, read_u16, read_u32, read_u64,
    u16_at, u16_bytes, u16_low_first_at, u32_at, u32_bytes, u64_bytes,
};
use bytes::{Bytes, BytesMut};
use std::time::Duration;
use vstd::prelude::*;

verus! {

/// An integer is read where its bytes stand, whatever stands around them.
pub proof fn law_reading_integers(
    before: Seq<u8>,
    after: Seq<u8>,
    at: usize,
    a: u16,
    b: u32,
    c: u64,
    s: &[u8],
    r16: u16,
    r32: u32,
    r64: u64,
)
    requires
        before.len() == at,
    ensures
        s@ == before + u16_bytes(a) + after && call_ensures(read_u16, (s, at), r16) ==> r16 == a,
        s@ == before + u32_bytes(b) + after && call_ensures(read_u32, (s, at), r32) ==> r32 == b,
        s@ == before + u64_bytes(c) + after && call_ensures(read_u64, (s, at), r64) ==> r64 == c,
{
    lemma_u16_at(before, a, after);
    lemma_u32_at(before, b, after);
    lemma_u64_at(before, c, after);
}

/// Low byte first, the two bytes of a number are its low and its high byte.
pub proof fn law_writing_low_first(v: u16, bytes: [u8; 2])
    requires
        call_ensures(encode_low_first, (v,), bytes),
    ensures
        bytes@[0] + 256 * bytes@[1] == v,
{
}

/// A custom timeout is as many seconds as it says, and the default one is five.
pub proof fn law_seconds(time: u64, custom: u64, unset: AdsTimeout, default: u64)
    requires
        call_ensures(AdsTimeout::seconds, (AdsTimeout::CustomTimeout(time),), custom),
        call_ensures(AdsTimeout::default, (), unset),
        call_ensures(AdsTimeout::seconds, (unset,), default),
    ensures
        custom == time,
        default == 5,
{
}

/// The code of a command leads back to it; every code up to nine has a command,
/// whose code it is, and every other code is error 8.
pub proof fn law_codes_there_and_back(
    cmd: AdsCommand,
    code: u16,
    back: Result<AdsCommand, AdsError>,
    any: u16,
    found: Result<AdsCommand, AdsError>,
    again: u16,
)
    requires
        call_ensures(AdsCommand::code, (cmd,), code),
        call_ensures(AdsCommand::from_code, (code,), back),
        call_ensures(AdsCommand::from_code, (any,), found),
        found matches Ok(known) ==> call_ensures(AdsCommand::code, (known,), again),
    ensures
        back == Ok::<AdsCommand, AdsError>(cmd),
        found is Ok <==> any <= 9,
        found is Ok ==> again == any,
        found matches Err(e) ==> e.n_error == 8 && e.s_msg@ == "Unknown command ID"@,
{
    law_command_numbers(code);
    law_command_numbers(any);
}

/// An error has the code and the text that it was made with.
pub proof fn law_new_error(n_error: u32, s_msg: &str, error: AdsError)
    requires
        call_ensures(AdsError::new, (n_error, s_msg), error),
    ensures
        error.n_error == n_error,
        error.s_msg@ == s_msg@,
{
}

/// Without more ado, a command is `Invalid`, and the headers of stamps and samples
/// are zero.
pub proof fn law_defaults(
    cmd: AdsCommand,
    stamp: AdsStampHeader,
    sample: AdsNotificationSample,
)
    requires
        call_ensures(AdsCommand::default, (), cmd),
        call_ensures(AdsStampHeader::default, (), stamp),
        call_ensures(AdsNotificationSample::default, (), sample),
    ensures
        cmd == AdsCommand::Invalid,
        stamp.timestamp == 0 && stamp.samples == 0,
        sample.not_hdl == 0 && sample.sample_size == 0,
{
}

/// The bytes of a header: anything up to the command, the command, any state
/// flags, the length of the payload, the error code and the invoke id, and
/// anything behind.
pub open spec fn is_header(
    header: Seq<u8>,
    head: Seq<u8>,
    code: u16,
    flags: Seq<u8>,
    length: u32,
    err_code: u32,
    invoke_id: u32,
    tail: Seq<u8>,
) -> bool {
    &&& head.len() == 22
    &&& flags.len() == 2
    &&& header == head + u16_bytes(code) + flags + u32_bytes(length) + u32_bytes(err_code)
        + u32_bytes(invoke_id) + tail
}

proof fn lemma_fields_of_header(
    header: Seq<u8>,
    head: Seq<u8>,
    code: u16,
    flags: Seq<u8>,
    length: u32,
    err_code: u32,
    invoke_id: u32,
    tail: Seq<u8>,
)
    requires
        is_header(header, head, code, flags, length, err_code, invoke_id, tail),
    ensures
        u16_at(header, 22) == code,
        u32_at(header, 26) == length,
        u32_at(header, 30) == err_code,
        u32_at(header, 34) == invoke_id,
{
    let n = header.len() as int;
    lemma_u16_at(head, code, header.subrange(24, n));
    assert(head + u16_bytes(code) + header.subrange(24, n) =~= header);
    lemma_u32_at(header.subrange(0, 26), length, header.subrange(30, n));
    assert(header.subrange(0, 26) + u32_bytes(length) + header.subrange(30, n) =~= header);
    lemma_u32_at(header.subrange(0, 30), err_code, header.subrange(34, n));
    assert(header.subrange(0, 30) + u32_bytes(err_code) + header.subrange(34, n) =~= header);
    lemma_u32_at(header.subrange(0, 34), invoke_id, header.subrange(38, n));
    assert(header.subrange(0, 34) + u32_bytes(invoke_id) + header.subrange(38, n) =~= header);
}

/// What was written into a header is what is read out of it, whatever the
/// addresses and the state flags are: each field by itself, and all of them
/// together where the header states a payload.
pub proof fn law_header_is_read(
    header: &[u8],
    head: Seq<u8>,
    code: u16,
    flags: Seq<u8>,
    length: u32,
    err_code: u32,
    invoke_id: u32,
    tail: Seq<u8>,
    cmd_read: Result<AdsCommand, AdsError>,
    length_read: Result<usize, AdsError>,
    error_read: Result<u32, AdsError>,
    id_read: Result<u32, AdsError>,
    state: ProcessStateMachine,
)
    requires
        is_header(header@, head, code, flags, length, err_code, invoke_id, tail),
        call_ensures(Client::<()>::extract_cmd_tyte, (header,), cmd_read),
        call_ensures(Client::<()>::extract_length, (header,), length_read),
        call_ensures(Client::<()>::extract_error_code, (header,), error_read),
        call_ensures(Client::<()>::extract_invoke_id, (header,), id_read),
        call_ensures(Client::<()>::process_header, (header,), state),
    ensures
        cmd_read is Ok <==> code <= 9,
        cmd_read matches Ok(cmd) ==> cmd.as_code() == code,
        cmd_read matches Err(e) ==> e.n_error == 8 && e.s_msg@ == "Unknown command ID"@,
        length_read matches Ok(l) && l == length,
        error_read == Ok::<u32, AdsError>(err_code),
        id_read == Ok::<u32, AdsError>(invoke_id),
        length == 0 ==> state is ReadHeader,
        length > 0 ==> (state matches ProcessStateMachine::ReadPayload {
            len_payload,
            err_code: error,
            invoke_id: id,
            cmd,
        } && {
            &&& len_payload == length
            &&& error == err_code
            &&& id == invoke_id
            &&& code <= 9 ==> cmd.as_code() == code
            &&& code > 9 ==> cmd == AdsCommand::Invalid
        }),
{
    lemma_fields_of_header(header@, head, code, flags, length, err_code, invoke_id, tail);
    law_command_numbers(code);
}

/// A code of zero is no error, in a payload as in a header; any other code is the
/// error that has it.
pub proof fn law_codes_are_judged(
    code: u32,
    rest: Seq<u8>,
    answer: &[u8],
    judged: Result<u32, AdsError>,
    r: Result<(), AdsError>,
)
    requires
        answer@ == u32_bytes(code) + rest,
        call_ensures(Client::<()>::eval_return_code, (answer,), judged),
        call_ensures(Client::<()>::eval_ams_error, (code,), r),
    ensures
        code == 0 ==> judged == Ok::<u32, AdsError>(0) && r is Ok,
        code != 0 ==> (judged matches Err(e) && e.n_error == code && e.s_msg@
            == "Errorcode of ADS response"@),
        code != 0 ==> (r matches Err(e) && e.n_error == code && e.s_msg@
            == "Errorcode of ADS response"@),
{
    lemma_u32_at(Seq::empty(), code, rest);
    assert(Seq::<u8>::empty() + u32_bytes(code) + rest =~= answer@);
}

/// What a notification stream starts with is read as its length and its number of
/// stamps.
pub proof fn law_stream_header_is_read(
    length: u32,
    stamps: u32,
    rest: Seq<u8>,
    answer: &[u8],
    length_read: Result<usize, AdsError>,
    stamps_read: Result<u32, AdsError>,
)
    requires
        answer@ == u32_bytes(length) + u32_bytes(stamps) + rest,
        call_ensures(Client::<()>::not_extract_length, (answer,), length_read),
        call_ensures(Client::<()>::not_extract_stamps, (answer,), stamps_read),
    ensures
        length_read matches Ok(l) && l == length,
        stamps_read == Ok::<u32, AdsError>(stamps),
{
    lemma_u32_at(Seq::empty(), length, u32_bytes(stamps) + rest);
    assert(Seq::<u8>::empty() + u32_bytes(length) + (u32_bytes(stamps) + rest) =~= answer@);
    lemma_u32_at(u32_bytes(length), stamps, rest);
}

/// A client without an address asks for one, and goes by what the answer holds
/// behind its first six bytes: the NetId and the port, whatever they are. Without
/// an answer there is error 18. A client with an address asks for none and keeps
/// its own.
pub proof fn law_connecting(
    given: AmsAddr,
    lead: Seq<u8>,
    net_id: AmsNetId,
    port: u16,
    answer: [u8; 14],
    any: Option<[u8; 14]>,
    asked: Option<[u8; 8]>,
    not_asked: Option<[u8; 8]>,
    answered: Result<AmsAddr, AdsError>,
    silent: Result<AmsAddr, AdsError>,
    kept: Result<AmsAddr, AdsError>,
)
    requires
        lead.len() == 6,
        answer@ == lead + net_id.0@ + u16_bytes(port),
        call_ensures(Client::<()>::connect_request, (&None,), asked),
        call_ensures(Client::<()>::connect_request, (&Some(given),), not_asked),
        call_ensures(Client::<()>::connect, (&None, &Some(answer)), answered),
        call_ensures(Client::<()>::connect, (&None, &None), silent),
        call_ensures(Client::<()>::connect, (&Some(given), &any), kept),
    ensures
        asked matches Some(bytes) && bytes@ == seq![0u8, 16u8, 2u8, 0u8, 0u8, 0u8, 0u8, 0u8],
        not_asked is None,
        answered == Ok::<AmsAddr, AdsError>((net_id, port)),
        silent matches Err(e) && e.n_error == 18 && e.s_msg@
            == "Port disabled – TwinCAT system service not started."@,
        kept == Ok::<AmsAddr, AdsError>(given),
{
    law_router_gives_the_address(lead, net_id, port, answer, answered->Ok_0);
}

/// What was not written to the socket is error 10.
pub proof fn law_writing(written: bool, r: Result<(), AdsError>)
    requires
        call_ensures(Client::<()>::socket_write, (written,), r),
    ensures
        r is Ok <==> written,
        r matches Err(e) ==> e.n_error == 10 && e.s_msg@ == "Writing to Tcp Stream socket failed"@,
{
}

/// A builder holds what it was given last and what it started with; nothing else
/// of it changes.
pub proof fn law_building<S>(
    dst_ams_addr: AmsAddr,
    router_addr: S,
    src_ams_addr: AmsAddr,
    timeout: AdsTimeout,
    retry_delay: Option<Duration>,
    b0: ClientBuilder<([u8; 4], u16)>,
    b1: ClientBuilder<S>,
    b2: ClientBuilder<S>,
    b3: ClientBuilder<S>,
    b4: ClientBuilder<S>,
)
    requires
        call_ensures(ClientBuilder::<()>::new, (dst_ams_addr,), b0),
        call_ensures(ClientBuilder::<([u8; 4], u16)>::router_addr::<S>, (b0, router_addr), b1),
        call_ensures(ClientBuilder::<S>::src_ams_addr, (b1, src_ams_addr), b2),
        call_ensures(ClientBuilder::<S>::timeout, (b2, timeout), b3),
        call_ensures(ClientBuilder::<S>::retry_delay, (b3, retry_delay), b4),
    ensures
        b0.router_addr.0@ == seq![127u8, 0u8, 0u8, 1u8] && b0.router_addr.1 == 48898,
        b0.dst_ams_addr == dst_ams_addr,
        b0.src_ams_addr is None && b0.timeout is DefaultTimeout && b0.retry_delay is None,
        b1 == (ClientBuilder {
            router_addr,
            dst_ams_addr,
            src_ams_addr: None,
            timeout: AdsTimeout::DefaultTimeout,
            retry_delay: None,
        }),
        b2 == (ClientBuilder { src_ams_addr: Some(src_ams_addr), ..b1 }),
        b3 == (ClientBuilder { timeout, ..b2 }),
        b4 == (ClientBuilder { retry_delay, ..b3 }),
{
}

/// A clone of a builder makes the same client.
pub proof fn law_clone_of_builder<R: Clone>(builder: ClientBuilder<R>, other: ClientBuilder<R>)
    requires
        call_ensures(ClientBuilder::<R>::clone, (&builder,), other),
    ensures
        cloned(builder.router_addr, other.router_addr),
        other.dst_ams_addr == builder.dst_ams_addr,
        other.src_ams_addr == builder.src_ams_addr,
        other.timeout == builder.timeout,
        other.retry_delay == builder.retry_delay,
{
}

/// A new client is for the device that it was made for, goes by the address that
/// it was given or that the router answered, waits as long as it was told, counts
/// from one and has nothing registered. Its reader starts with a header. A builder
/// makes the same of its parts.
pub proof fn law_new_client_is_as_told<R, C>(
    dst_ams_addr: AmsAddr,
    src_ams_addr: Option<AmsAddr>,
    timeout: AdsTimeout,
    retry_delay: Option<Duration>,
    answer: Option<[u8; 14]>,
    addr: Result<AmsAddr, AdsError>,
    made: Result<(Client<C>, ResponseReader), AdsError>,
)
    requires
        call_ensures(Client::<()>::connect, (&src_ams_addr, &answer), addr),
        call_ensures(
            Client::<C>::new,
            (dst_ams_addr, src_ams_addr, timeout, retry_delay, answer),
            made,
        ) || exists|builder: ClientBuilder<R>|
            {
                &&& builder.dst_ams_addr == dst_ams_addr
                &&& builder.src_ams_addr == src_ams_addr
                &&& builder.timeout == timeout
                &&& builder.retry_delay == retry_delay
                &&& #[trigger] call_ensures(
                    ClientBuilder::<R>::build::<C>,
                    (builder, answer),
                    made,
                )
            },
    ensures
        made is Ok <==> addr is Ok,
        made matches Err(e) ==> (addr matches Err(same) && e@ == same@),
        made matches Ok((client, reader)) ==> {
            &&& client.dst_ams_addr == dst_ams_addr
            &&& addr == Ok::<AmsAddr, AdsError>(client.src_ams_addr)
            &&& timeout matches AdsTimeout::CustomTimeout(time) ==> client.timeout == time
            &&& timeout is DefaultTimeout ==> client.timeout == 5
            &&& client.cmd_handles@.len() == 0
            &&& client.not_handles@.len() == 0
            &&& client.hdl_cnt == 1
            &&& reader.state is ReadHeader
            &&& reader.retry_delay == retry_delay
        },
{
    if let (Ok((client, reader)), Ok(a)) = (made, addr) {
        assert(client.src_ams_addr.0.0@ =~= a.0.0@);
        assert(client.src_ams_addr.0.0 =~= a.0.0);
    }
}

/// The requests of a new client go to the device that it was made for, from the
/// address that it goes by, whatever the two are: the header of any of them holds
/// both NetIds whole, both ports low byte first, the command, the length, the
/// invoke id and no error.
pub proof fn law_requests_of_new_client<C>(
    dst_ams_addr: AmsAddr,
    src_ams_addr: Option<AmsAddr>,
    timeout: AdsTimeout,
    retry_delay: Option<Duration>,
    answer: Option<[u8; 14]>,
    client: Client<C>,
    reader: ResponseReader,
    invoke_id: u32,
    length: u32,
    cmd: AdsCommand,
    header: [u8; HEADER_SIZE],
)
    requires
        32 + length <= u32::MAX,
        call_ensures(
            Client::<C>::new,
            (dst_ams_addr, src_ams_addr, timeout, retry_delay, answer),
            Ok((client, reader)),
        ),
        call_ensures(
            Client::<C>::c_init_ams_header,
            (&client, invoke_id, Some(length), cmd),
            header,
        ) || length == 0 && call_ensures(
            Client::<C>::c_init_ams_header,
            (&client, invoke_id, None, cmd),
            header,
        ),
    ensures
        header@[0] == 0 && header@[1] == 0,
        u32_at(header@, 2) == 32 + length,
        header@.subrange(6, 12) == dst_ams_addr.0.0@,
        header@[12] + 256 * header@[13] == dst_ams_addr.1,
        header@.subrange(14, 20) == client.src_ams_addr.0.0@,
        header@[20] + 256 * header@[21] == client.src_ams_addr.1,
        command_of(u16_at(header@, 22)) == Some(cmd),
        u16_low_first_at(header@, 24) == 4,
        u32_at(header@, 26) == length,
        u32_at(header@, 30) == 0,
        u32_at(header@, 34) == invoke_id,
        src_ams_addr matches Some(given) ==> client.src_ams_addr == given,
        src_ams_addr is None ==> (answer matches Some(bytes) && bytes@.subrange(6, 14)
            == client.src_ams_addr.0.0@ + u16_bytes(client.src_ams_addr.1)),
{
    law_request_is_addressed(dst_ams_addr, client.src_ams_addr, invoke_id, length, cmd);
    law_command_numbers(cmd.as_code());
}

/// A header that a client writes is read as it was written: what the other end
/// reads behind it has the invoke id, the length and the command of the request.
pub proof fn law_written_header_is_read<C>(
    client: Client<C>,
    invoke_id: u32,
    length: u32,
    cmd: AdsCommand,
    header: [u8; HEADER_SIZE],
    received: &[u8],
    state: ProcessStateMachine,
)
    requires
        32 + length <= u32::MAX,
        call_ensures(
            Client::<C>::c_init_ams_header,
            (&client, invoke_id, Some(length), cmd),
            header,
        ),
        received@ == header@,
        call_ensures(Client::<()>::process_header, (received,), state),
    ensures
        length == 0 ==> state is ReadHeader,
        length > 0 ==> (state matches ProcessStateMachine::ReadPayload {
            len_payload,
            err_code,
            invoke_id: id,
            cmd: command,
        } && {
            &&& len_payload == length
            &&& err_code == u32_at(client.ams_header@, 30)
            &&& id == invoke_id
            &&& command == cmd
        }),
        forall|i: int|
            0 <= i < 2 || 6 <= i < 22 || 24 <= i < 26 || 30 <= i < 34
                ==> #[trigger] header@[i] == client.ams_header@[i],
{
    law_request_is_filled_in(client.ams_header@, invoke_id, length, cmd);
    assert(header@[30] == client.ams_header@[30]);
    assert(header@[31] == client.ams_header@[31]);
    assert(header@[32] == client.ams_header@[32]);
    assert(header@[33] == client.ams_header@[33]);
}

/// Two invoke ids in a row are two numbers in a row, 65535 and zero among them,
/// and nothing else of the client changes.
pub proof fn law_invoke_ids_in_a_row<C>(
    client: &mut Client<C>,
    later: &mut Client<C>,
    first: u32,
    second: u32,
)
    requires
        call_ensures(Client::<C>::create_invoke_id, (client,), first),
        call_ensures(Client::<C>::create_invoke_id, (later,), second),
        *later == *final(client),
    ensures
        first <= 65535,
        first == old(client).hdl_cnt,
        first < 65535 ==> second == first + 1,
        first == 65535 ==> second == 0,
        *final(client) == (Client { hdl_cnt: final(client).hdl_cnt, ..*old(client) }),
{
}

/// A request that was registered is found by its invoke id, unless another one
/// waits under it: the response goes to its channel with the error code and the
/// payload, and the register is as it was before the request.
pub proof fn law_response_reaches_registered_request<C>(
    client: &mut Client<C>,
    invoke_id: u32,
    cmd: AdsCommand,
    handle: CommandReadHandle,
    err_code: u32,
    data: Bytes,
    register: &mut Vec<CommandWriteHandle>,
    r: Option<Result<(), HandleData>>,
)
    requires
        forall|i: int|
            0 <= i < client.cmd_handles@.len() ==> (#[trigger] client.cmd_handles@[i]).invoke_id
                != invoke_id,
        call_ensures(
            Client::<C>::register_command_handle,
            (client, invoke_id, cmd),
            handle,
        ),
        register@ == final(client).cmd_handles@,
        call_ensures(
            Client::<()>::process_command,
            (err_code, invoke_id, register, data),
            r,
        ),
    ensures
        handle.invoke_id == invoke_id && handle.cmd_type == cmd,
        final(register)@ == old(client).cmd_handles@,
        *final(client) == (Client { cmd_handles: final(client).cmd_handles, ..*old(client) }),
        exists|sender|
            {
                &&& #[trigger] same_channel(sender, handle.data_receiver)
                &&& r matches Some(written) && sent(
                    sender,
                    HandleData { ams_err: err_code, payload: data },
                    written,
                )
            },
        r matches Some(Err(back)) ==> back == (HandleData { ams_err: err_code, payload: data }),
{
    let before = client.cmd_handles@;
    let all = final(client).cmd_handles@;
    let last = all.last();
    assert(all =~= before.push(last));
    law_registered_request_is_found(before, last);
    assert(same_channel(last.data_sender, handle.data_receiver));
}

/// A request is taken out where it has the invoke id and none before it has; the
/// last one takes its place and no other one moves. Where none has the id, nothing
/// is taken out.
pub proof fn law_request_is_taken_out(
    register: &mut Vec<CommandWriteHandle>,
    invoke_id: u32,
    taken: Option<CommandWriteHandle>,
)
    requires
        call_ensures(take_command_handle, (register, invoke_id), taken),
    ensures
        taken is None <==> forall|i: int|
            0 <= i < old(register)@.len() ==> (#[trigger] old(register)@[i]).invoke_id != invoke_id,
        taken is None ==> final(register)@ == old(register)@,
        taken matches Some(handle) ==> {
            &&& handle.invoke_id == invoke_id
            &&& final(register)@.len() == old(register)@.len() - 1
            &&& exists|k: int|
                {
                    &&& 0 <= k < old(register)@.len()
                    &&& #[trigger] old(register)@[k] == handle
                    &&& forall|i: int|
                        0 <= i < k ==> (#[trigger] old(register)@[i]).invoke_id != invoke_id
                    &&& forall|i: int|
                        0 <= i < final(register)@.len() ==> #[trigger] final(register)@[i] == if i
                            == k {
                            old(register)@.last()
                        } else {
                            old(register)@[i]
                        }
                }
        },
{
    law_command_index(register@, invoke_id);
    let k = command_index(register@, invoke_id);
    if let Some(handle) = taken {
        assert(register@[k] == handle);
    }
}

/// A frame takes two steps. Its header is not acted on, and has the reader ask for
/// as many bytes as it states. Its payload is handed on whole: as a notification
/// where the command is 8, whatever the payload is, and else as the response to
/// the request with the invoke id of the header, with its error code. The state
/// flags and the addresses of the frame have no say. Then comes the next header.
pub proof fn law_frame_in_two_steps(
    header: BytesMut,
    head: Seq<u8>,
    code: u16,
    flags: Seq<u8>,
    length: u32,
    err_code: u32,
    invoke_id: u32,
    payload: BytesMut,
    reader: &mut ResponseReader,
    later: &mut ResponseReader,
    first: Action,
    asked: usize,
    second: Action,
)
    requires
        is_header(
            buffer_contents(header),
            head,
            code,
            flags,
            length,
            err_code,
            invoke_id,
            Seq::empty(),
        ),
        length > 0,
        reader.state is ReadHeader,
        call_ensures(
            Client::<()>::process_response,
            (reader, ReadEvent::Filled(header)),
            first,
        ),
        *later == *final(reader),
        call_ensures(ProcessStateMachine::size, (&later.state,), asked),
        call_ensures(
            Client::<()>::process_response,
            (later, ReadEvent::Filled(payload)),
            second,
        ),
    ensures
        first is Read,
        asked == length,
        code == 8 ==> (second matches Action::Notification(data) && bytes_contents(data)
            == buffer_contents(payload)),
        code != 8 ==> (second matches Action::Response { err_code: error, invoke_id: id, data } && {
            &&& error == err_code
            &&& id == invoke_id
            &&& bytes_contents(data) == buffer_contents(payload)
        }),
        final(later).state is ReadHeader,
        final(later).retry_delay == old(reader).retry_delay,
{
    lemma_fields_of_header(
        buffer_contents(header),
        head,
        code,
        flags,
        length,
        err_code,
        invoke_id,
        Seq::empty(),
    );
    law_behind_header(buffer_contents(header));
}

/// A frame without a payload takes one step, and nothing is done with it.
pub proof fn law_frame_without_payload(
    header: BytesMut,
    head: Seq<u8>,
    code: u16,
    flags: Seq<u8>,
    err_code: u32,
    invoke_id: u32,
    reader: &mut ResponseReader,
    action: Action,
)
    requires
        is_header(
            buffer_contents(header),
            head,
            code,
            flags,
            0,
            err_code,
            invoke_id,
            Seq::empty(),
        ),
        reader.state is ReadHeader,
        call_ensures(
            Client::<()>::process_response,
            (reader, ReadEvent::Filled(header)),
            action,
        ),
    ensures
        action is Read,
        final(reader).state is ReadHeader,
        final(reader).retry_delay == old(reader).retry_delay,
{
    lemma_fields_of_header(
        buffer_contents(header),
        head,
        code,
        flags,
        0,
        err_code,
        invoke_id,
        Seq::empty(),
    );
}

/// Where the connection was not ready, or failed, the reader stays as it was; after
/// a failure it waits as long as it was told, if it was. Where nothing was read, a
/// header is read next.
pub proof fn law_reader_is_interrupted(
    reader: &mut ResponseReader,
    event: ReadEvent,
    action: Action,
)
    requires
        call_ensures(Client::<()>::process_response, (reader, event), action),
    ensures
        event is WouldBlock ==> action is Read && *final(reader) == *old(reader),
        event is Failed ==> *final(reader) == *old(reader),
        event is Failed ==> (old(reader).retry_delay matches Some(delay) ==> action
            == Action::Wait(delay)),
        event is Failed && old(reader).retry_delay is None ==> action is Read,
        event is Empty ==> action is Read && final(reader).state is ReadHeader,
        final(reader).retry_delay == old(reader).retry_delay,
{
}

/// The buffer for what is read next is as long as what is asked for, 38 bytes where
/// it is a header, and all zero.
pub proof fn law_buffer_is_as_asked(state: ProcessStateMachine, size: usize, buffer: BytesMut)
    requires
        call_ensures(ProcessStateMachine::size, (&state,), size),
        call_ensures(ProcessStateMachine::buffer, (&state,), buffer),
    ensures
        buffer_contents(buffer).len() == size,
        forall|i: int| 0 <= i < size ==> #[trigger] buffer_contents(buffer)[i] == 0,
        state is ReadHeader ==> size == 38,
        state matches ProcessStateMachine::ReadPayload { len_payload, .. } ==> size == len_payload,
{
}

/// A callback that was registered is found by its handle, unless an earlier one
/// has it; no other handle finds it, and nothing else of the client changes.
pub proof fn law_registered_callback_is_found<C>(
    client: &mut Client<C>,
    not_hdl: u32,
    callback: C,
    r: (),
    register: Vec<NotHandle<C>>,
    other: u32,
    found: Option<&NotHandle<C>>,
    found_other: Option<&NotHandle<C>>,
)
    requires
        forall|i: int|
            0 <= i < client.not_handles@.len() ==> (#[trigger] client.not_handles@[i]).not_hdl
                != not_hdl,
        call_ensures(Client::<C>::register_not_handle, (client, not_hdl, callback), r),
        register@ == final(client).not_handles@,
        call_ensures(lookup_handle::<C>, (&register, not_hdl), found),
        other != not_hdl,
        call_ensures(lookup_handle::<C>, (&register, other), found_other),
    ensures
        found matches Some(entry) && entry.callback == callback && entry.not_hdl == not_hdl,
        found_other matches Some(entry) ==> entry.not_hdl == other && old(
            client,
        ).not_handles@.contains(*entry),
        final(client).not_handles@.len() == old(client).not_handles@.len() + 1,
        *final(client) == (Client { not_handles: final(client).not_handles, ..*old(client) }),
{
    let before = client.not_handles@;
    let n = before.len() as int;
    assert(register@ == before.push(NotHandle { callback, not_hdl }));
    assert(register@[n].not_hdl == not_hdl);
    assert forall|j: int| 0 <= j < n implies (#[trigger] register@[j]).not_hdl != not_hdl by {
        assert(register@[j] == before[j]);
    }
    law_first_entry_is_found(register@, not_hdl, n);
    if let Some(entry) = found_other {
        let k = choose|k: int| 0 <= k < register@.len() && #[trigger] register@[k] == *entry;
        assert(before[k] == *entry);
    }
}

/// A lone sample that a device sends leads to one call where its handle has an
/// entry in the register, of the first such entry, with the handle, the time and
/// the bytes of the sample, and to none where it has not.
pub proof fn law_lone_sample_is_delivered<C: Clone>(
    register: Vec<NotHandle<C>>,
    not_hdl: u32,
    timestamp: u64,
    payload: Seq<u8>,
    k: int,
    data: Bytes,
    deliveries: Deliveries<C>,
)
    requires
        24 + payload.len() <= u32::MAX,
        not_hdl != 0 || payload.len() > 0,
        0 <= k <= register@.len(),
        forall|j: int| 0 <= j < k ==> (#[trigger] register@[j]).not_hdl != not_hdl,
        k < register@.len() ==> register@[k].not_hdl == not_hdl,
        bytes_contents(data) == u32_bytes((24 + payload.len()) as u32) + u32_bytes(1) + u64_bytes(
            timestamp,
        ) + u32_bytes(1) + u32_bytes(not_hdl) + u32_bytes(payload.len() as u32) + payload,
        call_ensures(
            Client::<()>::process_device_notification::<C>,
            (&register, &data),
            deliveries,
        ),
    ensures
        deliveries.end == StreamEnd::Complete,
        k == register@.len() ==> deliveries.due@.len() == 0,
        k < register@.len() ==> {
            let made = deliveries.due@[0];
            &&& deliveries.due@.len() == 1
            &&& cloned(register@[k].callback, made.callback)
            &&& made.not_hdl == not_hdl
            &&& made.timestamp == timestamp
            &&& bytes_contents(made.payload) == payload
        },
{
    law_lone_sample(register@, not_hdl, timestamp, payload, k);
}

/// Of any number of samples under any number of stamps, each one that the register
/// has an entry for is delivered to the first such entry, with its handle, the time
/// of its stamp and its bytes.
pub proof fn law_sent_samples_are_delivered<C: Clone>(
    register: Vec<NotHandle<C>>,
    stamps: Seq<StampData>,
    s: int,
    i: int,
    k: int,
    data: Bytes,
    deliveries: Deliveries<C>,
)
    requires
        4 + stamps_bytes(stamps).len() <= u32::MAX,
        forall|m: int|
            0 <= m < stamps.len() ==> (#[trigger] stamps[m]).timestamp != 0
                || stamps[m].samples.len() > 0,
        forall|m: int, n: int|
            0 <= m < stamps.len() && 0 <= n < stamps[m].samples.len() ==> (
            #[trigger] stamps[m].samples[n]).not_hdl != 0 || stamps[m].samples[n].payload.len() > 0,
        0 <= s < stamps.len(),
        0 <= i < stamps[s].samples.len(),
        0 <= k < register@.len(),
        register@[k].not_hdl == stamps[s].samples[i].not_hdl,
        forall|j: int|
            0 <= j < k ==> (#[trigger] register@[j]).not_hdl != stamps[s].samples[i].not_hdl,
        bytes_contents(data) == stream_bytes(stamps),
        call_ensures(
            Client::<()>::process_device_notification::<C>,
            (&register, &data),
            deliveries,
        ),
    ensures
        deliveries.end == StreamEnd::Complete,
        exists|d: int|
            {
                &&& 0 <= d < deliveries.due@.len()
                &&& cloned(register@[k].callback, (#[trigger] deliveries.due@[d]).callback)
                &&& deliveries.due@[d].not_hdl == stamps[s].samples[i].not_hdl
                &&& deliveries.due@[d].timestamp == stamps[s].timestamp
                &&& bytes_contents(deliveries.due@[d].payload) == stamps[s].samples[i].payload
            },
{
    law_every_sent_sample_arrives(register@, stamps, s, i, k);
    let due = due_for_stream(register@, bytes_contents(data)).0;
    let call = DeliveryView {
        callback: register@[k].callback,
        not_hdl: stamps[s].samples[i].not_hdl,
        timestamp: stamps[s].timestamp,
        payload: stamps[s].samples[i].payload,
    };
    let d = choose|d: int| 0 <= d < due.len() && due[d] == call;
    assert(deliveries.due@[d].not_hdl == call.not_hdl);
}

/// What a stream of one stamp with one sample comes to, whatever lengths it states
/// and however many bytes follow: a sample that the stream has no room for, or that
/// has not all its bytes, leads to no call, and one that has more gets its own.
pub proof fn law_stated_lengths_are_kept<C: Clone>(
    register: Vec<NotHandle<C>>,
    stated: u32,
    timestamp: u64,
    not_hdl: u32,
    size: u32,
    bytes: Seq<u8>,
    k: int,
    data: Bytes,
    deliveries: Deliveries<C>,
)
    requires
        0 <= k <= register@.len(),
        forall|j: int| 0 <= j < k ==> (#[trigger] register@[j]).not_hdl != not_hdl,
        k < register@.len() ==> register@[k].not_hdl == not_hdl,
        bytes_contents(data) == u32_bytes(stated) + u32_bytes(1) + u64_bytes(timestamp) + u32_bytes(
            1,
        ) + u32_bytes(not_hdl) + u32_bytes(size) + bytes,
        call_ensures(
            Client::<()>::process_device_notification::<C>,
            (&register, &data),
            deliveries,
        ),
    ensures
        ({
            let due = deliveries.due@;
            let end = deliveries.end;
            if stated < 16 {
                due.len() == 0 && end == StreamEnd::Complete
            } else if stated < 24 {
                due.len() == 0 && end == StreamEnd::NotEnoughData
            } else if not_hdl == 0 && size == 0 {
                due.len() == 0 && end == StreamEnd::Complete
            } else if stated < 24 + size {
                due.len() == 0 && end == StreamEnd::NotEnoughData
            } else if k == register@.len() {
                due.len() == 0 && end == StreamEnd::Complete
            } else if bytes.len() < size {
                due.len() == 0 && end == StreamEnd::OutOfBounds
            } else {
                &&& end == StreamEnd::Complete
                &&& due.len() == 1
                &&& cloned(register@[k].callback, due[0].callback)
                &&& due[0].not_hdl == not_hdl
                &&& due[0].timestamp == timestamp
                &&& bytes_contents(due[0].payload) == bytes.take(size as int)
            }
        }),
{
    law_stated_lengths_count(register@, stated, timestamp, not_hdl, size, bytes, k);
}

/// The samples that are found in a stream stand one behind the other, each behind
/// a header of eight bytes, behind the first 20 bytes, and within what the stream
/// states for itself. A stream of less than eight bytes has none.
pub proof fn law_samples_are_found_in_order(data: &[u8], scan: NotificationScan)
    requires
        call_ensures(scan_notification, (data,), scan),
    ensures
        data@.len() < 8 ==> scan.samples@.len() == 0 && scan.end == StreamEnd::OutOfBounds,
        forall|i: int|
            0 <= i < scan.samples@.len() ==> {
                let sample = #[trigger] scan.samples@[i];
                28 <= sample.start && sample.start + sample.size <= u32_at(data@, 0) + 4
            },
        forall|i: int, j: int|
            0 <= i < j < scan.samples@.len() ==> (#[trigger] scan.samples@[i]).start
                + scan.samples@[i].size + 8 <= (#[trigger] scan.samples@[j]).start,
{
    law_samples_in_order(data@);
}

/// What the reader does is one step of the reading of frames, and what it reads
/// behind a header is what stands there.
pub proof fn law_reader_takes_a_step(
    header: &[u8],
    behind: ProcessStateMachine,
    reader: &mut ResponseReader,
    event: ReadEvent,
    action: Action,
)
    requires
        call_ensures(Client::<()>::process_header, (header,), behind),
        call_ensures(Client::<()>::process_response, (reader, event), action),
    ensures
        behind == behind_header(header@),
        (final(reader).state, action@) == old(reader).state.after(
            event@,
            old(reader).retry_delay,
        ),
{
}

/// What is found in a notification stream, and what is delivered for it, is what
/// the stream holds and what is due for it.
pub proof fn law_stream_is_delivered<C: Clone>(
    stream: &[u8],
    scan: NotificationScan,
    register: Vec<NotHandle<C>>,
    data: Bytes,
    deliveries: Deliveries<C>,
)
    requires
        call_ensures(scan_notification, (stream,), scan),
        call_ensures(
            Client::<()>::process_device_notification::<C>,
            (&register, &data),
            deliveries,
        ),
    ensures
        scan.samples@ == walk_stream(stream@).samples,
        scan.end == walk_stream(stream@).end,
        deliveries.deliver(due_for_stream(register@, bytes_contents(data))),
{
}

/// What a client writes as the header of a request is its shared header with the
/// request filled in; no payload counts as one of no bytes.
pub proof fn law_header_is_filled_in<C>(
    client: Client<C>,
    invoke_id: u32,
    length: u32,
    cmd: AdsCommand,
    with_payload: [u8; HEADER_SIZE],
    without_payload: [u8; HEADER_SIZE],
)
    requires
        32 + length <= u32::MAX,
        call_ensures(
            Client::<C>::c_init_ams_header,
            (&client, invoke_id, Some(length), cmd),
            with_payload,
        ),
        call_ensures(
            Client::<C>::c_init_ams_header,
            (&client, invoke_id, None, cmd),
            without_payload,
        ),
    ensures
        with_payload@ == with_request(client.ams_header@, invoke_id, length, cmd),
        without_payload@ == with_request(client.ams_header@, invoke_id, 0, cmd),
{
}

} // verus!
