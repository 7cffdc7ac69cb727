//! Reading frames off the connection: what to read next, and what to do with
//! what was read.

use crate::buffer::{as_slice, buffer_contents, bytes_contents};
use crate::client::Client;
use crate::command::{command_index, law_registered_request_is_found, CommandWriteHandle};
use crate::header::{
    header_command, header_error_code, header_invoke_id, header_length, law_header_fields,
    law_header_offsets, request_header, AMS_HEADER_SIZE, HEADER_SIZE,
};
use crate::types::{command_of, law_command_codes, law_command_numbers, AdsCommand, AmsAddr};
use crate::wire::{u16_at, u32_at};
use bytes::{Bytes, BytesMut};
use std::time::Duration;
use vstd::prelude::*;

verus! {

/// What is being read.
#[derive(Debug, Clone, Copy, PartialEq, Eq, Structural)]
pub enum ProcessStateMachine {
    /// The header of the next frame.
    ReadHeader,
    /// The payload of a frame whose header has been read.
    ReadPayload { len_payload: usize, err_code: u32, invoke_id: u32, cmd: AdsCommand },
}

/// How an attempt to fill a buffer from the connection came out.
#[derive(Debug)]
pub enum ReadEvent {
    /// Nothing was read.
    Empty,
    /// The buffer is full.
    Filled(BytesMut),
    /// The connection was not ready.
    WouldBlock,
    /// The connection failed.
    Failed,
}

/// What a [`ReadEvent`] stands for.
pub enum ReadEventView {
    Empty,
    Filled(Seq<u8>),
    WouldBlock,
    Failed,
}

impl View for ReadEvent {
    type V = ReadEventView;

    open spec fn view(&self) -> ReadEventView {
        match *self {
            ReadEvent::Empty => ReadEventView::Empty,
            ReadEvent::Filled(buffer) => ReadEventView::Filled(buffer_contents(buffer)),
            ReadEvent::WouldBlock => ReadEventView::WouldBlock,
            ReadEvent::Failed => ReadEventView::Failed,
        }
    }
}

/// What is to be done before the next attempt to read.
#[derive(Debug)]
pub enum Action {
    /// Nothing.
    Read,
    /// Wait.
    Wait(Duration),
    /// Process a device notification.
    Notification(Bytes),
    /// Process the response to a request.
    Response { err_code: u32, invoke_id: u32, data: Bytes },
}

/// What an [`Action`] stands for.
pub enum ActionView {
    Read,
    Wait(Duration),
    Notification(Seq<u8>),
    Response { err_code: u32, invoke_id: u32, data: Seq<u8> },
}

impl View for Action {
    type V = ActionView;

    open spec fn view(&self) -> ActionView {
        match *self {
            Action::Read => ActionView::Read,
            Action::Wait(delay) => ActionView::Wait(delay),
            Action::Notification(data) => ActionView::Notification(bytes_contents(data)),
            Action::Response { err_code, invoke_id, data } => ActionView::Response {
                err_code,
                invoke_id,
                data: bytes_contents(data),
            },
        }
    }
}

/// The command of a header. A code that no command has counts as
/// [`AdsCommand::Invalid`].
pub open spec fn command_or_invalid(header: Seq<u8>) -> AdsCommand {
    match command_of(header_command(header)) {
        Some(cmd) => cmd,
        None => AdsCommand::Invalid,
    }
}

/// What is read behind a header: the payload that it announces, or the next
/// header where it announces none.
pub open spec fn behind_header(header: Seq<u8>) -> ProcessStateMachine {
    if header_length(header) == 0 {
        ProcessStateMachine::ReadHeader
    } else {
        ProcessStateMachine::ReadPayload {
            len_payload: header_length(header) as usize,
            err_code: header_error_code(header),
            invoke_id: header_invoke_id(header),
            cmd: command_or_invalid(header),
        }
    }
}

/// What is to be done with a payload.
pub open spec fn action_for(
    cmd: AdsCommand,
    err_code: u32,
    invoke_id: u32,
    payload: Seq<u8>,
) -> ActionView {
    if cmd == AdsCommand::DeviceNotification {
        ActionView::Notification(payload)
    } else {
        ActionView::Response { err_code, invoke_id, data: payload }
    }
}

impl ProcessStateMachine {
    /// The number of bytes to read next.
    pub open spec fn read_size(self) -> usize {
        match self {
            ProcessStateMachine::ReadHeader => HEADER_SIZE,
            ProcessStateMachine::ReadPayload { len_payload, .. } => len_payload,
        }
    }

    /// What is read after `event`, and what is done before. After a failure, or
    /// where the connection was not ready, the same is read again.
    pub open spec fn after(self, event: ReadEventView, retry_delay: Option<Duration>) -> (
        ProcessStateMachine,
        ActionView,
    ) {
        match event {
            ReadEventView::Empty => (ProcessStateMachine::ReadHeader, ActionView::Read),
            ReadEventView::Filled(bytes) => match self {
                ProcessStateMachine::ReadHeader => (behind_header(bytes), ActionView::Read),
                ProcessStateMachine::ReadPayload { err_code, invoke_id, cmd, .. } => (
                    ProcessStateMachine::ReadHeader,
                    action_for(cmd, err_code, invoke_id, bytes),
                ),
            },
            ReadEventView::WouldBlock => (self, ActionView::Read),
            ReadEventView::Failed => (
                self,
                match retry_delay {
                    Some(delay) => ActionView::Wait(delay),
                    None => ActionView::Read,
                },
            ),
        }
    }

    /// Gives the number of bytes to read next.
    pub fn size(&self) -> (size: usize)
        ensures
            size == self.read_size(),
    {
        match *self {
            ProcessStateMachine::ReadHeader => HEADER_SIZE,
            ProcessStateMachine::ReadPayload { len_payload, .. } => len_payload,
        }
    }

    /// Makes the buffer for what is to be read next.
    pub fn buffer(&self) -> (buffer: BytesMut)
        requires
            self.read_size() <= isize::MAX,
        ensures
            buffer_contents(buffer) == Seq::new(self.read_size() as nat, |i: int| 0u8),
    {
        BytesMut::zeroed(self.size())
    }
}

/// The reader of a connection: what it is reading, and how long it waits after
/// a failure.
#[derive(Debug)]
pub struct ResponseReader {
    pub state: ProcessStateMachine,
    pub retry_delay: Option<Duration>,
}

impl ResponseReader {
    /// Nothing has been read yet.
    pub open spec fn is_new(self, retry_delay: Option<Duration>) -> bool {
        &&& self.state == ProcessStateMachine::ReadHeader
        &&& self.retry_delay == retry_delay
    }
}

impl Client<()> {
    /// Reads what is needed out of a header.
    pub fn process_header(header: &[u8]) -> (state: ProcessStateMachine)
        requires
            header.len() >= HEADER_SIZE,
        ensures
            state == behind_header(header@),
            u32_at(header@, 26) == 0 ==> state is ReadHeader,
            u32_at(header@, 26) > 0 ==> (state matches ProcessStateMachine::ReadPayload {
                len_payload,
                err_code,
                invoke_id,
                cmd,
            } && {
                &&& len_payload == u32_at(header@, 26)
                &&& err_code == u32_at(header@, 30)
                &&& invoke_id == u32_at(header@, 34)
                &&& cmd == match command_of(u16_at(header@, 22)) {
                    Some(known) => known,
                    None => AdsCommand::Invalid,
                }
            }),
    {
        let len_payload: usize = match Client::extract_length(header) {
            Ok(value) => value,
            Err(_) => 0,
        };
        let err_code: u32 = match Client::extract_error_code(header) {
            Ok(value) => value,
            Err(_) => 0,
        };
        let invoke_id: u32 = match Client::extract_invoke_id(header) {
            Ok(value) => value,
            Err(_) => 0,
        };
        let cmd: AdsCommand = match Client::extract_cmd_tyte(header) {
            Ok(cmd) => cmd,
            Err(_) => AdsCommand::default(),
        };
        if len_payload == 0 {
            return ProcessStateMachine::ReadHeader;
        }
        ProcessStateMachine::ReadPayload { len_payload, err_code, invoke_id, cmd }
    }

    /// Takes one step in the reading of frames: from how the attempt to read
    /// came out, to what is read next and what is done before.
    pub fn process_response(reader: &mut ResponseReader, event: ReadEvent) -> (action: Action)
        requires
            old(reader).state is ReadHeader ==> (event matches ReadEvent::Filled(buffer)
                ==> buffer_contents(buffer).len() >= HEADER_SIZE),
        ensures
            (final(reader).state, action@) == old(reader).state.after(
                event@,
                old(reader).retry_delay,
            ),
            final(reader).retry_delay == old(reader).retry_delay,
            event matches ReadEvent::Filled(buffer) ==> match old(reader).state {
                ProcessStateMachine::ReadHeader => {
                    &&& action is Read
                    &&& final(reader).state == behind_header(buffer_contents(buffer))
                },
                ProcessStateMachine::ReadPayload { err_code, invoke_id, cmd, .. } => {
                    &&& final(reader).state is ReadHeader
                    &&& match action {
                        Action::Notification(data) => {
                            &&& cmd == AdsCommand::DeviceNotification
                            &&& bytes_contents(data) == buffer_contents(buffer)
                        },
                        Action::Response { err_code: code, invoke_id: id, data } => {
                            &&& cmd != AdsCommand::DeviceNotification
                            &&& code == err_code
                            &&& id == invoke_id
                            &&& bytes_contents(data) == buffer_contents(buffer)
                        },
                        _ => false,
                    }
                },
            },
            event is Empty ==> final(reader).state is ReadHeader && action is Read,
            event is WouldBlock ==> final(reader).state == old(reader).state && action is Read,
            event is Failed ==> final(reader).state == old(reader).state && match old(
                reader,
            ).retry_delay {
                Some(delay) => action == Action::Wait(delay),
                None => action is Read,
            },
    {
        match event {
            ReadEvent::Empty => {
                reader.state = ProcessStateMachine::ReadHeader;
                Action::Read
            },
            ReadEvent::Filled(buffer) => {
                let data = buffer.freeze();
                match reader.state {
                    ProcessStateMachine::ReadHeader => {
                        reader.state = Client::process_header(as_slice(&data));
                        Action::Read
                    },
                    ProcessStateMachine::ReadPayload { err_code, invoke_id, cmd, .. } => {
                        reader.state = ProcessStateMachine::ReadHeader;
                        if cmd == AdsCommand::DeviceNotification {
                            Action::Notification(data)
                        } else {
                            Action::Response { err_code, invoke_id, data }
                        }
                    },
                }
            },
            ReadEvent::WouldBlock => Action::Read,
            ReadEvent::Failed => match reader.retry_delay {
                Some(delay) => Action::Wait(delay),
                None => Action::Read,
            },
        }
    }
}

/// A reader after a sequence of events: what it reads next, and what was to be
/// done with the payloads that it read, in their order.
pub open spec fn run(
    state: ProcessStateMachine,
    events: Seq<ReadEventView>,
    retry_delay: Option<Duration>,
) -> (ProcessStateMachine, Seq<ActionView>)
    decreases events.len(),
{
    if events.len() == 0 {
        (state, Seq::empty())
    } else {
        let (next, action) = state.after(events[0], retry_delay);
        let rest = run(next, events.drop_first(), retry_delay);
        if action is Notification || action is Response {
            (rest.0, seq![action] + rest.1)
        } else {
            rest
        }
    }
}

/// A frame as it comes in.
pub struct Frame {
    pub header: Seq<u8>,
    pub payload: Seq<u8>,
}

/// What a reader meets when frames come in.
pub open spec fn frame_events(frames: Seq<Frame>) -> Seq<ReadEventView>
    decreases frames.len(),
{
    if frames.len() == 0 {
        Seq::empty()
    } else {
        let header = seq![ReadEventView::Filled(frames[0].header)];
        let payload = if header_length(frames[0].header) == 0 {
            Seq::empty()
        } else {
            seq![ReadEventView::Filled(frames[0].payload)]
        };
        header + payload + frame_events(frames.drop_first())
    }
}

/// What is to be done with frames: nothing with one that announces no payload.
pub open spec fn frame_actions(frames: Seq<Frame>) -> Seq<ActionView>
    decreases frames.len(),
{
    if frames.len() == 0 {
        Seq::empty()
    } else {
        let rest = frame_actions(frames.drop_first());
        let header = frames[0].header;
        if header_length(header) == 0 {
            rest
        } else {
            seq![
                action_for(
                    command_or_invalid(header),
                    header_error_code(header),
                    header_invoke_id(header),
                    frames[0].payload,
                ),
            ] + rest
        }
    }
}

/// Every frame that comes in with a payload leads to what its command asks for,
/// with the error code and the invoke id of its header and with its payload, in
/// the order of the frames; then the next header is read.
pub proof fn law_frames(frames: Seq<Frame>, retry_delay: Option<Duration>)
    ensures
        run(ProcessStateMachine::ReadHeader, frame_events(frames), retry_delay) == (
            ProcessStateMachine::ReadHeader,
            frame_actions(frames),
        ),
    decreases frames.len(),
{
    reveal_with_fuel(run, 3);
    if frames.len() > 0 {
        let others = frames.drop_first();
        law_frames(others, retry_delay);
        let events = frame_events(frames);
        let header = frames[0].header;
        if header_length(header) == 0 {
            assert(events.drop_first() =~= frame_events(others));
        } else {
            assert(events.drop_first()[0] == ReadEventView::Filled(frames[0].payload));
            assert(events.drop_first().drop_first() =~= frame_events(others));
        }
    }
}

/// The frame is whole: its header has the size of a header, and its payload the
/// length that the header states.
pub open spec fn is_whole(frame: Frame) -> bool {
    &&& frame.header.len() == HEADER_SIZE
    &&& frame.payload.len() == header_length(frame.header)
}

/// The bytes of frames, one behind the other.
pub open spec fn frame_bytes(frames: Seq<Frame>) -> Seq<u8>
    decreases frames.len(),
{
    if frames.len() == 0 {
        Seq::empty()
    } else {
        frames[0].header + frames[0].payload + frame_bytes(frames.drop_first())
    }
}

/// What a reader meets that reads `bytes` in pieces of the size that it asks for,
/// up to a piece that is not there as a whole.
pub open spec fn read_events(state: ProcessStateMachine, bytes: Seq<u8>) -> Seq<ReadEventView>
    decreases
            bytes.len(),
            if state.read_size() == 0 {
                1int
            } else {
                0int
            },
{
    let size = state.read_size() as int;
    let event = if size == 0 {
        ReadEventView::Empty
    } else {
        ReadEventView::Filled(bytes.take(size))
    };
    if bytes.len() < size {
        Seq::empty()
    } else {
        seq![event] + read_events(state.after(event, None).0, bytes.skip(size))
    }
}

/// A reader after all that it can read of `bytes`: what it reads next, and what
/// was to be done with the payloads, in their order.
pub open spec fn read_bytes(
    state: ProcessStateMachine,
    bytes: Seq<u8>,
    retry_delay: Option<Duration>,
) -> (ProcessStateMachine, Seq<ActionView>) {
    run(state, read_events(state, bytes), retry_delay)
}

/// One step of reading bytes.
proof fn lemma_read_step(
    state: ProcessStateMachine,
    bytes: Seq<u8>,
    retry_delay: Option<Duration>,
)
    requires
        0 < state.read_size() <= bytes.len(),
    ensures
        ({
            let size = state.read_size() as int;
            let (next, action) = state.after(
                ReadEventView::Filled(bytes.take(size)),
                retry_delay,
            );
            let rest = read_bytes(next, bytes.skip(size), retry_delay);
            read_bytes(state, bytes, retry_delay) == if action is Notification
                || action is Response {
                (rest.0, seq![action] + rest.1)
            } else {
                rest
            }
        }),
{
    let size = state.read_size() as int;
    let event = ReadEventView::Filled(bytes.take(size));
    let next = state.after(event, retry_delay).0;
    assert(next == state.after(event, None).0);
    let events = read_events(state, bytes);
    assert(events[0] == event);
    assert(events.drop_first() =~= read_events(next, bytes.skip(size)));
}

/// Whole frames that come in one behind the other lead to what each of them asks
/// for, in their order, and then to what the bytes behind them lead to.
pub proof fn law_frames_in_bytes(
    frames: Seq<Frame>,
    rest: Seq<u8>,
    retry_delay: Option<Duration>,
)
    requires
        forall|i: int| 0 <= i < frames.len() ==> is_whole(#[trigger] frames[i]),
    ensures
        ({
            let behind = read_bytes(ProcessStateMachine::ReadHeader, rest, retry_delay);
            read_bytes(
                ProcessStateMachine::ReadHeader,
                frame_bytes(frames) + rest,
                retry_delay,
            ) == (behind.0, frame_actions(frames) + behind.1)
        }),
    decreases frames.len(),
{
    let behind = read_bytes(ProcessStateMachine::ReadHeader, rest, retry_delay);
    let bytes = frame_bytes(frames) + rest;
    if frames.len() == 0 {
        assert(bytes =~= rest);
        assert(frame_actions(frames) + behind.1 =~= behind.1);
    } else {
        let frame = frames[0];
        let others = frames.drop_first();
        assert(is_whole(frame));
        assert forall|i: int| 0 <= i < others.len() implies is_whole(#[trigger] others[i]) by {
            assert(others[i] == frames[i + 1]);
        }
        law_frames_in_bytes(others, rest, retry_delay);
        let tail = frame_bytes(others) + rest;
        assert(bytes.take(HEADER_SIZE as int) =~= frame.header);
        assert(bytes.skip(HEADER_SIZE as int) =~= frame.payload + tail);
        lemma_read_step(ProcessStateMachine::ReadHeader, bytes, retry_delay);
        let state = behind_header(frame.header);
        if frame.payload.len() == 0 {
            assert(frame.payload + tail =~= tail);
        } else {
            let size = frame.payload.len() as int;
            assert((frame.payload + tail).take(size) =~= frame.payload);
            assert((frame.payload + tail).skip(size) =~= tail);
            lemma_read_step(state, frame.payload + tail, retry_delay);
            let actions = frame_actions(others);
            let action = frame_actions(frames)[0];
            assert(seq![action] + (actions + behind.1) =~= (seq![action] + actions) + behind.1);
        }
    }
}

/// The attempt came to nothing: the connection was not ready, or failed.
pub open spec fn is_interruption(event: ReadEventView) -> bool {
    event is WouldBlock || event is Failed
}

/// The events that are no interruptions.
pub open spec fn uninterrupted(events: Seq<ReadEventView>) -> Seq<ReadEventView>
    decreases events.len(),
{
    if events.len() == 0 {
        Seq::empty()
    } else if is_interruption(events[0]) {
        uninterrupted(events.drop_first())
    } else {
        seq![events[0]] + uninterrupted(events.drop_first())
    }
}

/// Interruptions change nothing of what is read and of what is done with it.
pub proof fn law_interruptions(
    state: ProcessStateMachine,
    events: Seq<ReadEventView>,
    retry_delay: Option<Duration>,
)
    ensures
        run(state, events, retry_delay) == run(state, uninterrupted(events), retry_delay),
    decreases events.len(),
{
    if events.len() > 0 {
        let next = state.after(events[0], retry_delay).0;
        law_interruptions(next, events.drop_first(), retry_delay);
        if !is_interruption(events[0]) {
            let kept = uninterrupted(events);
            assert(kept.drop_first() =~= uninterrupted(events.drop_first()));
        }
    }
}

/// The header of a request announces its payload, without an error, under its
/// invoke id and its command.
pub proof fn law_request_header(
    target: AmsAddr,
    source: AmsAddr,
    invoke_id: u32,
    length: u32,
    cmd: AdsCommand,
)
    requires
        AMS_HEADER_SIZE + length <= u32::MAX,
    ensures
        ({
            let header = request_header(target, source, invoke_id, length, cmd).bytes();
            &&& u32_at(header, 2) == AMS_HEADER_SIZE + length
            &&& behind_header(header) == if length == 0 {
                ProcessStateMachine::ReadHeader
            } else {
                ProcessStateMachine::ReadPayload {
                    len_payload: length as usize,
                    err_code: 0,
                    invoke_id,
                    cmd,
                }
            }
        }),
{
    law_header_fields(request_header(target, source, invoke_id, length, cmd));
    law_command_codes(cmd, cmd.as_code());
}

/// A response reaches its request: where a request was registered under an
/// invoke id that no other request waits under, a frame with this id that is no
/// notification leads to a response that the register finds this request for.
pub proof fn law_response_reaches_request(
    register: Seq<CommandWriteHandle>,
    handle: CommandWriteHandle,
    frame: Frame,
    retry_delay: Option<Duration>,
)
    requires
        forall|i: int|
            0 <= i < register.len() ==> (#[trigger] register[i]).invoke_id != handle.invoke_id,
        u32_at(frame.header, 34) == handle.invoke_id,
        u32_at(frame.header, 26) > 0,
        u16_at(frame.header, 22) != 8,
    ensures
        run(ProcessStateMachine::ReadHeader, frame_events(seq![frame]), retry_delay).1 == seq![
            ActionView::Response {
                err_code: u32_at(frame.header, 30),
                invoke_id: handle.invoke_id,
                data: frame.payload,
            },
        ],
        command_index(register.push(handle), handle.invoke_id) == register.len(),
{
    law_header_offsets(frame.header);
    law_command_numbers(u16_at(frame.header, 22));
    law_frames(seq![frame], retry_delay);
    law_registered_request_is_found(register, handle);
    assert(seq![frame].drop_first() =~= Seq::<Frame>::empty());
    reveal_with_fuel(frame_actions, 2);
    let actions = frame_actions(seq![frame]);
    assert(actions =~= seq![actions[0]]);
}

/// What a reader asks for: 38 bytes of a header, or as many bytes of a payload as
/// its header stated.
pub proof fn law_read_size(len_payload: usize, err_code: u32, invoke_id: u32, cmd: AdsCommand)
    ensures
        ProcessStateMachine::ReadHeader.read_size() == 38,
        (ProcessStateMachine::ReadPayload {
            len_payload,
            err_code,
            invoke_id,
            cmd,
        }).read_size() == len_payload,
{
}

/// What is known of a frame behind its header, of a request or of a response and
/// whatever its state flags: its length, its error code and its invoke id as the
/// header states them, and the command that has the code of the header, or
/// `Invalid` where none has it. Behind a header that states no payload the next
/// header is read.
pub proof fn law_behind_header(header: Seq<u8>)
    ensures
        u32_at(header, 26) == 0 ==> behind_header(header) is ReadHeader,
        u32_at(header, 26) > 0 ==> (behind_header(header) matches ProcessStateMachine::ReadPayload {
            len_payload,
            err_code,
            invoke_id,
            cmd,
        } && {
            &&& len_payload == u32_at(header, 26)
            &&& err_code == u32_at(header, 30)
            &&& invoke_id == u32_at(header, 34)
            &&& u16_at(header, 22) <= 9 ==> cmd.as_code() == u16_at(header, 22)
            &&& u16_at(header, 22) > 9 ==> cmd == AdsCommand::Invalid
            &&& command_of(u16_at(header, 22)) matches Some(known) ==> cmd == known
            &&& command_of(u16_at(header, 22)) is None ==> cmd == AdsCommand::Invalid
            &&& cmd == AdsCommand::DeviceNotification <==> u16_at(header, 22) == 8
        }),
{
    law_header_offsets(header);
    law_command_numbers(u16_at(header, 22));
}

/// The payload of a notification is handed on as a notification, whole, and that
/// of anything else as the response to its request, whole, with its error code
/// and its invoke id; either way a header is read next.
pub proof fn law_payload_is_handed_on(
    len_payload: usize,
    err_code: u32,
    invoke_id: u32,
    cmd: AdsCommand,
    payload: Seq<u8>,
    retry_delay: Option<Duration>,
)
    ensures
        ({
            let state = ProcessStateMachine::ReadPayload { len_payload, err_code, invoke_id, cmd };
            let (next, action) = state.after(ReadEventView::Filled(payload), retry_delay);
            &&& next == ProcessStateMachine::ReadHeader
            &&& cmd == AdsCommand::DeviceNotification ==> action == ActionView::Notification(
                payload,
            )
            &&& cmd != AdsCommand::DeviceNotification ==> action == (ActionView::Response {
                err_code,
                invoke_id,
                data: payload,
            })
        }),
{
}

/// A header that was read is not acted on; what follows is what stands behind it.
/// Nothing read leads back to a header. Where the connection was not ready or
/// failed, the same is read again, after a failure only once the delay is over, if
/// there is one.
pub proof fn law_other_events(
    state: ProcessStateMachine,
    header: Seq<u8>,
    delay: Duration,
    retry_delay: Option<Duration>,
)
    ensures
        ProcessStateMachine::ReadHeader.after(ReadEventView::Filled(header), retry_delay) == (
            behind_header(header),
            ActionView::Read,
        ),
        state.after(ReadEventView::Empty, retry_delay) == (
            ProcessStateMachine::ReadHeader,
            ActionView::Read,
        ),
        state.after(ReadEventView::WouldBlock, retry_delay) == (state, ActionView::Read),
        state.after(ReadEventView::Failed, None) == (state, ActionView::Read),
        state.after(ReadEventView::Failed, Some(delay)) == (state, ActionView::Wait(delay)),
{
}

/// A frame with a payload is handed on by the command of its header: with code 8 as
/// a notification, with any other code as the response to the request with the
/// invoke id of the header.
pub proof fn law_frame_is_handed_on(
    header: Seq<u8>,
    payload: Seq<u8>,
    retry_delay: Option<Duration>,
)
    requires
        u32_at(header, 26) > 0,
    ensures
        ({
            let behind = ProcessStateMachine::ReadHeader.after(
                ReadEventView::Filled(header),
                retry_delay,
            ).0;
            behind.after(ReadEventView::Filled(payload), retry_delay) == (
                ProcessStateMachine::ReadHeader,
                if u16_at(header, 22) == 8 {
                    ActionView::Notification(payload)
                } else {
                    ActionView::Response {
                        err_code: u32_at(header, 30),
                        invoke_id: u32_at(header, 34),
                        data: payload,
                    }
                },
            )
        }),
{
    law_behind_header(header);
    law_other_events(ProcessStateMachine::ReadHeader, header, arbitrary(), retry_delay);
}

/// A notification reaches the notification processing: a frame whose header
/// carries command code 8 and a length leads to exactly one thing to be done, the
/// processing of its payload as a notification.
pub proof fn law_notification_is_handed_on(frame: Frame, retry_delay: Option<Duration>)
    requires
        u16_at(frame.header, 22) == 8,
        u32_at(frame.header, 26) > 0,
    ensures
        run(ProcessStateMachine::ReadHeader, frame_events(seq![frame]), retry_delay) == (
            ProcessStateMachine::ReadHeader,
            seq![ActionView::Notification(frame.payload)],
        ),
{
    law_header_offsets(frame.header);
    law_frames(seq![frame], retry_delay);
    assert(seq![frame].drop_first() =~= Seq::<Frame>::empty());
    reveal_with_fuel(frame_actions, 2);
    let actions = frame_actions(seq![frame]);
    assert(actions =~= seq![ActionView::Notification(frame.payload)]);
}

/// What an event and an action stand for is what they hold.
pub proof fn law_views_of_reading(
    buffer: BytesMut,
    delay: Duration,
    err_code: u32,
    invoke_id: u32,
    data: Bytes,
)
    ensures
        ReadEvent::Empty@ == ReadEventView::Empty,
        ReadEvent::Filled(buffer)@ == ReadEventView::Filled(buffer_contents(buffer)),
        ReadEvent::WouldBlock@ == ReadEventView::WouldBlock,
        ReadEvent::Failed@ == ReadEventView::Failed,
        Action::Read@ == ActionView::Read,
        Action::Wait(delay)@ == ActionView::Wait(delay),
        Action::Notification(data)@ == ActionView::Notification(bytes_contents(data)),
        (Action::Response { err_code, invoke_id, data })@ == (ActionView::Response {
            err_code,
            invoke_id,
            data: bytes_contents(data),
        }),
{
}

/// A new reader starts with a header and waits as it was told.
pub proof fn law_new_reader(reader: ResponseReader, retry_delay: Option<Duration>)
    ensures
        reader.is_new(retry_delay) <==> reader.state is ReadHeader && reader.retry_delay
            == retry_delay,
{
}

} // verus!
