//! The AMS/TCP header that every ADS frame starts with.

use crate::client::Client;
use crate::types::{command_of, law_command_codes, AdsCommand, AdsError, AdsErrorView, AmsAddr};
use crate::wire::{
    encode_low_first, lemma_u16_at, lemma_u16_low_first_at, lemma_u32_at, read_u16, read_u32,
    u16_at, u16_bytes, u16_low_first, u16_low_first_at, u16_to_ne_bytes, u32_at, u32_bytes,
    u32_to_ne_bytes,
};
use vstd::prelude::*;

verus! {

/// Size of the AMS/TCP and the AMS header together.
pub const HEADER_SIZE: usize = 38;

/// Size of the AMS header: without the leading zeros and the length.
pub const AMS_HEADER_SIZE: usize = HEADER_SIZE - 6;

/// State flags of a request: an ADS command.
pub const STATE_FLAGS: u16 = 4;

/// The fields of a header.
pub struct Header {
    /// Number of bytes of the frame that follow this field.
    pub frame_length: u32,
    /// Whom the frame is for.
    pub target: AmsAddr,
    /// Whom the frame is from.
    pub source: AmsAddr,
    pub command: u16,
    pub state_flags: u16,
    /// Number of bytes that follow the header.
    pub length: u32,
    pub error_code: u32,
    pub invoke_id: u32,
}

impl Header {
    /// The bytes of the header.
    pub open spec fn bytes(self) -> Seq<u8> {
        seq![0u8, 0u8] + u32_bytes(self.frame_length) + self.target.0.0@ + u16_low_first(
            self.target.1,
        ) + self.source.0.0@ + u16_low_first(self.source.1) + u16_bytes(self.command)
            + u16_low_first(self.state_flags) + u32_bytes(self.length) + u32_bytes(self.error_code)
            + u32_bytes(self.invoke_id)
    }
}

/// The header between two addresses before anything is known of a request.
pub open spec fn blank_header(target: AmsAddr, source: AmsAddr) -> Header {
    Header {
        frame_length: 0,
        target,
        source,
        command: 0,
        state_flags: STATE_FLAGS,
        length: 0,
        error_code: 0,
        invoke_id: 0,
    }
}

/// The header of a request with a payload of `length` bytes.
pub open spec fn request_header(
    target: AmsAddr,
    source: AmsAddr,
    invoke_id: u32,
    length: u32,
    cmd: AdsCommand,
) -> Header {
    Header {
        frame_length: (AMS_HEADER_SIZE + length) as u32,
        command: cmd.as_code(),
        length,
        invoke_id,
        ..blank_header(target, source)
    }
}

/// The bytes of a shared header with a request filled in: the length of the frame
/// at 2, the command at 22, the length of the payload at 26 and the invoke id at
/// 34.
pub open spec fn with_request(
    shared: Seq<u8>,
    invoke_id: u32,
    length: u32,
    cmd: AdsCommand,
) -> Seq<u8> {
    shared.subrange(0, 2) + u32_bytes((AMS_HEADER_SIZE + length) as u32) + shared.subrange(6, 22)
        + u16_bytes(cmd.as_code()) + shared.subrange(24, 26) + u32_bytes(length) + shared.subrange(
        30,
        34,
    ) + u32_bytes(invoke_id)
}

/// The length of the payload, as a header states it.
pub open spec fn header_length(header: Seq<u8>) -> u32 {
    u32_at(header, HEADER_SIZE - 12)
}

/// The error code that a header states.
pub open spec fn header_error_code(header: Seq<u8>) -> u32 {
    u32_at(header, HEADER_SIZE - 8)
}

/// The invoke id that a header states.
pub open spec fn header_invoke_id(header: Seq<u8>) -> u32 {
    u32_at(header, HEADER_SIZE - 4)
}

/// The code of the command that a header states.
pub open spec fn header_command(header: Seq<u8>) -> u16 {
    u16_at(header, HEADER_SIZE - 16)
}

/// Writes the header between two addresses, with nothing of a request in it.
pub(crate) fn encode_blank_header(target: &AmsAddr, source: &AmsAddr) -> (header: [u8; HEADER_SIZE])
    ensures
        header@ == blank_header(*target, *source).bytes(),
        header@.subrange(6, 12) == target.0.0@,
        header@.subrange(12, 14) == u16_low_first(target.1),
        header@.subrange(14, 20) == source.0.0@,
        header@.subrange(20, 22) == u16_low_first(source.1),
        header@.subrange(24, 26) == seq![4u8, 0u8],
{
    let target_id = target.0.0;
    let source_id = source.0.0;
    let target_port = encode_low_first(target.1);
    let source_port = encode_low_first(source.1);
    let state_flags = encode_low_first(STATE_FLAGS);
    [
        0, // Reserved
        0,
        0, // Header size and payload
        0,
        0,
        0,
        target_id[0], // Target NetId
        target_id[1],
        target_id[2],
        target_id[3],
        target_id[4],
        target_id[5],
        target_port[0], // Target port
        target_port[1],
        source_id[0], // Source NetId
        source_id[1],
        source_id[2],
        source_id[3],
        source_id[4],
        source_id[5],
        source_port[0], // Source port
        source_port[1],
        0, // Command id
        0,
        state_flags[0], // State flags
        state_flags[1],
        0, // Length
        0,
        0,
        0,
        0, // Error code
        0,
        0,
        0,
        0, // Invoke id
        0,
        0,
        0,
    ]
}

/// Copies the four bytes of `v` to offset `at`.
fn put_u32(header: &mut [u8; HEADER_SIZE], at: usize, v: u32)
    requires
        at + 4 <= HEADER_SIZE,
    ensures
        final(header)@ == patched(old(header)@, at as int, u32_bytes(v)),
{
    let bytes = u32_to_ne_bytes(v);
    header[at] = bytes[0];
    header[at + 1] = bytes[1];
    header[at + 2] = bytes[2];
    header[at + 3] = bytes[3];
}

/// Copies the two bytes of `v` to offset `at`.
fn put_u16(header: &mut [u8; HEADER_SIZE], at: usize, v: u16)
    requires
        at + 2 <= HEADER_SIZE,
    ensures
        final(header)@ == patched(old(header)@, at as int, u16_bytes(v)),
{
    let bytes = u16_to_ne_bytes(v);
    header[at] = bytes[0];
    header[at + 1] = bytes[1];
}

/// The sequence `s` with `part` in place of what stands from offset `at` on.
spec fn patched(s: Seq<u8>, at: int, part: Seq<u8>) -> Seq<u8> {
    s.subrange(0, at) + part + s.subrange(at + part.len(), HEADER_SIZE as int)
}

/// The four patches of a request, one after the other.
proof fn lemma_patches(s: Seq<u8>, frame: Seq<u8>, command: Seq<u8>, length: Seq<u8>, id: Seq<u8>)
    requires
        s.len() == HEADER_SIZE,
        frame.len() == 4,
        command.len() == 2,
        length.len() == 4,
        id.len() == 4,
    ensures
        patched(patched(patched(patched(s, 2, frame), 22, command), 26, length), 34, id)
            == s.subrange(0, 2) + frame + s.subrange(6, 22) + command + s.subrange(24, 26) + length
            + s.subrange(30, 34) + id,
{
    let one = patched(s, 2, frame);
    let two = patched(one, 22, command);
    let three = patched(two, 26, length);
    assert(two =~= s.subrange(0, 2) + frame + s.subrange(6, 22) + command + s.subrange(24, 38));
    assert(three =~= s.subrange(0, 2) + frame + s.subrange(6, 22) + command + s.subrange(24, 26)
        + length + s.subrange(30, 38));
    assert(patched(three, 34, id) =~= s.subrange(0, 2) + frame + s.subrange(6, 22) + command
        + s.subrange(24, 26) + length + s.subrange(30, 34) + id);
}

impl<C> Client<C> {
    /// Writes the header of a request: what the client knows of the connection,
    /// with the invoke id, the length of the payload and the command filled in.
    pub fn c_init_ams_header(
        &self,
        invoke_id: u32,
        length_payload: Option<u32>,
        cmd: AdsCommand,
    ) -> (header: [u8; HEADER_SIZE])
        requires
            length_payload matches Some(length) ==> AMS_HEADER_SIZE + length <= u32::MAX,
        ensures
            ({
                let length = match length_payload {
                    Some(length) => length,
                    None => 0,
                };
                &&& header@ == with_request(self.ams_header@, invoke_id, length, cmd)
                &&& u32_at(header@, 2) == 32 + length
                &&& command_of(u16_at(header@, 22)) == Some(cmd)
                &&& u32_at(header@, 26) == length
                &&& u32_at(header@, 34) == invoke_id
                &&& self.wf() ==> header@ == request_header(
                    self.dst_ams_addr,
                    self.src_ams_addr,
                    invoke_id,
                    length,
                    cmd,
                ).bytes()
            }),
    {
        let length_payload: u32 = match length_payload {
            Some(length) => length,
            None => 0,
        };
        let length_header: u32 = AMS_HEADER_SIZE as u32 + length_payload;
        let mut header: [u8; HEADER_SIZE] = self.ams_header;
        put_u32(&mut header, 2, length_header);
        put_u16(&mut header, 22, cmd.code());
        put_u32(&mut header, 26, length_payload);
        put_u32(&mut header, 34, invoke_id);
        proof {
            lemma_patches(
                self.ams_header@,
                u32_bytes(length_header),
                u16_bytes(cmd.as_code()),
                u32_bytes(length_payload),
                u32_bytes(invoke_id),
            );
            law_request_is_filled_in(self.ams_header@, invoke_id, length_payload, cmd);
            law_request_fills_header(
                self.dst_ams_addr,
                self.src_ams_addr,
                invoke_id,
                length_payload,
                cmd,
            );
        }
        header
    }
}

impl Client<()> {
    /// Reads the error code of a header. The header must reach behind it.
    pub fn extract_error_code(answer: &[u8]) -> (code: Result<u32, AdsError>)
        requires
            answer.len() >= HEADER_SIZE - 4,
        ensures
            code matches Ok(c) && c == header_error_code(answer@) && c == u32_at(answer@, 30),
    {
        Ok(read_u32(answer, HEADER_SIZE - 8))
    }

    /// Reads the invoke id of a header. The header must reach behind it.
    pub fn extract_invoke_id(answer: &[u8]) -> (id: Result<u32, AdsError>)
        requires
            answer.len() >= HEADER_SIZE,
        ensures
            id matches Ok(i) && i == header_invoke_id(answer@) && i == u32_at(answer@, 34),
    {
        Ok(read_u32(answer, HEADER_SIZE - 4))
    }

    /// Reads the command of a header. The header must reach behind it.
    pub fn extract_cmd_tyte(answer: &[u8]) -> (cmd: Result<AdsCommand, AdsError>)
        requires
            answer.len() >= HEADER_SIZE - 14,
        ensures
            match cmd {
                Ok(c) => {
                    &&& command_of(header_command(answer@)) == Some(c)
                    &&& c.as_code() == u16_at(answer@, 22)
                },
                Err(e) => command_of(header_command(answer@)) is None && e@ == (AdsErrorView {
                    n_error: 8,
                    s_msg: "Unknown command ID"@,
                }),
            },
    {
        AdsCommand::from_code(read_u16(answer, HEADER_SIZE - 16))
    }

    /// Reads the length of the payload from a header. The header must reach
    /// behind it.
    pub fn extract_length(answer: &[u8]) -> (length: Result<usize, AdsError>)
        requires
            answer.len() >= HEADER_SIZE - 8,
        ensures
            length matches Ok(l) && l == header_length(answer@) && l == u32_at(answer@, 26),
    {
        Ok(read_u32(answer, HEADER_SIZE - 12) as usize)
    }

    /// Reads the length that a notification stream states for itself, without
    /// the length field.
    pub fn not_extract_length(answer: &[u8]) -> (length: Result<usize, AdsError>)
        requires
            answer.len() >= 4,
        ensures
            length matches Ok(l) && l == u32_at(answer@, 0),
    {
        Ok(read_u32(answer, 0) as usize)
    }

    /// Reads the number of stamps of a notification stream.
    pub fn not_extract_stamps(answer: &[u8]) -> (stamps: Result<u32, AdsError>)
        requires
            answer.len() >= 8,
        ensures
            stamps matches Ok(n) && n == u32_at(answer@, 4),
    {
        Ok(read_u32(answer, 4))
    }

    /// Judges the return code that a payload starts with.
    pub fn eval_return_code(answer: &[u8]) -> (code: Result<u32, AdsError>)
        requires
            answer.len() >= 4,
        ensures
            match code {
                Ok(c) => c == 0 && u32_at(answer@, 0) == 0,
                Err(e) => u32_at(answer@, 0) != 0 && e@ == (AdsErrorView {
                    n_error: u32_at(answer@, 0),
                    s_msg: "Errorcode of ADS response"@,
                }),
            },
    {
        let ret_code: u32 = read_u32(answer, 0);
        if ret_code != 0 {
            Err(AdsError::new(ret_code, "Errorcode of ADS response"))
        } else {
            Ok(ret_code)
        }
    }

    /// Judges the error code of a header.
    pub fn eval_ams_error(ams_err: u32) -> (r: Result<(), AdsError>)
        ensures
            match r {
                Ok(_) => ams_err == 0,
                Err(e) => ams_err != 0 && e@ == (AdsErrorView {
                    n_error: ams_err,
                    s_msg: "Errorcode of ADS response"@,
                }),
            },
    {
        if ams_err != 0 {
            return Err(AdsError::new(ams_err, "Errorcode of ADS response"));
        }
        Ok(())
    }
}

/// The header of a request is the one between its two addresses, with the
/// request filled in.
pub proof fn law_request_fills_header(
    target: AmsAddr,
    source: AmsAddr,
    invoke_id: u32,
    length: u32,
    cmd: AdsCommand,
)
    requires
        AMS_HEADER_SIZE + length <= u32::MAX,
    ensures
        with_request(blank_header(target, source).bytes(), invoke_id, length, cmd)
            == request_header(target, source, invoke_id, length, cmd).bytes(),
{
    assert(with_request(blank_header(target, source).bytes(), invoke_id, length, cmd)
        =~= request_header(target, source, invoke_id, length, cmd).bytes());
}

/// What is written into a header is read back from it.
pub proof fn law_header_fields(h: Header)
    ensures
        h.bytes().len() == HEADER_SIZE,
        u16_at(h.bytes(), 0) == 0,
        u32_at(h.bytes(), 2) == h.frame_length,
        h.bytes().subrange(6, 12) == h.target.0.0@,
        u16_low_first_at(h.bytes(), 12) == h.target.1,
        h.bytes().subrange(14, 20) == h.source.0.0@,
        u16_low_first_at(h.bytes(), 20) == h.source.1,
        u16_low_first_at(h.bytes(), 24) == h.state_flags,
        header_length(h.bytes()) == h.length,
        header_error_code(h.bytes()) == h.error_code,
        header_invoke_id(h.bytes()) == h.invoke_id,
        header_command(h.bytes()) == h.command,
{
    let b = h.bytes();
    assert(b.subrange(6, 12) =~= h.target.0.0@);
    assert(b.subrange(14, 20) =~= h.source.0.0@);
    lemma_u16_low_first_at(b.subrange(0, 12), h.target.1, b.subrange(14, 38));
    assert(b.subrange(0, 12) + u16_low_first(h.target.1) + b.subrange(14, 38) =~= b);
    lemma_u16_low_first_at(b.subrange(0, 20), h.source.1, b.subrange(22, 38));
    assert(b.subrange(0, 20) + u16_low_first(h.source.1) + b.subrange(22, 38) =~= b);
    lemma_u16_low_first_at(b.subrange(0, 24), h.state_flags, b.subrange(26, 38));
    assert(b.subrange(0, 24) + u16_low_first(h.state_flags) + b.subrange(26, 38) =~= b);
    lemma_u32_at(b.subrange(0, 2), h.frame_length, b.subrange(6, 38));
    assert(b.subrange(0, 2) + u32_bytes(h.frame_length) + b.subrange(6, 38) =~= b);
    lemma_u16_at(b.subrange(0, 22), h.command, b.subrange(24, 38));
    assert(b.subrange(0, 22) + u16_bytes(h.command) + b.subrange(24, 38) =~= b);
    lemma_u32_at(b.subrange(0, 26), h.length, b.subrange(30, 38));
    assert(b.subrange(0, 26) + u32_bytes(h.length) + b.subrange(30, 38) =~= b);
    lemma_u32_at(b.subrange(0, 30), h.error_code, b.subrange(34, 38));
    assert(b.subrange(0, 30) + u32_bytes(h.error_code) + b.subrange(34, 38) =~= b);
    lemma_u32_at(b.subrange(0, 34), h.invoke_id, b.subrange(38, 38));
    assert(b.subrange(0, 34) + u32_bytes(h.invoke_id) + b.subrange(38, 38) =~= b);
}

/// The header between two addresses carries them and the flags of a request, and
/// is zero elsewhere.
pub proof fn law_blank_header(target: AmsAddr, source: AmsAddr)
    ensures
        ({
            let header = blank_header(target, source).bytes();
            &&& header.len() == 38
            &&& header.subrange(6, 12) == target.0.0@
            &&& header[12] + 256 * header[13] == target.1
            &&& header.subrange(14, 20) == source.0.0@
            &&& header[20] + 256 * header[21] == source.1
            &&& header[24] == 4
            &&& header[25] == 0
            &&& forall|i: int|
                0 <= i < 6 || 22 <= i < 24 || 26 <= i < 38 ==> #[trigger] header[i] == 0
        }),
{
    let header = blank_header(target, source).bytes();
    assert(header.subrange(6, 12) =~= target.0.0@);
    assert(header.subrange(14, 20) =~= source.0.0@);
}

/// A request is addressed to whom it is for, from whom it is from: its header
/// carries both addresses whole, whatever they are, with the flags of a request,
/// no error, the invoke id, the length and the command of the request, and the
/// number of bytes that follow the length of the frame.
pub proof fn law_request_is_addressed(
    target: AmsAddr,
    source: AmsAddr,
    invoke_id: u32,
    length: u32,
    cmd: AdsCommand,
)
    requires
        32 + length <= u32::MAX,
    ensures
        ({
            let header = request_header(target, source, invoke_id, length, cmd).bytes();
            &&& header.len() == 38
            &&& header[0] == 0 && header[1] == 0
            &&& u32_at(header, 2) == 32 + length
            &&& header.subrange(6, 12) == target.0.0@
            &&& u16_low_first_at(header, 12) == target.1
            &&& header[12] + 256 * header[13] == target.1
            &&& header.subrange(14, 20) == source.0.0@
            &&& u16_low_first_at(header, 20) == source.1
            &&& header[20] + 256 * header[21] == source.1
            &&& command_of(u16_at(header, 22)) == Some(cmd)
            &&& u16_low_first_at(header, 24) == 4
            &&& u32_at(header, 26) == length
            &&& u32_at(header, 30) == 0
            &&& u32_at(header, 34) == invoke_id
        }),
{
    let h = request_header(target, source, invoke_id, length, cmd);
    law_header_fields(h);
    law_command_codes(cmd, 0);
    assert(h.bytes()[0] == 0 && h.bytes()[1] == 0);
}

/// Where a request is filled into a shared header, what was filled in is read
/// there, and every other byte of the shared header stays.
pub proof fn law_request_is_filled_in(
    shared: Seq<u8>,
    invoke_id: u32,
    length: u32,
    cmd: AdsCommand,
)
    requires
        shared.len() == 38,
        32 + length <= u32::MAX,
    ensures
        ({
            let header = with_request(shared, invoke_id, length, cmd);
            &&& header.len() == 38
            &&& u32_at(header, 2) == 32 + length
            &&& command_of(u16_at(header, 22)) == Some(cmd)
            &&& u32_at(header, 26) == length
            &&& u32_at(header, 34) == invoke_id
            &&& forall|i: int|
                0 <= i < 2 || 6 <= i < 22 || 24 <= i < 26 || 30 <= i < 34
                    ==> #[trigger] header[i] == shared[i]
        }),
{
    let header = with_request(shared, invoke_id, length, cmd);
    lemma_u32_at(header.subrange(0, 2), (32 + length) as u32, header.subrange(6, 38));
    assert(header.subrange(0, 2) + u32_bytes((32 + length) as u32) + header.subrange(6, 38)
        =~= header);
    lemma_u16_at(header.subrange(0, 22), cmd.as_code(), header.subrange(24, 38));
    assert(header.subrange(0, 22) + u16_bytes(cmd.as_code()) + header.subrange(24, 38)
        =~= header);
    lemma_u32_at(header.subrange(0, 26), length, header.subrange(30, 38));
    assert(header.subrange(0, 26) + u32_bytes(length) + header.subrange(30, 38) =~= header);
    lemma_u32_at(header.subrange(0, 34), invoke_id, header.subrange(38, 38));
    assert(header.subrange(0, 34) + u32_bytes(invoke_id) + header.subrange(38, 38) =~= header);
    law_command_codes(cmd, 0);
}

/// Where in a header, of a request or of a response, its fields stand, whatever
/// else the header holds.
pub proof fn law_header_offsets(header: Seq<u8>)
    ensures
        header_command(header) == u16_at(header, 22),
        header_length(header) == u32_at(header, 26),
        header_error_code(header) == u32_at(header, 30),
        header_invoke_id(header) == u32_at(header, 34),
{
}

} // verus!
