//! The client.

use crate::command::CommandWriteHandle;
use crate::header::{blank_header, encode_blank_header, law_blank_header, HEADER_SIZE};
use crate::notification::NotHandle;
use crate::response::{ProcessStateMachine, ResponseReader};
use crate::types::{AdsError, AdsErrorView, AdsTimeout, AmsAddr, AmsNetId};
use crate::wire::{law_u16_codec, lemma_u16_at, read_u16, u16_at, u16_bytes};
use std::time::Duration;
use vstd::prelude::*;

verus! {

/// What is known of a connection to an ADS device, with the registers of the
/// requests and of the callbacks that wait.
#[derive(Debug)]
pub struct Client<C> {
    /// The device that requests go to.
    pub dst_ams_addr: AmsAddr,
    /// The address of the client itself.
    pub src_ams_addr: AmsAddr,
    /// How long to wait for a response, in seconds.
    pub timeout: u64,
    /// The requests that wait for their response.
    pub cmd_handles: Vec<CommandWriteHandle>,
    /// The callbacks for device notifications.
    pub not_handles: Vec<NotHandle<C>>,
    /// The header of a request, as far as all requests share it.
    pub ams_header: [u8; HEADER_SIZE],
    /// The next invoke id.
    pub hdl_cnt: u16,
}

impl<C> Client<C> {
    /// The header that the requests share is the one between the two addresses.
    pub open spec fn wf(self) -> bool {
        self.ams_header@ == blank_header(self.dst_ams_addr, self.src_ams_addr).bytes()
    }
}

/// What is sent to the router to be given an address.
pub open spec fn handshake() -> Seq<u8> {
    seq![0x00u8, 0x10u8, 0x02u8, 0x00u8, 0x00u8, 0x00u8, 0x00u8, 0x00u8]
}

/// The address that a client goes by: the one it was given, else the one that
/// the router gives it in its answer.
pub open spec fn goes_by(
    src_ams_addr: Option<AmsAddr>,
    answer: Option<[u8; 14]>,
    addr: AmsAddr,
) -> bool {
    match (src_ams_addr, answer) {
        (Some(given), _) => addr == given,
        (None, Some(bytes)) => addr.0.0@ == bytes@.subrange(6, 12) && addr.1 == u16_at(bytes@, 12),
        (None, None) => false,
    }
}

/// The error for a router that gives no answer.
pub open spec fn port_disabled() -> AdsErrorView {
    AdsErrorView {
        n_error: 18,
        s_msg: "Port disabled – TwinCAT system service not started."@,
    }
}

impl Client<()> {
    /// What to send to the router over a new connection, if anything: a client
    /// that has an address need not ask for one.
    pub fn connect_request(src_ams_addr: &Option<AmsAddr>) -> (request: Option<[u8; 8]>)
        ensures
            match request {
                Some(bytes) => {
                    &&& src_ams_addr is None
                    &&& bytes@ == handshake()
                    &&& bytes@ == seq![0u8, 16u8, 2u8, 0u8, 0u8, 0u8, 0u8, 0u8]
                },
                None => src_ams_addr is Some,
            },
    {
        match src_ams_addr {
            Some(_) => None,
            None => Some([0x00, 0x10, 0x02, 0x00, 0x00, 0x00, 0x00, 0x00]),
        }
    }

    /// Settles the address of the client, from the one it was given and from
    /// what the router answered, if it was asked and did.
    pub fn connect(src_ams_addr: &Option<AmsAddr>, answer: &Option<[u8; 14]>) -> (addr: Result<
        AmsAddr,
        AdsError,
    >)
        ensures
            match addr {
                Ok(a) => {
                    &&& goes_by(*src_ams_addr, *answer, a)
                    &&& src_ams_addr matches Some(given) ==> a == given
                    &&& src_ams_addr is None ==> (answer matches Some(bytes)
                        && bytes@.subrange(6, 14) == a.0.0@ + u16_bytes(a.1))
                },
                Err(e) => src_ams_addr is None && answer is None && e@ == port_disabled(),
            },
    {
        if let Some(given) = src_ams_addr {
            return Ok(*given);
        }
        match answer {
            Some(bytes) => {
                let net_id = AmsNetId(
                    [bytes[6], bytes[7], bytes[8], bytes[9], bytes[10], bytes[11]],
                );
                let port: u16 = read_u16(bytes.as_slice(), 12);
                assert(net_id.0@ =~= bytes@.subrange(6, 12));
                proof {
                    law_u16_codec(port, bytes@.subrange(12, 14));
                    assert(u16_at(bytes@, 12) == u16_at(bytes@.subrange(12, 14), 0));
                    assert(bytes@.subrange(6, 14) =~= net_id.0@ + u16_bytes(port));
                }
                Ok((net_id, port))
            },
            None => Err(
                AdsError::new(18, "Port disabled – TwinCAT system service not started."),
            ),
        }
    }

    /// What writing to the socket comes to.
    pub fn socket_write(written: bool) -> (r: Result<(), AdsError>)
        ensures
            match r {
                Ok(_) => written,
                Err(e) => !written && e@ == (AdsErrorView {
                    n_error: 10,
                    s_msg: "Writing to Tcp Stream socket failed"@,
                }),
            },
    {
        if written {
            Ok(())
        } else {
            Err(AdsError::new(10, "Writing to Tcp Stream socket failed"))
        }
    }
}

impl<C> Client<C> {
    /// The client is new: it is for the device `dst_ams_addr`, goes by the
    /// address that it was given or that the router answered, and nothing is
    /// registered with it.
    pub open spec fn is_new(
        self,
        dst_ams_addr: AmsAddr,
        src_ams_addr: Option<AmsAddr>,
        timeout: AdsTimeout,
        answer: Option<[u8; 14]>,
    ) -> bool {
        &&& self.dst_ams_addr == dst_ams_addr
        &&& goes_by(src_ams_addr, answer, self.src_ams_addr)
        &&& self.timeout == timeout.in_seconds()
        &&& self.cmd_handles@ == Seq::<CommandWriteHandle>::empty()
        &&& self.not_handles@ == Seq::<NotHandle<C>>::empty()
        &&& self.hdl_cnt == 1
        &&& self.wf()
    }

    /// Makes a client for the device `dst_ams_addr`, and the reader of what comes
    /// in for it. The address of the client is settled as by
    /// [`Client::connect`].
    pub fn new(
        dst_ams_addr: AmsAddr,
        src_ams_addr: Option<AmsAddr>,
        timeout: AdsTimeout,
        retry_delay: Option<Duration>,
        answer: Option<[u8; 14]>,
    ) -> (made: Result<(Client<C>, ResponseReader), AdsError>)
        ensures
            match made {
                Ok((client, reader)) => {
                    &&& client.is_new(dst_ams_addr, src_ams_addr, timeout, answer)
                    &&& reader.is_new(retry_delay)
                    &&& reader.retry_delay == retry_delay
                    &&& client.dst_ams_addr == dst_ams_addr
                    &&& src_ams_addr matches Some(given) ==> client.src_ams_addr == given
                    &&& src_ams_addr is None ==> (answer matches Some(bytes)
                        && bytes@.subrange(6, 14) == client.src_ams_addr.0.0@ + u16_bytes(
                        client.src_ams_addr.1,
                    ))
                    &&& timeout matches AdsTimeout::CustomTimeout(time) ==> client.timeout == time
                    &&& timeout is DefaultTimeout ==> client.timeout == 5
                },
                Err(e) => src_ams_addr is None && answer is None && e@ == port_disabled(),
            },
    {
        let src_ams_addr = match Client::connect(&src_ams_addr, &answer) {
            Ok(addr) => addr,
            Err(e) => return Err(e),
        };
        let ams_header = encode_blank_header(&dst_ams_addr, &src_ams_addr);
        let client = Client {
            dst_ams_addr,
            src_ams_addr,
            timeout: timeout.seconds(),
            cmd_handles: Vec::new(),
            not_handles: Vec::new(),
            ams_header,
            hdl_cnt: 1,
        };
        Ok((client, ResponseReader { state: ProcessStateMachine::ReadHeader, retry_delay }))
    }

    /// Registers a callback for a notification handle.
    pub fn register_not_handle(&mut self, not_hdl: u32, callback: C)
        ensures
            final(self).not_handles@ == old(self).not_handles@.push(
                NotHandle { callback, not_hdl },
            ),
            *final(self) == (Client { not_handles: final(self).not_handles, ..*old(self) }),
            old(self).wf() ==> final(self).wf(),
    {
        self.not_handles.push(NotHandle { callback, not_hdl });
    }
}

/// The router's answer gives the client its address: on an answer of any six
/// bytes, a NetId and a port, a client that was given no address goes by this
/// NetId and this port, and by no other.
pub proof fn law_router_gives_the_address(
    lead: Seq<u8>,
    net_id: AmsNetId,
    port: u16,
    answer: [u8; 14],
    addr: AmsAddr,
)
    requires
        lead.len() == 6,
        answer@ == lead + net_id.0@ + u16_bytes(port),
    ensures
        goes_by(None, Some(answer), addr) <==> addr == (net_id, port),
{
    assert(answer@.subrange(6, 12) =~= net_id.0@);
    lemma_u16_at(lead + net_id.0@, port, Seq::empty());
    assert(lead + net_id.0@ + u16_bytes(port) + Seq::empty() =~= answer@);
    if goes_by(None, Some(answer), addr) {
        assert(addr.0.0@ =~= net_id.0@);
        assert(addr.0.0 =~= net_id.0);
    }
}

/// A client that was given an address goes by it, whatever the router says; one
/// that was neither given an address nor an answer goes by none. No two addresses
/// come of one answer.
pub proof fn law_given_address_counts(
    given: AmsAddr,
    answer: Option<[u8; 14]>,
    addr: AmsAddr,
    other: AmsAddr,
)
    ensures
        goes_by(Some(given), answer, addr) <==> addr == given,
        !goes_by(None, None, addr),
        goes_by(None, answer, addr) && goes_by(None, answer, other) ==> addr == other,
{
    if goes_by(None, answer, addr) && goes_by(None, answer, other) {
        assert(addr.0.0@ =~= other.0.0@);
        assert(addr.0.0 =~= other.0.0);
    }
}

/// What is sent to a router is the request to open a port: command 0x1000, two
/// bytes of data, which are zero, as an AMS/TCP packet without an AMS header has
/// it. A router that does not answer is error 18.
pub proof fn law_handshake()
    ensures
        handshake() == seq![0u8, 16u8, 2u8, 0u8, 0u8, 0u8, 0u8, 0u8],
        port_disabled().n_error == 18,
        port_disabled().s_msg == "Port disabled – TwinCAT system service not started."@,
{
}

/// A new client has the addresses and the timeout that it was made with, waits
/// for nothing, and counts from one.
pub proof fn law_new_client<C>(
    client: Client<C>,
    dst_ams_addr: AmsAddr,
    src_ams_addr: Option<AmsAddr>,
    timeout: AdsTimeout,
    answer: Option<[u8; 14]>,
)
    requires
        client.is_new(dst_ams_addr, src_ams_addr, timeout, answer),
    ensures
        client.dst_ams_addr == dst_ams_addr,
        src_ams_addr matches Some(given) ==> client.src_ams_addr == given,
        src_ams_addr is None ==> goes_by(None, answer, client.src_ams_addr),
        timeout matches AdsTimeout::CustomTimeout(time) ==> client.timeout == time,
        timeout is DefaultTimeout ==> client.timeout == 5,
        client.cmd_handles@.len() == 0,
        client.not_handles@.len() == 0,
        client.hdl_cnt == 1,
        client.wf(),
{
}

/// The shared header of a client carries the two addresses of the client and the
/// flags of a request, and is zero where a request is filled in.
pub proof fn law_shared_header<C>(client: Client<C>)
    requires
        client.wf(),
    ensures
        client.ams_header@.subrange(6, 12) == client.dst_ams_addr.0.0@,
        client.ams_header@[12] + 256 * client.ams_header@[13] == client.dst_ams_addr.1,
        client.ams_header@.subrange(14, 20) == client.src_ams_addr.0.0@,
        client.ams_header@[20] + 256 * client.ams_header@[21] == client.src_ams_addr.1,
        client.ams_header@[24] == 4,
        client.ams_header@[25] == 0,
        forall|i: int|
            0 <= i < 6 || 22 <= i < 24 || 26 <= i < 38 ==> #[trigger] client.ams_header@[i] == 0,
{
    law_blank_header(client.dst_ams_addr, client.src_ams_addr);
}

} // verus!
