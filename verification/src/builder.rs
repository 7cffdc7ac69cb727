//! The builder of a client.

use crate::client::{port_disabled, Client};
use crate::response::ResponseReader;
use crate::types::{AdsError, AdsTimeout, AmsAddr};
use std::time::Duration;
use vstd::prelude::*;

verus! {

/// What a client is made of, before there is a connection.
#[derive(Debug)]
pub struct ClientBuilder<RouterAddr> {
    /// Where the ADS router listens.
    pub router_addr: RouterAddr,
    /// The device that requests go to.
    pub dst_ams_addr: AmsAddr,
    /// The address of the client; `None` to ask the router for one.
    pub src_ams_addr: Option<AmsAddr>,
    /// How long to wait for a response.
    pub timeout: AdsTimeout,
    /// How long to wait before the connection is read again after a failure.
    pub retry_delay: Option<Duration>,
}

impl<RouterAddr: Clone> Clone for ClientBuilder<RouterAddr> {
    fn clone(&self) -> (builder: Self)
        ensures
            cloned(self.router_addr, builder.router_addr),
            builder == self.with_router_addr(builder.router_addr),
    {
        ClientBuilder {
            router_addr: self.router_addr.clone(),
            dst_ams_addr: self.dst_ams_addr,
            src_ams_addr: self.src_ams_addr,
            timeout: self.timeout,
            retry_delay: self.retry_delay,
        }
    }
}

impl ClientBuilder<()> {
    /// Starts with the router on port 48898 of the local host, without an
    /// address for the client, with the default timeout and no delay.
    pub fn new(dst_ams_addr: AmsAddr) -> (builder: ClientBuilder<([u8; 4], u16)>)
        ensures
            builder.router_addr.0@ == seq![127u8, 0u8, 0u8, 1u8],
            builder.router_addr.1 == 48898,
            builder.dst_ams_addr == dst_ams_addr,
            builder.src_ams_addr is None,
            builder.timeout == AdsTimeout::DefaultTimeout,
            builder.retry_delay is None,
    {
        ClientBuilder {
            router_addr: ([127, 0, 0, 1], 48898),
            dst_ams_addr,
            src_ams_addr: None,
            timeout: AdsTimeout::default(),
            retry_delay: None,
        }
    }
}

impl<RouterAddr> ClientBuilder<RouterAddr> {
    /// The builder with another router.
    pub open spec fn with_router_addr<NextRouterAddr>(
        self,
        router_addr: NextRouterAddr,
    ) -> ClientBuilder<NextRouterAddr> {
        ClientBuilder {
            router_addr,
            dst_ams_addr: self.dst_ams_addr,
            src_ams_addr: self.src_ams_addr,
            timeout: self.timeout,
            retry_delay: self.retry_delay,
        }
    }

    /// The builder with an address for the client.
    pub open spec fn with_src_ams_addr(self, src_ams_addr: AmsAddr) -> ClientBuilder<RouterAddr> {
        ClientBuilder { src_ams_addr: Some(src_ams_addr), ..self }
    }

    /// The builder with another timeout.
    pub open spec fn with_timeout(self, timeout: AdsTimeout) -> ClientBuilder<RouterAddr> {
        ClientBuilder { timeout, ..self }
    }

    /// The builder with another delay.
    pub open spec fn with_retry_delay(self, retry_delay: Option<Duration>) -> ClientBuilder<
        RouterAddr,
    > {
        ClientBuilder { retry_delay, ..self }
    }

    /// Sets where the ADS router listens.
    pub fn router_addr<NextRouterAddr>(self, router_addr: NextRouterAddr) -> (builder:
        ClientBuilder<NextRouterAddr>)
        ensures
            builder == self.with_router_addr(router_addr),
    {
        ClientBuilder {
            router_addr,
            dst_ams_addr: self.dst_ams_addr,
            src_ams_addr: self.src_ams_addr,
            timeout: self.timeout,
            retry_delay: self.retry_delay,
        }
    }

    /// Sets the address of the client.
    pub fn src_ams_addr(self, src_ams_addr: AmsAddr) -> (builder: Self)
        ensures
            builder == self.with_src_ams_addr(src_ams_addr),
    {
        ClientBuilder { src_ams_addr: Some(src_ams_addr), ..self }
    }

    /// Sets how long to wait for a response.
    pub fn timeout(self, timeout: AdsTimeout) -> (builder: Self)
        ensures
            builder == self.with_timeout(timeout),
    {
        ClientBuilder { timeout, ..self }
    }

    /// Sets how long to wait before the connection is read again after a
    /// failure.
    pub fn retry_delay(self, retry_delay: Option<Duration>) -> (builder: Self)
        ensures
            builder == self.with_retry_delay(retry_delay),
    {
        ClientBuilder { retry_delay, ..self }
    }

    /// Makes the client and its reader, once there is a connection: `answer` is
    /// what the router answered to the request for an address, if it was asked
    /// and did.
    pub fn build<C>(self, answer: Option<[u8; 14]>) -> (made: Result<
        (Client<C>, ResponseReader),
        AdsError,
    >)
        ensures
            match made {
                Ok((client, reader)) => {
                    &&& client.is_new(
                        self.dst_ams_addr,
                        self.src_ams_addr,
                        self.timeout,
                        answer,
                    )
                    &&& reader.is_new(self.retry_delay)
                    &&& reader.retry_delay == self.retry_delay
                    &&& client.dst_ams_addr == self.dst_ams_addr
                    &&& self.src_ams_addr matches Some(given) ==> client.src_ams_addr == given
                    &&& self.timeout matches AdsTimeout::CustomTimeout(time) ==> client.timeout
                        == time
                    &&& self.timeout is DefaultTimeout ==> client.timeout == 5
                },
                Err(e) => self.src_ams_addr is None && answer is None && e@ == port_disabled(),
            },
    {
        Client::new(
            self.dst_ams_addr,
            self.src_ams_addr,
            self.timeout,
            self.retry_delay,
            answer,
        )
    }
}

/// The order in which a builder is given its parts does not matter.
pub proof fn law_builder_order<R, S>(
    builder: ClientBuilder<R>,
    router_addr: S,
    src_ams_addr: AmsAddr,
    timeout: AdsTimeout,
    retry_delay: Option<Duration>,
)
    ensures
        builder.with_router_addr(router_addr).with_src_ams_addr(src_ams_addr)
            == builder.with_src_ams_addr(src_ams_addr).with_router_addr(router_addr),
        builder.with_router_addr(router_addr).with_timeout(timeout) == builder.with_timeout(
            timeout,
        ).with_router_addr(router_addr),
        builder.with_router_addr(router_addr).with_retry_delay(retry_delay)
            == builder.with_retry_delay(retry_delay).with_router_addr(router_addr),
        builder.with_src_ams_addr(src_ams_addr).with_timeout(timeout) == builder.with_timeout(
            timeout,
        ).with_src_ams_addr(src_ams_addr),
        builder.with_src_ams_addr(src_ams_addr).with_retry_delay(retry_delay)
            == builder.with_retry_delay(retry_delay).with_src_ams_addr(src_ams_addr),
        builder.with_timeout(timeout).with_retry_delay(retry_delay) == builder.with_retry_delay(
            retry_delay,
        ).with_timeout(timeout),
{
}

/// Of two values that a builder is given for one part, the later one counts.
pub proof fn law_builder_last_counts<R, S, T>(
    builder: ClientBuilder<R>,
    router_addr: (S, T),
    src_ams_addr: (AmsAddr, AmsAddr),
    timeout: (AdsTimeout, AdsTimeout),
    retry_delay: (Option<Duration>, Option<Duration>),
)
    ensures
        builder.with_router_addr(router_addr.0).with_router_addr(router_addr.1)
            == builder.with_router_addr(router_addr.1),
        builder.with_src_ams_addr(src_ams_addr.0).with_src_ams_addr(src_ams_addr.1)
            == builder.with_src_ams_addr(src_ams_addr.1),
        builder.with_timeout(timeout.0).with_timeout(timeout.1) == builder.with_timeout(timeout.1),
        builder.with_retry_delay(retry_delay.0).with_retry_delay(retry_delay.1)
            == builder.with_retry_delay(retry_delay.1),
{
}

/// What a builder is given is what it holds, and nothing else of it changes.
pub proof fn law_builder_holds_what_it_is_given<R, S>(
    builder: ClientBuilder<R>,
    router_addr: S,
    src_ams_addr: AmsAddr,
    timeout: AdsTimeout,
    retry_delay: Option<Duration>,
)
    ensures
        ({
            let b = builder.with_router_addr(router_addr);
            &&& b.router_addr == router_addr
            &&& b.dst_ams_addr == builder.dst_ams_addr
            &&& b.src_ams_addr == builder.src_ams_addr
            &&& b.timeout == builder.timeout
            &&& b.retry_delay == builder.retry_delay
        }),
        ({
            let b = builder.with_src_ams_addr(src_ams_addr);
            &&& b.router_addr == builder.router_addr
            &&& b.dst_ams_addr == builder.dst_ams_addr
            &&& b.src_ams_addr == Some(src_ams_addr)
            &&& b.timeout == builder.timeout
            &&& b.retry_delay == builder.retry_delay
        }),
        ({
            let b = builder.with_timeout(timeout);
            &&& b.router_addr == builder.router_addr
            &&& b.dst_ams_addr == builder.dst_ams_addr
            &&& b.src_ams_addr == builder.src_ams_addr
            &&& b.timeout == timeout
            &&& b.retry_delay == builder.retry_delay
        }),
        ({
            let b = builder.with_retry_delay(retry_delay);
            &&& b.router_addr == builder.router_addr
            &&& b.dst_ams_addr == builder.dst_ams_addr
            &&& b.src_ams_addr == builder.src_ams_addr
            &&& b.timeout == builder.timeout
            &&& b.retry_delay == retry_delay
        }),
{
}

/// A client that was built with a custom timeout waits that long, whatever else
/// the builder was given before and after; one that was given none waits five
/// seconds.
pub proof fn law_built_client_waits_as_told<R, C>(
    builder: ClientBuilder<R>,
    time: u64,
    src_ams_addr: AmsAddr,
    retry_delay: Option<Duration>,
    answer: Option<[u8; 14]>,
    client: Client<C>,
)
    ensures
        ({
            let b = builder.with_timeout(AdsTimeout::CustomTimeout(time)).with_src_ams_addr(
                src_ams_addr,
            ).with_retry_delay(retry_delay);
            client.is_new(b.dst_ams_addr, b.src_ams_addr, b.timeout, answer) ==> {
                &&& client.timeout == time
                &&& client.src_ams_addr == src_ams_addr
                &&& client.dst_ams_addr == builder.dst_ams_addr
            }
        }),
        builder.timeout is DefaultTimeout && client.is_new(
            builder.dst_ams_addr,
            builder.src_ams_addr,
            builder.timeout,
            answer,
        ) ==> client.timeout == 5,
{
}

} // verus!
