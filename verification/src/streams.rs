//! How connections to name servers over HTTP/2, HTTP/3 and QUIC are begun.

use std::sync::Arc;

use vstd::prelude::*;

use crate::config::{Protocol, SocketAddress};

verus! {

/// What a connection is made over.
#[derive(Debug, Clone, Copy, PartialEq, Eq, Structural)]
pub enum Transport {
    /// A socket of its own, bound to the address where there is one.
    Own(Option<SocketAddress>),
    /// What the caller brings along.
    Given,
}

/// How a connection is begun. `C` is the configuration of a TLS client.
#[derive(Debug)]
pub struct StreamPlan<C> {
    pub protocol: Protocol,
    pub client_config: Arc<C>,
    pub transport: Transport,
    pub socket_addr: SocketAddress,
    /// The name that the server has to prove.
    pub dns_name: String,
    /// The path to which requests over HTTP go.
    pub http_endpoint: Option<String>,
}

/// The configuration of the TLS client: the one that was given, or else the default, which may not
/// have come about.
pub open spec fn chosen<C, E>(given: Option<Arc<C>>, default: Result<Arc<C>, E>) -> Result<
    Arc<C>,
    E,
> {
    match given {
        Some(config) => Ok(config),
        None => default,
    }
}

/// What comes of a plan that still wants its configuration of the TLS client: the plan with it, or
/// the error by which there is none.
pub open spec fn planned<C, E>(
    protocol: Protocol,
    transport: Transport,
    socket_addr: SocketAddress,
    dns_name: String,
    http_endpoint: Option<String>,
    config: Result<Arc<C>, E>,
) -> Result<StreamPlan<C>, E> {
    match config {
        Ok(client_config) => Ok(
            StreamPlan {
                protocol,
                client_config,
                transport,
                socket_addr,
                dns_name,
                http_endpoint,
            },
        ),
        Err(error) => Err(error),
    }
}

fn choose_config<C, E>(given: Option<Arc<C>>, default: Result<Arc<C>, E>) -> (r: Result<Arc<C>, E>)
    ensures
        r == chosen(given, default),
{
    match given {
        Some(config) => Ok(config),
        None => default,
    }
}

/// Begins a connection over HTTP/2, from the address where one is given. `default` is the
/// configuration of the TLS client for those who give none.
pub fn new_https_stream<C, E>(
    socket_addr: SocketAddress,
    bind_addr: Option<SocketAddress>,
    dns_name: String,
    http_endpoint: String,
    client_config: Option<Arc<C>>,
    default: Result<Arc<C>, E>,
) -> (r: Result<StreamPlan<C>, E>)
    ensures
        r == planned(
            Protocol::Https,
            Transport::Own(bind_addr),
            socket_addr,
            dns_name,
            Some(http_endpoint),
            chosen(client_config, default),
        ),
{
    let client_config = match choose_config(client_config, default) {
        Ok(config) => config,
        Err(error) => return Err(error),
    };
    Ok(
        StreamPlan {
            protocol: Protocol::Https,
            client_config,
            transport: Transport::Own(bind_addr),
            socket_addr,
            dns_name,
            http_endpoint: Some(http_endpoint),
        },
    )
}

/// Begins a connection over HTTP/2 on a stream that the caller brings along.
pub fn new_https_stream_with_future<C, E>(
    socket_addr: SocketAddress,
    dns_name: String,
    http_endpoint: String,
    client_config: Option<Arc<C>>,
    default: Result<Arc<C>, E>,
) -> (r: Result<StreamPlan<C>, E>)
    ensures
        r == planned(
            Protocol::Https,
            Transport::Given,
            socket_addr,
            dns_name,
            Some(http_endpoint),
            chosen(client_config, default),
        ),
{
    let client_config = match choose_config(client_config, default) {
        Ok(config) => config,
        Err(error) => return Err(error),
    };
    Ok(
        StreamPlan {
            protocol: Protocol::Https,
            client_config,
            transport: Transport::Given,
            socket_addr,
            dns_name,
            http_endpoint: Some(http_endpoint),
        },
    )
}

/// Begins a connection over HTTP/3, from the address where one is given.
pub fn new_h3_stream<C, E>(
    socket_addr: SocketAddress,
    bind_addr: Option<SocketAddress>,
    dns_name: String,
    http_endpoint: String,
    client_config: Option<Arc<C>>,
    default: Result<Arc<C>, E>,
) -> (r: Result<StreamPlan<C>, E>)
    ensures
        r == planned(
            Protocol::H3,
            Transport::Own(bind_addr),
            socket_addr,
            dns_name,
            Some(http_endpoint),
            chosen(client_config, default),
        ),
{
    let client_config = match choose_config(client_config, default) {
        Ok(config) => config,
        Err(error) => return Err(error),
    };
    Ok(
        StreamPlan {
            protocol: Protocol::H3,
            client_config,
            transport: Transport::Own(bind_addr),
            socket_addr,
            dns_name,
            http_endpoint: Some(http_endpoint),
        },
    )
}

/// Begins a connection over HTTP/3 on a socket that the caller brings along.
pub fn new_h3_stream_with_future<C, E>(
    socket_addr: SocketAddress,
    dns_name: String,
    http_endpoint: String,
    client_config: Option<Arc<C>>,
    default: Result<Arc<C>, E>,
) -> (r: Result<StreamPlan<C>, E>)
    ensures
        r == planned(
            Protocol::H3,
            Transport::Given,
            socket_addr,
            dns_name,
            Some(http_endpoint),
            chosen(client_config, default),
        ),
{
    let client_config = match choose_config(client_config, default) {
        Ok(config) => config,
        Err(error) => return Err(error),
    };
    Ok(
        StreamPlan {
            protocol: Protocol::H3,
            client_config,
            transport: Transport::Given,
            socket_addr,
            dns_name,
            http_endpoint: Some(http_endpoint),
        },
    )
}

/// Begins a connection over QUIC, from the address where one is given.
pub fn new_quic_stream<C, E>(
    socket_addr: SocketAddress,
    bind_addr: Option<SocketAddress>,
    dns_name: String,
    client_config: Option<Arc<C>>,
    default: Result<Arc<C>, E>,
) -> (r: Result<StreamPlan<C>, E>)
    ensures
        r == planned(
            Protocol::Quic,
            Transport::Own(bind_addr),
            socket_addr,
            dns_name,
            None,
            chosen(client_config, default),
        ),
{
    let client_config = match choose_config(client_config, default) {
        Ok(config) => config,
        Err(error) => return Err(error),
    };
    Ok(
        StreamPlan {
            protocol: Protocol::Quic,
            client_config,
            transport: Transport::Own(bind_addr),
            socket_addr,
            dns_name,
            http_endpoint: None,
        },
    )
}

/// Begins a connection over QUIC on a socket that the caller brings along.
pub fn new_quic_stream_with_future<C, E>(
    socket_addr: SocketAddress,
    dns_name: String,
    client_config: Option<Arc<C>>,
    default: Result<Arc<C>, E>,
) -> (r: Result<StreamPlan<C>, E>)
    ensures
        r == planned(
            Protocol::Quic,
            Transport::Given,
            socket_addr,
            dns_name,
            None,
            chosen(client_config, default),
        ),
{
    let client_config = match choose_config(client_config, default) {
        Ok(config) => config,
        Err(error) => return Err(error),
    };
    Ok(
        StreamPlan {
            protocol: Protocol::Quic,
            client_config,
            transport: Transport::Given,
            socket_addr,
            dns_name,
            http_endpoint: None,
        },
    )
}

/// Who gives a configuration of the TLS client gets a connection with it, be there a default or
/// not; who gives none gets the default, or the error by which there is none.
pub proof fn law_given_config_is_used<C, E>(
    protocol: Protocol,
    transport: Transport,
    socket_addr: SocketAddress,
    dns_name: String,
    http_endpoint: Option<String>,
    config: Arc<C>,
    default: Result<Arc<C>, E>,
)
    ensures
        planned(
            protocol,
            transport,
            socket_addr,
            dns_name,
            http_endpoint,
            chosen(Some(config), default),
        ) matches Ok(plan) && plan.client_config == config,
        match (
            default,
            planned(
                protocol,
                transport,
                socket_addr,
                dns_name,
                http_endpoint,
                chosen(None, default),
            ),
        ) {
            (Ok(d), Ok(plan)) => plan.client_config == d,
            (Err(e), Err(f)) => e == f,
            _ => false,
        },
{
}

} // verus!
