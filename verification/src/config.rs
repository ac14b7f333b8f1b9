//! How name servers are reached, and how the resolver is to use them.

use std::sync::Arc;

use vstd::prelude::*;

use crate::name::Name;

verus! {

/// The protocols by which a name server can be reached.
#[derive(Debug, Clone, Copy, PartialEq, Eq, Structural)]
pub enum Protocol {
    Udp,
    Tcp,
    Tls,
    Https,
    Quic,
    H3,
}

/// Whether requests travel as datagrams, be it below the protocol's own connections.
pub open spec fn datagram_protocol(protocol: Protocol) -> bool {
    match protocol {
        Protocol::Udp => true,
        Protocol::Quic => true,
        Protocol::H3 => true,
        _ => false,
    }
}

impl Protocol {
    /// Whether requests travel as datagrams.
    pub fn is_datagram(self) -> (r: bool)
        ensures
            r == datagram_protocol(self),
    {
        match self {
            Protocol::Udp => true,
            Protocol::Quic => true,
            Protocol::H3 => true,
            _ => false,
        }
    }

    /// Whether requests travel over a stream.
    pub fn is_stream(self) -> (r: bool)
        ensures
            r == !datagram_protocol(self),
    {
        !self.is_datagram()
    }
}

/// An address of a host.
#[derive(Debug, Clone, Copy, PartialEq, Eq, Structural)]
pub enum IpAddress {
    /// An IPv4 address, its first byte the most significant.
    V4(u32),
    /// An IPv6 address in two halves, its first byte the most significant of `hi`.
    V6 { hi: u64, lo: u64 },
}

/// An address and a port.
#[derive(Debug, Clone, Copy, PartialEq, Eq, Structural)]
pub struct SocketAddress {
    pub ip: IpAddress,
    pub port: u16,
}

/// The order in which the connections of a pool are asked.
#[derive(Debug, Clone, Copy, PartialEq, Eq, Structural)]
pub enum ServerOrderingStrategy {
    /// Those that answered best so far come first.
    QueryStatistics,
    /// As they were configured.
    UserProvidedOrder,
    /// As they were configured, each request beginning where the one before left off.
    RoundRobin,
}

/// The address families that a lookup asks for.
#[derive(Debug, Clone, Copy, PartialEq, Eq, Structural)]
pub enum LookupIpStrategy {
    Ipv4Only,
    Ipv6Only,
    Ipv4AndIpv6,
    Ipv6thenIpv4,
    Ipv4thenIpv6,
}

/// Whether the hosts file of the system is looked at.
#[derive(Debug, Clone, Copy, PartialEq, Eq, Structural)]
pub enum ResolveHosts {
    Always,
    Never,
    Auto,
}

/// The options of a resolver.
#[derive(Debug, Clone, Copy, PartialEq, Eq, Structural)]
pub struct ResolverOpts {
    /// How long to wait for an answer, in milliseconds.
    pub timeout: u64,
    /// How often a request is tried again.
    pub attempts: usize,
    /// Whether requests carry the extension options.
    pub edns0: bool,
    /// Whether answers are validated.
    pub validate: bool,
    pub ip_strategy: LookupIpStrategy,
    pub cache_size: usize,
    pub use_hosts_file: ResolveHosts,
    /// How many connections are asked at once.
    pub num_concurrent_reqs: usize,
    /// Whether a transport error of a datagram makes the pool try a stream.
    pub try_tcp_on_error: bool,
    pub server_ordering_strategy: ServerOrderingStrategy,
    /// Whether connections are asked in random order.
    pub shuffle_dns_servers: bool,
}

/// The options of a resolver that nobody has configured.
pub open spec fn default_opts() -> ResolverOpts {
    ResolverOpts {
        timeout: 5000,
        attempts: 2,
        edns0: false,
        validate: false,
        ip_strategy: LookupIpStrategy::Ipv4thenIpv6,
        cache_size: 32,
        use_hosts_file: ResolveHosts::Auto,
        num_concurrent_reqs: 2,
        try_tcp_on_error: false,
        server_ordering_strategy: ServerOrderingStrategy::QueryStatistics,
        shuffle_dns_servers: false,
    }
}

impl Default for ResolverOpts {
    fn default() -> (r: ResolverOpts)
        ensures
            r == default_opts(),
    {
        ResolverOpts {
            timeout: 5000,
            attempts: 2,
            edns0: false,
            validate: false,
            ip_strategy: LookupIpStrategy::Ipv4thenIpv6,
            cache_size: 32,
            use_hosts_file: ResolveHosts::Auto,
            num_concurrent_reqs: 2,
            try_tcp_on_error: false,
            server_ordering_strategy: ServerOrderingStrategy::QueryStatistics,
            shuffle_dns_servers: false,
        }
    }
}

/// How one name server is reached. `C` is the configuration of a TLS client.
#[derive(Debug)]
pub struct NameServerConfig<C> {
    pub socket_addr: SocketAddress,
    pub protocol: Protocol,
    /// The name that the server has to prove.
    pub tls_dns_name: Option<String>,
    /// The path to which requests over HTTP go.
    pub http_endpoint: Option<String>,
    /// Whether the server is trusted in what it denies.
    pub trust_negative_responses: bool,
    pub tls_config: Option<Arc<C>>,
    /// The address from which the server is reached.
    pub bind_addr: Option<SocketAddress>,
}

/// A copy of a text, where there is one.
fn copy_text(text: &Option<String>) -> (r: Option<String>)
    ensures
        r == *text,
{
    match text {
        Some(t) => Some(t.clone()),
        None => None,
    }
}

/// Another handle on the same configuration, where there is one.
pub fn share_config<C>(config: &Option<Arc<C>>) -> (r: Option<Arc<C>>)
    ensures
        r == *config,
{
    match config {
        Some(c) => Some(c.clone()),
        None => None,
    }
}

impl<C> NameServerConfig<C> {
    /// A server that is reached without further settings.
    pub fn new(socket_addr: SocketAddress, protocol: Protocol) -> (r: NameServerConfig<C>)
        ensures
            r == (NameServerConfig::<C> {
                socket_addr,
                protocol,
                tls_dns_name: None,
                http_endpoint: None,
                trust_negative_responses: true,
                tls_config: None,
                bind_addr: None,
            }),
    {
        NameServerConfig {
            socket_addr,
            protocol,
            tls_dns_name: None,
            http_endpoint: None,
            trust_negative_responses: true,
            tls_config: None,
            bind_addr: None,
        }
    }

    /// The same server with another configuration of the TLS client.
    pub fn with_tls_config(&self, tls_config: &Option<Arc<C>>) -> (r: NameServerConfig<C>)
        ensures
            r == (NameServerConfig::<C> { tls_config: *tls_config, ..*self }),
    {
        NameServerConfig {
            socket_addr: self.socket_addr,
            protocol: self.protocol,
            tls_dns_name: copy_text(&self.tls_dns_name),
            http_endpoint: copy_text(&self.http_endpoint),
            trust_negative_responses: self.trust_negative_responses,
            tls_config: share_config(tls_config),
            bind_addr: self.bind_addr,
        }
    }
}

/// Several name servers, and the configuration of the TLS client for all of them.
#[derive(Debug)]
pub struct NameServerConfigGroup<C> {
    pub servers: Vec<NameServerConfig<C>>,
    pub client_config: Option<Arc<C>>,
}

/// A server that is reached under a name it has to prove.
pub open spec fn encrypted_server<C>(
    ip: IpAddress,
    port: u16,
    tls_dns_name: String,
    protocol: Protocol,
    trust_negative_responses: bool,
) -> NameServerConfig<C> {
    NameServerConfig {
        socket_addr: SocketAddress { ip, port },
        protocol,
        tls_dns_name: Some(tls_dns_name),
        http_endpoint: None,
        trust_negative_responses,
        tls_config: None,
        bind_addr: None,
    }
}

impl<C> NameServerConfigGroup<C> {
    /// The servers of the group.
    pub fn into_inner(self) -> (r: Vec<NameServerConfig<C>>)
        ensures
            r == self.servers,
    {
        self.servers
    }

    /// One server for each address, reached by a protocol in which it proves its name.
    pub fn from_ips_encrypted(
        ips: &Vec<IpAddress>,
        port: u16,
        tls_dns_name: &String,
        protocol: Protocol,
        trust_negative_responses: bool,
    ) -> (r: NameServerConfigGroup<C>)
        ensures
            r.servers@ == ips@.map_values(
                |ip: IpAddress|
                    encrypted_server::<C>(ip, port, *tls_dns_name, protocol, trust_negative_responses),
            ),
            r.client_config is None,
    {
        let mut servers: Vec<NameServerConfig<C>> = Vec::new();
        let mut i: usize = 0;
        while i < ips.len()
            invariant
                i <= ips.len(),
                servers.len() == i,
                forall|j: int|
                    0 <= j < i ==> #[trigger] servers@[j] == encrypted_server::<C>(
                        ips@[j],
                        port,
                        *tls_dns_name,
                        protocol,
                        trust_negative_responses,
                    ),
            decreases ips.len() - i,
        {
            servers.push(
                NameServerConfig {
                    socket_addr: SocketAddress { ip: ips[i], port },
                    protocol,
                    tls_dns_name: Some(tls_dns_name.clone()),
                    http_endpoint: None,
                    trust_negative_responses,
                    tls_config: None,
                    bind_addr: None,
                },
            );
            i += 1;
        }
        assert(servers@ =~= ips@.map_values(
            |ip: IpAddress|
                encrypted_server::<C>(ip, port, *tls_dns_name, protocol, trust_negative_responses),
        ));
        NameServerConfigGroup { servers, client_config: None }
    }

    /// The same servers, with a configuration of the TLS client for all of them.
    pub fn with_client_config(self, client_config: Arc<C>) -> (r: NameServerConfigGroup<C>)
        ensures
            r.servers == self.servers,
            r.client_config == Some(client_config),
    {
        NameServerConfigGroup { servers: self.servers, client_config: Some(client_config) }
    }
}

/// The configuration of a resolver.
#[derive(Debug)]
pub struct ResolverConfig<C> {
    pub domain: Option<Name>,
    pub search: Vec<Name>,
    pub group: NameServerConfigGroup<C>,
}

impl<C> ResolverConfig<C> {
    /// A configuration of these parts.
    pub fn from_parts(
        domain: Option<Name>,
        search: Vec<Name>,
        group: NameServerConfigGroup<C>,
    ) -> (r: ResolverConfig<C>)
        ensures
            r == (ResolverConfig::<C> { domain, search, group }),
    {
        ResolverConfig { domain, search, group }
    }

    /// The name servers.
    pub fn name_servers(&self) -> (r: &Vec<NameServerConfig<C>>)
        ensures
            *r == self.group.servers,
    {
        &self.group.servers
    }

    /// The configuration of the TLS client for all name servers.
    pub fn client_config(&self) -> (r: &Option<Arc<C>>)
        ensures
            *r == self.group.client_config,
    {
        &self.group.client_config
    }

    /// Sets the configuration of the TLS client for all name servers.
    pub fn set_tls_client_config(&mut self, client_config: Arc<C>)
        ensures
            final(self).domain == old(self).domain,
            final(self).search == old(self).search,
            final(self).group.servers == old(self).group.servers,
            final(self).group.client_config == Some(client_config),
    {
        self.group.client_config = Some(client_config);
    }
}

} // verus!
