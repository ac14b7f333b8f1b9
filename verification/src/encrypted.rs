//! Resolvers and servers that talk over authenticated connections.

use vstd::prelude::*;
#[allow(unused_imports)]
use vstd::string::StringSliceAdditionalSpecFns;

use crate::config::{
    default_opts, encrypted_server, IpAddress, LookupIpStrategy, NameServerConfigGroup, Protocol,
    ResolveHosts, ResolverConfig, ResolverOpts, SocketAddress,
};
use crate::name::Name;
use crate::text::{has_part, holds, text_bytes};
use crate::tls_setup::{
    anchor_of, client_roots, client_sni, identity_accepted, protocol_names, TlsClient, TlsFault,
    TlsServer,
};

verus! {

/// The options of a resolver that shows every failure at once: it keeps nothing, tries nothing
/// again, waits two seconds, and looks at name servers only.
pub open spec fn direct_opts() -> ResolverOpts {
    ResolverOpts {
        cache_size: 0,
        attempts: 0,
        timeout: 2000,
        use_hosts_file: ResolveHosts::Never,
        ip_strategy: LookupIpStrategy::Ipv4Only,
        ..default_opts()
    }
}

/// The options of a resolver that shows every failure at once.
pub fn options() -> (r: ResolverOpts)
    ensures
        r == direct_opts(),
{
    let mut r = ResolverOpts::default();
    r.cache_size = 0;
    r.attempts = 0;
    r.timeout = 2000;
    r.use_hosts_file = ResolveHosts::Never;
    r.ip_strategy = LookupIpStrategy::Ipv4Only;
    r
}

/// The protocols by which `resolver` reaches its server.
pub open spec fn supported(protocol: Protocol) -> bool {
    protocol == Protocol::Https || protocol == Protocol::H3 || protocol == Protocol::Quic
}

/// A resolver that is ready to be used.
pub struct ResolverSetup {
    pub config: ResolverConfig<rustls::ClientConfig>,
    pub options: ResolverOpts,
    pub client: TlsClient,
}

/// Whether this is a resolver with one server, which is reached by the protocol and has to prove
/// the name to a client that trusts one root and names the server.
pub open spec fn reaches(
    setup: ResolverSetup,
    address: SocketAddress,
    server_name: String,
    root: Seq<u8>,
    protocol: Protocol,
) -> bool {
    &&& setup.config.domain is None
    &&& setup.config.search@.len() == 0
    &&& setup.config.group.servers@ == seq![
        encrypted_server::<rustls::ClientConfig>(
            address.ip,
            address.port,
            server_name,
            protocol,
            true,
        ),
    ]
    &&& setup.config.group.client_config == Some(setup.client.settings())
    &&& client_roots(*setup.config.group.client_config.unwrap()) == seq![anchor_of(root).unwrap()]
    &&& client_sni(*setup.config.group.client_config.unwrap())
    &&& setup.options == direct_opts()
}

/// A resolver with one server, which is reached by the protocol and has to prove the name to a
/// client that trusts one root and names the server.
pub fn resolver(
    address: SocketAddress,
    server_name: &String,
    root: &Vec<u8>,
    protocol: Protocol,
) -> (r: Result<ResolverSetup, TlsFault>)
    requires
        supported(protocol),
    ensures
        match r {
            Ok(setup) => anchor_of(root@) is Some && reaches(
                setup,
                address,
                *server_name,
                root@,
                protocol,
            ),
            Err(fault) => anchor_of(root@) is None && fault == TlsFault::BadRoot,
        },
{
    let client = match TlsClient::new(root, true) {
        Ok(client) => client,
        Err(fault) => return Err(fault),
    };
    let mut ips: Vec<IpAddress> = Vec::new();
    ips.push(address.ip);
    let servers = NameServerConfigGroup::from_ips_encrypted(
        &ips,
        address.port,
        server_name,
        protocol,
        true,
    ).with_client_config(client.config());
    let config = ResolverConfig::from_parts(None, Vec::<Name>::new(), servers);
    assert(config.group.servers@ =~= seq![
        encrypted_server::<rustls::ClientConfig>(
            address.ip,
            address.port,
            *server_name,
            protocol,
            true,
        ),
    ]);
    Ok(ResolverSetup { config, options: options(), client })
}

/// Whether `resolver` reaches servers by the protocol.
pub fn is_supported(protocol: Protocol) -> (r: bool)
    ensures
        r == supported(protocol),
{
    matches!(protocol, Protocol::Https | Protocol::H3 | Protocol::Quic)
}

/// The protocol that a server of HTTP/2 offers above the connection: `h2`.
pub open spec fn h2_offer() -> Seq<u8> {
    seq![104u8, 50u8]
}

/// A server of HTTP/2 that proves itself with a certificate and its private key.
pub fn https_acceptor(cert: &Vec<u8>, key: &Vec<u8>) -> (r: Result<TlsServer, TlsFault>)
    ensures
        match r {
            Ok(server) => {
                &&& identity_accepted(cert@, key@)
                &&& server.proves() == (cert@, key@)
                &&& server.offers() == seq![h2_offer()]
            },
            Err(fault) => !identity_accepted(cert@, key@) && fault == TlsFault::BadIdentity,
        },
{
    let mut h2: Vec<u8> = Vec::new();
    h2.push(104);
    h2.push(50);
    assert(h2@ =~= h2_offer());
    let mut alpn: Vec<Vec<u8>> = Vec::new();
    alpn.push(h2);
    assert(protocol_names(alpn@) =~= seq![h2_offer()]);
    TlsServer::new(cert, key, alpn)
}

/// How a client is brought to refuse a server.
#[derive(Debug, PartialEq)]
pub struct IdentityCase {
    /// The name that the client asks the server to prove.
    pub server_name: &'static str,
    /// Whether the client trusts the root of the server, or an unrelated one.
    pub own_root: bool,
    /// What the client's error has to tell.
    pub expected: &'static str,
}

/// How a client is brought to refuse a server that can prove `ns.example.test`: it asks for
/// another name, or it trusts an unrelated root.
pub fn identity_case(wrong_name: bool) -> (r: IdentityCase)
    ensures
        r.server_name@ == if wrong_name {
            "wrong.example.test"@
        } else {
            "ns.example.test"@
        },
        r.own_root == wrong_name,
        r.expected@ == if wrong_name {
            "NotValidForName"@
        } else {
            "BadSignature"@
        },
{
    if wrong_name {
        IdentityCase {
            server_name: "wrong.example.test",
            own_root: true,
            expected: "NotValidForName",
        }
    } else {
        IdentityCase {
            server_name: "ns.example.test",
            own_root: false,
            expected: "BadSignature",
        }
    }
}

/// Why an attempt to connect did not end in the refusal that was due.
#[derive(Debug, Clone, Copy, PartialEq, Eq, Structural)]
pub enum RefusalFault {
    /// The server took the connection.
    ServerAccepted,
    /// The client found an answer.
    ClientResolved,
    /// The client's error tells something else.
    OtherError,
}

/// Whether the refusal was the one that was due: the server failed, and so did the client, with an
/// error that tells what was expected. `client_error` is the error's text.
pub open spec fn refusal(
    server_failed: bool,
    client_error: Option<Seq<u8>>,
    expected: Seq<u8>,
) -> Result<(), RefusalFault> {
    if !server_failed {
        Err(RefusalFault::ServerAccepted)
    } else {
        match client_error {
            None => Err(RefusalFault::ClientResolved),
            Some(text) => if holds(text, expected) {
                Ok(())
            } else {
                Err(RefusalFault::OtherError)
            },
        }
    }
}

/// Whether the refusal was the one that was due.
pub fn rejected(server_failed: bool, client_error: Option<&str>, expected: &str) -> (r: Result<
    (),
    RefusalFault,
>)
    ensures
        r == refusal(server_failed, text_bytes(client_error), expected.spec_bytes()),
{
    if !server_failed {
        return Err(RefusalFault::ServerAccepted);
    }
    match client_error {
        None => Err(RefusalFault::ClientResolved),
        Some(text) => if has_part(text.as_bytes(), expected.as_bytes()) {
            Ok(())
        } else {
            Err(RefusalFault::OtherError)
        },
    }
}

} // verus!
