//! Requests and replies over one authenticated stream, each behind its length.

use vstd::prelude::*;

use crate::config::{
    encrypted_server, IpAddress, NameServerConfig, NameServerConfigGroup, Protocol, ResolverConfig,
    ResolverOpts, SocketAddress,
};
use crate::encrypted::{direct_opts, options, RefusalFault, ResolverSetup};
use crate::error::{IoErrorKind, ProtoError, ProtoErrorKind};
use crate::lookups::{lookup_fault, lookup_reply, Serving, COUNT};
use crate::name::{copy_bytes, Name};
use crate::replies::RequestFault;
use crate::tls_setup::{
    anchor_of, client_roots, client_sni, identity_accepted, protocol_names, TlsClient, TlsFault,
    TlsServer,
};
use crate::wire_format::{be16, read16};
use crate::wire_read::get_range;
use crate::wire_write::put16;

verus! {

/// The shortest request that a server takes, in bytes: a header without anything behind it.
pub const MIN_REQUEST: usize = 12;

/// The longest request that a server takes, in bytes.
pub const MAX_REQUEST: usize = 4096;

/// A server that proves itself with a certificate and its private key, and offers no protocol in
/// particular.
pub fn acceptor(cert: &Vec<u8>, key: &Vec<u8>) -> (r: Result<TlsServer, TlsFault>)
    ensures
        match r {
            Ok(server) => {
                &&& identity_accepted(cert@, key@)
                &&& server.proves() == (cert@, key@)
                &&& server.offers() == Seq::<Seq<u8>>::empty()
            },
            Err(fault) => !identity_accepted(cert@, key@) && fault == TlsFault::BadIdentity,
        },
{
    let alpn: Vec<Vec<u8>> = Vec::new();
    assert(protocol_names(alpn@) =~= Seq::<Seq<u8>>::empty());
    TlsServer::new(cert, key, alpn)
}

/// Whether this is the configuration of a resolver with one server, which is reached over a stream
/// and has to prove the name.
pub open spec fn asks_one_server<C>(
    config: ResolverConfig<C>,
    address: SocketAddress,
    name: String,
) -> bool {
    &&& config.domain is None
    &&& config.search@.len() == 0
    &&& config.group.servers@ == seq![
        encrypted_server::<C>(address.ip, address.port, name, Protocol::Tls, true),
    ]
}

/// The configuration of a resolver with one server, which is reached over a stream and has to
/// prove the name.
pub fn config<C>(address: SocketAddress, name: &String) -> (r: ResolverConfig<C>)
    ensures
        asks_one_server(r, address, *name),
        r.group.client_config is None,
{
    let mut ips: Vec<IpAddress> = Vec::new();
    ips.push(address.ip);
    let servers: NameServerConfigGroup<C> = NameServerConfigGroup::from_ips_encrypted(
        &ips,
        address.port,
        name,
        Protocol::Tls,
        true,
    );
    assert(servers.servers@ =~= seq![
        encrypted_server::<C>(address.ip, address.port, *name, Protocol::Tls, true),
    ]);
    ResolverConfig::from_parts(None, Vec::<Name>::new(), servers)
}

/// A resolver with this configuration and a client that trusts one root. It does not name the
/// server: the server has to prove its name without being told.
pub fn resolver(config: ResolverConfig<rustls::ClientConfig>, root: &Vec<u8>) -> (r: Result<
    ResolverSetup,
    TlsFault,
>)
    ensures
        match r {
            Ok(setup) => {
                &&& anchor_of(root@) is Some
                &&& setup.config.domain == config.domain
                &&& setup.config.search == config.search
                &&& setup.config.group.servers == config.group.servers
                &&& setup.config.group.client_config == Some(setup.client.settings())
                &&& client_roots(*setup.config.group.client_config.unwrap()) == seq![
                    anchor_of(root@).unwrap(),
                ]
                &&& !client_sni(*setup.config.group.client_config.unwrap())
                &&& setup.options == direct_opts()
            },
            Err(fault) => anchor_of(root@) is None && fault == TlsFault::BadRoot,
        },
{
    let client = match TlsClient::new(root, false) {
        Ok(client) => client,
        Err(fault) => return Err(fault),
    };
    let mut config = config;
    config.set_tls_client_config(client.config());
    Ok(ResolverSetup { config, options: options(), client })
}

/// A message behind its length.
pub open spec fn framed(message: Seq<u8>) -> Seq<u8> {
    be16(message.len() as u16) + message
}

/// A message behind its length.
pub fn frame(message: &Vec<u8>) -> (r: Vec<u8>)
    requires
        message.len() <= 65535,
    ensures
        r@ == framed(message@),
{
    let mut r: Vec<u8> = Vec::new();
    put16(&mut r, message.len() as u16);
    r.extend_from_slice(message.as_slice());
    assert(r@ =~= framed(message@));
    r
}

/// The message behind its length, where the length is that of all that follows.
pub open spec fn unframed(bytes: Seq<u8>) -> Option<Seq<u8>> {
    match read16(bytes, 0) {
        Some((len, _)) => if len == bytes.len() - 2 {
            Some(bytes.skip(2))
        } else {
            None
        },
        None => None,
    }
}

/// The message behind its length, where the length is that of all that follows.
pub fn unframe(bytes: &[u8]) -> (r: Option<Vec<u8>>)
    ensures
        match r {
            Some(message) => unframed(bytes@) == Some(message@),
            None => unframed(bytes@) is None,
        },
{
    if bytes.len() < 2 {
        return None;
    }
    let len: usize = bytes[0] as usize * 256 + bytes[1] as usize;
    if len != bytes.len() - 2 {
        return None;
    }
    let message = get_range(bytes, 2, bytes.len());
    assert(message@ =~= bytes@.skip(2));
    Some(message)
}

/// A message that was put behind its length is read back: the length says where it ends, whatever
/// follows.
pub proof fn law_frame_is_read_back(message: Seq<u8>, behind: Seq<u8>)
    requires
        message.len() <= 65535,
    ensures
        read16(framed(message) + behind, 0) == Some((message.len() as u16, 2int)),
        (framed(message) + behind).subrange(2, 2 + message.len() as int) == message,
        (framed(message) + behind).skip(2 + message.len() as int) == behind,
        unframed(framed(message)) == Some(message),
{
    let all = framed(message) + behind;
    assert(all[0] == (message.len() as u16 / 256) as u8);
    assert(all[1] == (message.len() as u16 % 256) as u8);
    assert(all.subrange(2, 2 + message.len() as int) =~= message);
    assert(all.skip(2 + message.len() as int) =~= behind);
    assert(framed(message).skip(2) =~= message);
}

/// Why a server gives up on a stream.
#[derive(Debug, Clone, Copy, PartialEq, Eq, Structural)]
pub enum ExchangeFault {
    /// A request is announced that is too short or too long.
    BadLength,
    /// Something is wrong with a request.
    BadRequest(RequestFault),
}

/// What a server reads next.
#[derive(Debug, Clone, Copy, PartialEq, Eq, Structural)]
pub enum Want {
    /// The length of a request.
    Length,
    /// A request of this length.
    Request(usize),
    /// Nothing: all lookups were served, and the client is to say that it has its answers.
    End,
}

/// A server on one stream.
pub struct TlsServing {
    serving: Serving,
    pending: Option<usize>,
}

impl TlsServing {
    #[verifier::type_invariant]
    spec fn in_bounds(self) -> bool {
        self.pending is Some ==> self.serving.count() < COUNT
    }

    /// How many lookups were served.
    pub closed spec fn served(&self) -> nat {
        self.serving.count()
    }

    /// The length of the request that comes next, once it is known.
    pub closed spec fn pending(&self) -> Option<usize> {
        self.pending
    }

    /// A server that has read nothing yet.
    pub fn new() -> (r: TlsServing)
        ensures
            r.served() == 0,
            r.pending() is None,
    {
        TlsServing { serving: Serving::new(), pending: None }
    }

    /// What the server reads next.
    pub fn wants(&self) -> (r: Want)
        ensures
            r == match self.pending() {
                Some(len) => Want::Request(len),
                None => if self.served() < COUNT {
                    Want::Length
                } else {
                    Want::End
                },
            },
            r is Request ==> self.served() < COUNT,
    {
        proof {
            use_type_invariant(self);
        }
        match self.pending {
            Some(len) => Want::Request(len),
            None => match self.serving.next_index() {
                Some(_) => Want::Length,
                None => Want::End,
            },
        }
    }

    /// Goes on with the length of a request.
    pub fn on_length(self, length: u16) -> (r: Result<TlsServing, ExchangeFault>)
        requires
            self.served() < COUNT,
            self.pending() is None,
        ensures
            match r {
                Ok(next) => MIN_REQUEST <= length <= MAX_REQUEST && next.pending() == Some(
                    length as usize,
                ) && next.served() == self.served(),
                Err(fault) => !(MIN_REQUEST <= length <= MAX_REQUEST) && fault
                    == ExchangeFault::BadLength,
            },
    {
        let len: usize = length as usize;
        if MIN_REQUEST <= len && len <= MAX_REQUEST {
            Ok(TlsServing { serving: self.serving, pending: Some(len) })
        } else {
            Err(ExchangeFault::BadLength)
        }
    }

    /// Goes on with a request of the length that was announced: gives what is to be written.
    pub fn on_request(self, bytes: &[u8]) -> (r: Result<(TlsServing, Vec<u8>), ExchangeFault>)
        requires
            self.pending() == Some(bytes@.len() as usize),
        ensures
            match r {
                Ok((next, out)) => lookup_fault(bytes@, self.served()) is None && next.served()
                    == self.served() + 1 && next.pending() is None && out@ == framed(
                    lookup_reply(bytes@, self.served()),
                ),
                Err(fault) => lookup_fault(bytes@, self.served()) is Some && fault
                    == ExchangeFault::BadRequest(lookup_fault(bytes@, self.served()).unwrap()),
            },
    {
        proof {
            use_type_invariant(&self);
        }
        match self.serving.serve(bytes) {
            Ok((serving, reply)) => Ok((TlsServing { serving, pending: None }, frame(&reply))),
            Err(fault) => Err(ExchangeFault::BadRequest(fault)),
        }
    }
}

/// Whether the refusal was one of the transport: the server failed, and so did the client, because
/// it refused the connection. A client that merely waited too long refused nothing.
pub open spec fn transport_refusal(server_failed: bool, client_error: Option<ProtoError>) -> Result<
    (),
    RefusalFault,
> {
    if !server_failed {
        Err(RefusalFault::ServerAccepted)
    } else {
        match client_error {
            None => Err(RefusalFault::ClientResolved),
            Some(e) => if e.kind == ProtoErrorKind::Io(IoErrorKind::ConnectionRefused) {
                Ok(())
            } else {
                Err(RefusalFault::OtherError)
            },
        }
    }
}

/// Whether the refusal was one of the transport.
pub fn rejection(server_failed: bool, client_error: Option<ProtoError>) -> (r: Result<
    (),
    RefusalFault,
>)
    ensures
        r == transport_refusal(server_failed, client_error),
{
    if !server_failed {
        return Err(RefusalFault::ServerAccepted);
    }
    match client_error {
        None => Err(RefusalFault::ClientResolved),
        Some(e) => match e.kind {
            ProtoErrorKind::Io(IoErrorKind::ConnectionRefused) => Ok(()),
            _ => Err(RefusalFault::OtherError),
        },
    }
}

/// Only a connection that was refused is a refusal: whoever waited too long, or failed in any other
/// way, refused nothing, whatever the server says.
pub proof fn law_other_errors_are_no_refusals(server_failed: bool, e: ProtoError)
    requires
        e.kind != ProtoErrorKind::Io(IoErrorKind::ConnectionRefused),
    ensures
        transport_refusal(server_failed, Some(e)) is Err,
        transport_refusal(server_failed, None) is Err,
{
}

/// How a provider with roots of its own connects to a server.
#[derive(Debug)]
pub struct ConnectPlan {
    /// The root that the server has to prove itself by.
    pub root: Vec<u8>,
    /// The address from which the server is reached, where it matters.
    pub bind_addr: Option<SocketAddress>,
    pub socket_addr: SocketAddress,
    /// The name that the server has to prove.
    pub server_name: String,
    /// How long to wait for an answer, in milliseconds.
    pub timeout: u64,
}

/// A provider of connections that trusts one root.
#[derive(Debug)]
pub struct TestProvider {
    pub root: Vec<u8>,
}

impl TestProvider {
    /// A provider that trusts the root.
    pub fn new(root: Vec<u8>) -> (r: TestProvider)
        ensures
            r.root == root,
    {
        TestProvider { root }
    }

    /// How to connect to a server that is reached over an authenticated stream under a name.
    pub fn new_connection<C>(&self, config: &NameServerConfig<C>, options: &ResolverOpts) -> (r:
        ConnectPlan)
        requires
            config.protocol == Protocol::Tls,
            config.tls_dns_name is Some,
        ensures
            r.root@ == self.root@,
            r.bind_addr == config.bind_addr,
            r.socket_addr == config.socket_addr,
            Some(r.server_name) == config.tls_dns_name,
            r.timeout == options.timeout,
    {
        ConnectPlan {
            root: copy_bytes(&self.root),
            bind_addr: config.bind_addr,
            socket_addr: config.socket_addr,
            server_name: match &config.tls_dns_name {
                Some(name) => name.clone(),
                None => String::new(),
            },
            timeout: options.timeout,
        }
    }
}

} // verus!
