//! How connections are set up and framed, and which requests over them are taken.

use std::sync::Arc;

use vstd::prelude::*;
#[allow(unused_imports)]
use vstd::string::StringSliceAdditionalSpecFns;

use crate::body::{body_of, body_with, MAX_BODY};
use crate::config::{
    default_opts, LookupIpStrategy, Protocol, ResolveHosts, ResolverConfig, ResolverOpts,
    ServerOrderingStrategy, SocketAddress,
};
use crate::encrypted::{
    direct_opts, h2_offer, reaches, refusal, supported, RefusalFault, ResolverSetup,
};
use crate::error::{IoErrorKind, ProtoError, ProtoErrorKind};
use crate::http_serving::{
    counts_after, http_fault, message_media_type, query_path, HttpFault, RequestCounts,
    RequestEvent,
};
use crate::local_dns::{MAX_DATAGRAM, READ_TIMEOUT};
use crate::signed_lookup::validating_options;
use crate::streams::{chosen, planned, StreamPlan, Transport};
use crate::text::holds;
use crate::tls_exchange::{
    asks_one_server, framed, transport_refusal, unframed, MAX_REQUEST, MIN_REQUEST,
};
use crate::tls_setup::{anchor_of, client_roots, client_sni};

verus! {

/// A part stands in every text that has something before it and something behind it; and a text in
/// which it stands is of that form.
pub proof fn law_parts_of_texts(before: Seq<u8>, part: Seq<u8>, behind: Seq<u8>, text: Seq<u8>)
    ensures
        holds(before + part + behind, part),
        holds(text, part) ==> exists|a: Seq<u8>, b: Seq<u8>| text == #[trigger] (a + part + b),
        text.len() < part.len() ==> !holds(text, part),
{
    let all = before + part + behind;
    let n = before.len() as int;
    assert(all.subrange(n, n + part.len()) =~= part);
    assert(crate::text::stands_at(all, part, n));
    if holds(text, part) {
        let i = choose|i: int| #[trigger] crate::text::stands_at(text, part, i);
        let a = text.take(i);
        let b = text.skip(i + part.len());
        assert(text =~= a + part + b);
    }
}

/// A client that is to be refused must be refused by the server, and its error must tell what was
/// expected. What went otherwise is the first of these.
pub proof fn law_which_refusals_are_due(
    server_failed: bool,
    client_error: Option<Seq<u8>>,
    expected: Seq<u8>,
)
    ensures
        refusal(server_failed, client_error, expected) is Ok <==> server_failed && client_error
            is Some && holds(client_error->Some_0, expected),
        !server_failed ==> refusal(server_failed, client_error, expected) == Err::<(), RefusalFault>(
            RefusalFault::ServerAccepted,
        ),
        server_failed && client_error is None ==> refusal(server_failed, client_error, expected)
            == Err::<(), RefusalFault>(RefusalFault::ClientResolved),
        server_failed && client_error is Some && !holds(client_error->Some_0, expected) ==> refusal(
            server_failed,
            client_error,
            expected,
        ) == Err::<(), RefusalFault>(RefusalFault::OtherError),
{
}

/// A refusal of the transport is one if and only if the server failed and the client's connection
/// was refused. What went otherwise is the first of these.
pub proof fn law_which_connections_were_refused(
    server_failed: bool,
    client_error: Option<ProtoError>,
)
    ensures
        transport_refusal(server_failed, client_error) is Ok <==> {
            &&& server_failed
            &&& client_error is Some
            &&& client_error->Some_0.kind == ProtoErrorKind::Io(IoErrorKind::ConnectionRefused)
        },
        !server_failed ==> transport_refusal(server_failed, client_error) == Err::<
            (),
            RefusalFault,
        >(RefusalFault::ServerAccepted),
        server_failed && client_error is None ==> transport_refusal(server_failed, client_error)
            == Err::<(), RefusalFault>(RefusalFault::ClientResolved),
        server_failed && client_error is Some && client_error->Some_0.kind != ProtoErrorKind::Io(
            IoErrorKind::ConnectionRefused,
        ) ==> transport_refusal(server_failed, client_error) == Err::<(), RefusalFault>(
            RefusalFault::OtherError,
        ),
{
}

/// On a stream a message stands behind two bytes with its length, the more significant first; and
/// bytes are such a message exactly when the length is that of all that follows.
pub proof fn law_messages_stand_behind_their_length(message: Seq<u8>, bytes: Seq<u8>)
    requires
        message.len() <= 65535,
    ensures
        framed(message).len() == message.len() + 2,
        framed(message)[0] * 0x100 + framed(message)[1] == message.len(),
        framed(message).skip(2) == message,
        unframed(bytes) is Some <==> bytes.len() >= 2 && bytes[0] * 0x100 + bytes[1] == bytes.len()
            - 2,
        unframed(bytes) is Some ==> unframed(bytes) == Some(bytes.skip(2)),
{
    assert(framed(message).skip(2) =~= message);
    crate::wire_layout_laws::law_numbers_in_bytes(message.len() as u16, 0, 0);
}

/// How long requests may be: from 12 to 4096 bytes on a stream, up to 4096 in frames and datagrams.
/// The worker of a local server looks every second whether to stop.
pub proof fn law_lengths_of_requests(body: Seq<u8>, frame: Seq<u8>)
    ensures
        MIN_REQUEST == 12,
        MAX_REQUEST == 4096,
        MAX_DATAGRAM == 4096,
        READ_TIMEOUT == 1000,
        MAX_BODY == 4096,
        body.len() + frame.len() <= 4096 ==> body_with(body, frame) == Some(body + frame),
        body.len() + frame.len() > 4096 ==> body_with(body, frame) is None,
        body_of(Seq::empty()) == Some(Seq::<u8>::empty()),
{
}

/// The path and the type of content that requests over HTTP have, in bytes.
pub proof fn law_texts_of_http()
    ensures
        query_path() == seq![
            0x2fu8, 0x64, 0x6e, 0x73, 0x2d, 0x71, 0x75, 0x65, 0x72, 0x79,
        ],
        message_media_type() == seq![
            0x61u8, 0x70, 0x70, 0x6c, 0x69, 0x63, 0x61, 0x74, 0x69, 0x6f, 0x6e, 0x2f, 0x64, 0x6e,
            0x73, 0x2d, 0x6d, 0x65, 0x73, 0x73, 0x61, 0x67, 0x65,
        ],
        h2_offer() == seq![0x68u8, 0x32],
{
    reveal_strlit("/dns-query");
    reveal_strlit("application/dns-message");
    vstd::string::is_ascii_spec_bytes("/dns-query");
    vstd::string::is_ascii_spec_bytes("application/dns-message");
    assert(query_path() =~= seq![0x2fu8, 0x64, 0x6e, 0x73, 0x2d, 0x71, 0x75, 0x65, 0x72, 0x79]);
    assert(message_media_type() =~= seq![
        0x61u8, 0x70, 0x70, 0x6c, 0x69, 0x63, 0x61, 0x74, 0x69, 0x6f, 0x6e, 0x2f, 0x64, 0x6e, 0x73,
        0x2d, 0x6d, 0x65, 0x73, 0x73, 0x61, 0x67, 0x65,
    ]);
}

/// Which requests over HTTP are taken: those to the path, to the server by its name, with content of
/// the type. What is wrong with others is the first of these.
pub proof fn law_which_http_requests_are_taken(
    path: Seq<u8>,
    host: Option<Seq<u8>>,
    content_type: Option<Seq<u8>>,
    server_name: Seq<u8>,
)
    ensures
        http_fault(path, host, content_type, server_name) is None <==> {
            &&& path == query_path()
            &&& host is Some && host->Some_0 == server_name
            &&& content_type is Some && content_type->Some_0 == message_media_type()
        },
        path != query_path() ==> http_fault(path, host, content_type, server_name) == Some(
            HttpFault::OtherPath,
        ),
        path == query_path() && (host is None || host->Some_0 != server_name) ==> http_fault(
            path,
            host,
            content_type,
            server_name,
        ) == Some(HttpFault::OtherHost),
        path == query_path() && host == Some(server_name) && (content_type is None
            || content_type->Some_0 != message_media_type()) ==> http_fault(
            path,
            host,
            content_type,
            server_name,
        ) == Some(HttpFault::OtherContent),
{
}

/// A server of HTTP/2 takes four requests on a connection, each as it comes, and answers only those
/// that came, each once.
pub proof fn law_four_requests_are_served(counts: RequestCounts)
    ensures
        counts_after(counts, RequestEvent::Incoming) is Some <==> counts.accepted < 4,
        counts_after(counts, RequestEvent::Incoming) matches Some(next) ==> next.accepted
            == counts.accepted + 1 && next.completed == counts.completed,
        counts_after(counts, RequestEvent::Completed) is Some <==> counts.completed
            < counts.accepted,
        counts_after(counts, RequestEvent::Completed) matches Some(next) ==> next.completed
            == counts.completed + 1 && next.accepted == counts.accepted,
{
}

/// A connection is begun as it was asked for: by its protocol, over its transport, to its address,
/// under its name and path, with the client that was given, or else the default. It fails only where
/// none was given and there is no default, with the error by which there is none.
pub proof fn law_connections_are_begun_as_asked<C, E>(
    protocol: Protocol,
    transport: Transport,
    socket_addr: SocketAddress,
    dns_name: String,
    http_endpoint: Option<String>,
    given: Option<Arc<C>>,
    default: Result<Arc<C>, E>,
)
    ensures
        ({
            let r = planned(
                protocol,
                transport,
                socket_addr,
                dns_name,
                http_endpoint,
                chosen(given, default),
            );
            &&& r is Ok <==> given is Some || default is Ok
            &&& r matches Ok(plan) ==> {
                &&& plan.protocol == protocol
                &&& plan.transport == transport
                &&& plan.socket_addr == socket_addr
                &&& plan.dns_name == dns_name
                &&& plan.http_endpoint == http_endpoint
                &&& given is Some ==> plan.client_config == given->Some_0
                &&& given is None ==> plan.client_config == default->Ok_0
            }
            &&& r matches Err(e) ==> e == default->Err_0
        }),
{
}

/// What a connection over HTTP/2 is begun with.
pub proof fn law_https_streams<C, E>(
    socket_addr: SocketAddress,
    bind_addr: Option<SocketAddress>,
    dns_name: String,
    http_endpoint: String,
    client_config: Option<Arc<C>>,
    default: Result<Arc<C>, E>,
    r: Result<StreamPlan<C>, E>,
    given: Result<StreamPlan<C>, E>,
)
    requires
        call_ensures(
            crate::streams::new_https_stream::<C, E>,
            (socket_addr, bind_addr, dns_name, http_endpoint, client_config, default),
            r,
        ),
        call_ensures(
            crate::streams::new_https_stream_with_future::<C, E>,
            (socket_addr, dns_name, http_endpoint, client_config, default),
            given,
        ),
    ensures
        r matches Ok(plan) ==> plan.protocol == Protocol::Https && plan.transport == Transport::Own(
            bind_addr,
        ) && plan.socket_addr == socket_addr && plan.dns_name == dns_name && plan.http_endpoint
            == Some(http_endpoint),
        given matches Ok(plan) ==> plan.protocol == Protocol::Https && plan.transport
            == Transport::Given && plan.socket_addr == socket_addr && plan.dns_name == dns_name
            && plan.http_endpoint == Some(http_endpoint),
        r is Ok <==> client_config is Some || default is Ok,
        given is Ok <==> client_config is Some || default is Ok,
{
}

/// What a connection over HTTP/3 is begun with.
pub proof fn law_h3_streams<C, E>(
    socket_addr: SocketAddress,
    bind_addr: Option<SocketAddress>,
    dns_name: String,
    http_endpoint: String,
    client_config: Option<Arc<C>>,
    default: Result<Arc<C>, E>,
    r: Result<StreamPlan<C>, E>,
    given: Result<StreamPlan<C>, E>,
)
    requires
        call_ensures(
            crate::streams::new_h3_stream::<C, E>,
            (socket_addr, bind_addr, dns_name, http_endpoint, client_config, default),
            r,
        ),
        call_ensures(
            crate::streams::new_h3_stream_with_future::<C, E>,
            (socket_addr, dns_name, http_endpoint, client_config, default),
            given,
        ),
    ensures
        r matches Ok(plan) ==> plan.protocol == Protocol::H3 && plan.transport == Transport::Own(
            bind_addr,
        ) && plan.socket_addr == socket_addr && plan.dns_name == dns_name && plan.http_endpoint
            == Some(http_endpoint),
        given matches Ok(plan) ==> plan.protocol == Protocol::H3 && plan.transport
            == Transport::Given && plan.socket_addr == socket_addr && plan.dns_name == dns_name
            && plan.http_endpoint == Some(http_endpoint),
        r is Ok <==> client_config is Some || default is Ok,
        given is Ok <==> client_config is Some || default is Ok,
{
}

/// What a connection over QUIC is begun with: there is no path.
pub proof fn law_quic_streams<C, E>(
    socket_addr: SocketAddress,
    bind_addr: Option<SocketAddress>,
    dns_name: String,
    client_config: Option<Arc<C>>,
    default: Result<Arc<C>, E>,
    r: Result<StreamPlan<C>, E>,
    given: Result<StreamPlan<C>, E>,
)
    requires
        call_ensures(
            crate::streams::new_quic_stream::<C, E>,
            (socket_addr, bind_addr, dns_name, client_config, default),
            r,
        ),
        call_ensures(
            crate::streams::new_quic_stream_with_future::<C, E>,
            (socket_addr, dns_name, client_config, default),
            given,
        ),
    ensures
        r matches Ok(plan) ==> plan.protocol == Protocol::Quic && plan.transport == Transport::Own(
            bind_addr,
        ) && plan.socket_addr == socket_addr && plan.dns_name == dns_name && plan.http_endpoint
            is None,
        given matches Ok(plan) ==> plan.protocol == Protocol::Quic && plan.transport
            == Transport::Given && plan.socket_addr == socket_addr && plan.dns_name == dns_name
            && plan.http_endpoint is None,
        r is Ok <==> client_config is Some || default is Ok,
        given is Ok <==> client_config is Some || default is Ok,
{
}

/// The options that nobody has configured: two servers are asked at once, those that answered best
/// first; a transport error does not lead to streams; nothing is shuffled or validated.
pub proof fn law_options_by_default()
    ensures
        default_opts().timeout == 5000,
        default_opts().attempts == 2,
        !default_opts().edns0,
        !default_opts().validate,
        default_opts().ip_strategy == LookupIpStrategy::Ipv4thenIpv6,
        default_opts().cache_size == 32,
        default_opts().use_hosts_file == ResolveHosts::Auto,
        default_opts().num_concurrent_reqs == 2,
        !default_opts().try_tcp_on_error,
        default_opts().server_ordering_strategy == ServerOrderingStrategy::QueryStatistics,
        !default_opts().shuffle_dns_servers,
{
}

/// The options of a resolver that shows every failure at once: nothing is kept or tried again, it
/// waits for two seconds, and all that is not about this is as nobody has configured it. One that
/// validates also asks for signatures.
pub proof fn law_options_that_show_failures(validating: ResolverOpts)
    requires
        call_ensures(validating_options, (), validating),
    ensures
        direct_opts().cache_size == 0,
        direct_opts().attempts == 0,
        direct_opts().timeout == 2000,
        direct_opts().use_hosts_file == ResolveHosts::Never,
        direct_opts().ip_strategy == LookupIpStrategy::Ipv4Only,
        direct_opts().edns0 == default_opts().edns0,
        direct_opts().validate == default_opts().validate,
        direct_opts().num_concurrent_reqs == default_opts().num_concurrent_reqs,
        direct_opts().try_tcp_on_error == default_opts().try_tcp_on_error,
        direct_opts().server_ordering_strategy == default_opts().server_ordering_strategy,
        direct_opts().shuffle_dns_servers == default_opts().shuffle_dns_servers,
        validating.validate && validating.edns0,
        validating.cache_size == 0 && validating.attempts == 0 && validating.timeout == 2000,
        validating.use_hosts_file == ResolveHosts::Never,
        validating.ip_strategy == LookupIpStrategy::Ipv4Only,
        validating.num_concurrent_reqs == default_opts().num_concurrent_reqs,
        validating.try_tcp_on_error == default_opts().try_tcp_on_error,
        validating.server_ordering_strategy == default_opts().server_ordering_strategy,
        validating.shuffle_dns_servers == default_opts().shuffle_dns_servers,
{
}

/// What a resolver over authenticated connections is set up with: HTTP/2, HTTP/3 and QUIC reach its
/// one server, at its address and under the name that it has to prove, and denials of it are
/// believed; the client trusts the one root and names the server.
pub proof fn law_resolvers_reach_their_server(
    setup: ResolverSetup,
    address: SocketAddress,
    name: String,
    root: Seq<u8>,
    protocol: Protocol,
)
    requires
        reaches(setup, address, name, root, protocol),
    ensures
        supported(protocol) <==> protocol == Protocol::Https || protocol == Protocol::H3 || protocol
            == Protocol::Quic,
        setup.config.domain is None,
        setup.config.search@.len() == 0,
        setup.config.group.servers@.len() == 1,
        ({
            let server = setup.config.group.servers@[0];
            &&& server.socket_addr == address
            &&& server.protocol == protocol
            &&& server.tls_dns_name == Some(name)
            &&& server.http_endpoint is None
            &&& server.trust_negative_responses
            &&& server.tls_config is None
            &&& server.bind_addr is None
        }),
        setup.config.group.client_config is Some,
        client_roots(*setup.config.group.client_config->Some_0) == seq![anchor_of(root)->Some_0],
        client_sni(*setup.config.group.client_config->Some_0),
        setup.options == direct_opts(),
{
}

/// What a resolver over an authenticated stream asks: its one server, at its address and under the
/// name that it has to prove.
pub proof fn law_stream_resolvers_ask_one_server<C>(
    config: ResolverConfig<C>,
    address: SocketAddress,
    name: String,
)
    requires
        asks_one_server(config, address, name),
    ensures
        config.domain is None,
        config.search@.len() == 0,
        config.group.servers@.len() == 1,
        config.group.servers@[0].socket_addr == address,
        config.group.servers@[0].protocol == Protocol::Tls,
        config.group.servers@[0].tls_dns_name == Some(name),
        config.group.servers@[0].http_endpoint is None,
        config.group.servers@[0].trust_negative_responses,
        config.group.servers@[0].tls_config is None,
        config.group.servers@[0].bind_addr is None,
{
}

} // verus!
