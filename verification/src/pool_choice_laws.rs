//! Which servers a pool holds, in which order it asks them, and which result it chooses.

use std::sync::Arc;

use vstd::prelude::*;

use crate::config::{
    datagram_protocol, encrypted_server, IpAddress, NameServerConfig, Protocol, ResolverOpts,
    ServerOrderingStrategy,
};
use crate::conn_loop::{comes_next, ConnLoop, RoundView};
use crate::error::{ProtoError, ProtoErrorKind};
use crate::message::Message;
use crate::name_server::NameServer;
use crate::pool::{
    better, built, counter_move, datagram_configs, ordered, send_result, starts, stream_configs,
    wants_stream, with_client,
};
use crate::pool_laws::law_every_connection_is_listed_once;
use crate::pool_send::{settles_to, SendStep};

verus! {

/// Streams are tried after a transport error, whichever it is, if and only if the options ask for
/// it; after the want of any connection always; and after no other error. Without streams the error
/// stands.
pub proof fn law_streams_are_tried_after_transport_errors(
    options: ResolverOpts,
    e: ProtoError,
    tcp: Result<Message, ProtoError>,
    step: SendStep,
    has_streams: bool,
)
    requires
        settles_to(options, has_streams, None, Err(e), step),
    ensures
        wants_stream(options, Err(e)) <==> match e.kind {
            ProtoErrorKind::Io(_) => options.try_tcp_on_error,
            ProtoErrorKind::NoConnections => true,
            ProtoErrorKind::Busy => false,
            ProtoErrorKind::Timeout => false,
            ProtoErrorKind::NoRecordsFound { .. } => false,
            ProtoErrorKind::Message(_) => false,
        },
        e.kind is Io && options.try_tcp_on_error && has_streams ==> {
            &&& step == SendStep::TryStreams(Err(e))
            &&& tcp is Ok ==> send_result(options, has_streams, Err(e), tcp) == tcp
        },
        e.kind is NoConnections && has_streams ==> {
            &&& step == SendStep::TryStreams(Err(e))
            &&& tcp is Ok ==> send_result(options, has_streams, Err(e), tcp) == tcp
        },
        e.kind is Io && !options.try_tcp_on_error ==> step == SendStep::Done(Err(e)),
        !(e.kind is Io) && !(e.kind is NoConnections) ==> step == SendStep::Done(Err(e)),
        !has_streams ==> step == SendStep::Done(Err(e)),
        step == SendStep::Done(Err(e)) ==> send_result(options, has_streams, Err(e), tcp) == Err::<
            Message,
            ProtoError,
        >(e),
{
}

/// Streams are tried after a response that was cut, and after no other: a complete one is what the
/// request comes to at once, and so is one that was cut where there are no streams.
pub proof fn law_streams_are_tried_after_a_cut(
    options: ResolverOpts,
    response: Message,
    step: SendStep,
    has_streams: bool,
)
    requires
        settles_to(options, has_streams, None, Ok(response), step),
    ensures
        response@.header.truncated && has_streams ==> step == SendStep::TryStreams(Ok(response)),
        !response@.header.truncated || !has_streams ==> step == SendStep::Done(Ok(response)),
{
}

/// A response over streams is better than whatever came by datagrams, and a response by datagrams
/// better than an error over streams. Of two errors the one over streams is chosen, unless the
/// other is of a kind that tells more.
pub proof fn law_the_better_result_is_chosen(
    udp: Result<Message, ProtoError>,
    tcp: Result<Message, ProtoError>,
    step: SendStep,
    options: ResolverOpts,
    has_streams: bool,
)
    requires
        settles_to(options, has_streams, Some(udp), tcp, step),
    ensures
        step == SendStep::Done(better(udp, tcp)),
        tcp is Ok ==> better(udp, tcp) == tcp,
        udp is Ok && tcp is Err ==> better(udp, tcp) == udp,
        udp is Err && tcp is Err ==> better(udp, tcp) == {
            let (d, s) = (udp->Err_0.kind, tcp->Err_0.kind);
            if d is NoRecordsFound && !(s is NoRecordsFound) {
                udp
            } else if d is Io && !(s is NoRecordsFound) && !(s is Io) {
                udp
            } else if d is Timeout && !(s is NoRecordsFound) && !(s is Io) && !(s is Timeout) {
                udp
            } else {
                tcp
            }
        },
{
}

/// Plain datagrams, QUIC and HTTP/3 travel as datagrams; plain streams, TLS and HTTP/2 do not.
pub proof fn law_protocols_of_datagrams(protocol: Protocol)
    ensures
        datagram_protocol(protocol) <==> match protocol {
            Protocol::Udp => true,
            Protocol::Tcp => false,
            Protocol::Tls => false,
            Protocol::Https => false,
            Protocol::Quic => true,
            Protocol::H3 => true,
        },
{
}

/// Whether the server is reached by plain datagrams, QUIC or HTTP/3.
pub open spec fn by_datagrams<C>(config: NameServerConfig<C>) -> bool {
    config.protocol == Protocol::Udp || config.protocol == Protocol::Quic || config.protocol
        == Protocol::H3
}

/// The servers are sorted one by one and keep their order: what is made of two lists is what is
/// made of the first and behind it what is made of the second, and a single server is in the one
/// part or in the other.
pub proof fn law_parts_keep_the_order<C>(
    a: Seq<NameServerConfig<C>>,
    b: Seq<NameServerConfig<C>>,
    config: NameServerConfig<C>,
)
    ensures
        datagram_configs(a + b) == datagram_configs(a) + datagram_configs(b),
        stream_configs(a + b) == stream_configs(a) + stream_configs(b),
        datagram_configs(seq![config]) == if by_datagrams(config) {
            seq![config]
        } else {
            Seq::empty()
        },
        stream_configs(seq![config]) == if by_datagrams(config) {
            Seq::empty()
        } else {
            seq![config]
        },
    decreases b.len(),
{
    reveal(Seq::filter);
    let one = seq![config];
    assert(one.drop_last() =~= Seq::<NameServerConfig<C>>::empty());
    assert(datagram_configs(one.drop_last()) =~= Seq::<NameServerConfig<C>>::empty());
    assert(stream_configs(one.drop_last()) =~= Seq::<NameServerConfig<C>>::empty());
    assert(datagram_configs(one) =~= if by_datagrams(config) {
        seq![config]
    } else {
        Seq::empty()
    });
    assert(stream_configs(one) =~= if by_datagrams(config) {
        Seq::empty()
    } else {
        seq![config]
    });
    if b.len() == 0 {
        assert(a + b =~= a);
        assert(datagram_configs(b) =~= Seq::<NameServerConfig<C>>::empty());
        assert(stream_configs(b) =~= Seq::<NameServerConfig<C>>::empty());
    } else {
        law_parts_keep_the_order(a, b.drop_last(), config);
        assert((a + b).drop_last() =~= a + b.drop_last());
        assert((a + b).last() == b.last());
    }
    assert(datagram_configs(a + b) =~= datagram_configs(a) + datagram_configs(b));
    assert(stream_configs(a + b) =~= stream_configs(a) + stream_configs(b));
}

/// The servers of a pool are those that were configured, one for each and in their order, with the
/// options of the pool. A client for all servers takes the place of the one that each was given, and
/// changes nothing else.
pub proof fn law_servers_are_as_configured<P: Clone, C>(
    servers: Seq<NameServer<P, C>>,
    configs: Seq<NameServerConfig<C>>,
    client: Option<Arc<C>>,
    options: ResolverOpts,
    conn_provider: P,
    i: int,
)
    requires
        built(servers, with_client(configs, client), options, conn_provider),
        0 <= i < configs.len(),
    ensures
        servers.len() == configs.len(),
        servers[i].options == options,
        cloned(conn_provider, servers[i].conn_provider),
        servers[i].config.socket_addr == configs[i].socket_addr,
        servers[i].config.protocol == configs[i].protocol,
        servers[i].config.tls_dns_name == configs[i].tls_dns_name,
        servers[i].config.http_endpoint == configs[i].http_endpoint,
        servers[i].config.trust_negative_responses == configs[i].trust_negative_responses,
        servers[i].config.bind_addr == configs[i].bind_addr,
        servers[i].config.tls_config == client,
{
    assert(with_client(configs, client)[i].tls_config == client);
    assert(servers[i].config == with_client(configs, client)[i]);
}

/// Without a client for all, too, the servers of a pool are those that were configured.
pub proof fn law_servers_are_as_given<P: Clone, C>(
    servers: Seq<NameServer<P, C>>,
    configs: Seq<NameServerConfig<C>>,
    options: ResolverOpts,
    conn_provider: P,
    i: int,
)
    requires
        built(servers, configs, options, conn_provider),
        0 <= i < configs.len(),
    ensures
        servers.len() == configs.len(),
        servers[i].config == configs[i],
        servers[i].options == options,
        cloned(conn_provider, servers[i].conn_provider),
{
    assert(servers[i].config == configs[i]);
}

/// A server that has to prove a name is reached under its address and port, by its protocol, and
/// nothing else is set.
pub proof fn law_encrypted_servers<C>(
    ip: IpAddress,
    port: u16,
    name: String,
    protocol: Protocol,
    trust: bool,
)
    ensures
        ({
            let r = encrypted_server::<C>(ip, port, name, protocol, trust);
            &&& r.socket_addr.ip == ip && r.socket_addr.port == port
            &&& r.protocol == protocol
            &&& r.tls_dns_name == Some(name)
            &&& r.http_endpoint is None
            &&& r.trust_negative_responses == trust
            &&& r.tls_config is None
            &&& r.bind_addr is None
        }),
{
}

/// The servers are asked in the order that the options name: as they were configured; or those that
/// answered better before the others; or going round, where not all are asked at once, from the one
/// on at which the counter stands.
pub proof fn law_servers_are_asked_as_ordered(
    options: ResolverOpts,
    ranks: Seq<u64>,
    start: usize,
    order: Seq<usize>,
    i: int,
    j: int,
)
    requires
        ranks.len() <= usize::MAX,
        ordered(options, ranks, start, order),
        0 <= i < j < ranks.len(),
    ensures
        order.len() == ranks.len(),
        options.server_ordering_strategy == ServerOrderingStrategy::UserProvidedOrder ==> order[i]
            == i && order[j] == j,
        options.server_ordering_strategy == ServerOrderingStrategy::QueryStatistics
            ==> ranks[order[i] as int] <= ranks[order[j] as int] && order[i] != order[j],
        options.server_ordering_strategy == ServerOrderingStrategy::RoundRobin
            && options.num_concurrent_reqs >= ranks.len() ==> order[i] == i && order[j] == j,
        options.server_ordering_strategy == ServerOrderingStrategy::RoundRobin
            && options.num_concurrent_reqs < ranks.len() ==> order[i] == (start + i)
            % (ranks.len() as int) && order[j] == (start + j) % (ranks.len() as int),
{
    law_every_connection_is_listed_once(options, ranks, start, order);
    if options.server_ordering_strategy == ServerOrderingStrategy::RoundRobin
        && options.num_concurrent_reqs < ranks.len() {
        crate::pool_laws::lemma_rotated_at(ranks.len(), start, i);
        crate::pool_laws::lemma_rotated_at(ranks.len(), start, j);
    }
}

/// The counter of a pool moves only for requests that go round where not all servers are asked at
/// once, and then by as many as are asked at once, at least one.
pub proof fn law_counters_move_as_many_as_are_asked(options: ResolverOpts, len: nat)
    ensures
        counter_move(options, len) == {
            let width = vstd::math::max(1, options.num_concurrent_reqs as int);
            if options.server_ordering_strategy == ServerOrderingStrategy::RoundRobin && width
                < len {
                Some(width as usize)
            } else {
                None
            }
        },
{
}

/// A request whose servers are not shuffled asks as many at once as the options say, the first ones
/// of its order, and begins without an error but that there was no connection.
pub proof fn law_requests_begin_as_the_options_say(
    options: ResolverOpts,
    ranks: Seq<u64>,
    start: usize,
    request: ConnLoop,
    round: RoundView,
)
    requires
        0 < ranks.len() <= usize::MAX,
        starts(options, ranks, start, request),
        comes_next(request, round),
    ensures
        request.state().err.kind is NoConnections,
        request.state().conns.len() == ranks.len(),
        request.shuffles() == options.shuffle_dns_servers,
        round matches RoundView::Query(t, asked) && {
            &&& asked.len() == vstd::math::min(
                ranks.len() as int,
                vstd::math::max(1, options.num_concurrent_reqs as int),
            )
            &&& !options.shuffle_dns_servers ==> asked == request.state().conns.take(
                asked.len() as int,
            )
        },
{
    law_every_connection_is_listed_once(options, ranks, start, request.state().conns);
    if request.shuffles() {
        let s = request.state();
        let draws = choose|draws: Seq<usize>|
            {
                &&& draws.len() == crate::conn_loop::batch(s.conns.len(), request.concurrency())
                &&& crate::conn_loop::valid_draws(s.conns.len(), draws)
                &&& round == #[trigger] crate::conn_loop::round_drawn(s, draws)
            };
        crate::conn_laws::lemma_drawn_multiset(s.conns, draws);
    }
}

} // verus!
