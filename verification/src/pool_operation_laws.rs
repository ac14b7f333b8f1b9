//! What the operations of a pool come to, said of their results.

use std::sync::Arc;

use vstd::prelude::*;

use crate::config::{
    NameServerConfig, NameServerConfigGroup, Protocol, ResolverConfig, ResolverOpts, SocketAddress,
};
use crate::conn_loop::{ConnLoop, Progress, Round};
use crate::error::{ProtoError, ProtoErrorKind};
use crate::error_laws::{
    final_denial, law_an_error_is_kept_or_forgotten, law_only_a_final_denial_ends_a_request,
};
use crate::local_dns::LocalDns;
use crate::message::Message;
use crate::name_server::NameServer;
use crate::pool::{
    after_stream, datagram_configs, fresh_counter, sends, stream_configs, AfterDatagram,
    NameServerPool,
};
use crate::pool_choice_laws::by_datagrams;
use crate::pool_send::{PoolSend, SendStep};

verus! {

/// A reply to a request: a response ends it, and so does a denial that is final; any other error
/// leaves the other connections to be asked, and the one that replied is asked again only where it
/// was busy.
pub proof fn law_what_a_reply_leads_to(
    request: ConnLoop,
    conn: usize,
    reply: Result<Message, ProtoError>,
    r: Progress,
)
    requires
        call_ensures(ConnLoop::on_reply, (request, conn, reply), r),
    ensures
        reply is Ok ==> r == Progress::Done(reply),
        reply matches Err(e) ==> {
            &&& final_denial(e) ==> r == Progress::Done(reply)
            &&& !final_denial(e) ==> r is Going
            &&& r matches Progress::Going(next) ==> {
                &&& next.state().conns == request.state().conns
                &&& next.state().backoff == request.state().backoff
                &&& e.kind is Busy ==> next.state().busy == request.state().busy.push(conn)
                    && next.state().err == request.state().err
                &&& !(e.kind is Busy) ==> next.state().busy == request.state().busy
                &&& !(e.kind is Busy) && request.state().err.kind is NoConnections
                    ==> next.state().err == e
                &&& next.concurrency() == request.concurrency()
                &&& next.shuffles() == request.shuffles()
            }
        },
{
    if let Err(e) = reply {
        law_only_a_final_denial_ends_a_request(request.state(), conn, e);
        if !final_denial(e) {
            law_an_error_is_kept_or_forgotten(request.state(), conn, e);
        }
    }
}

/// A request that is new has all its connections to ask, in their order, none of them busy, and
/// nothing to say but that there was no connection.
pub proof fn law_how_a_request_begins(
    conns: Vec<usize>,
    num_concurrent_reqs: usize,
    shuffle: bool,
    r: ConnLoop,
)
    requires
        call_ensures(ConnLoop::new, (conns, num_concurrent_reqs, shuffle), r),
    ensures
        r.state().conns == conns@,
        r.state().busy.len() == 0,
        r.state().err.kind is NoConnections,
        r.state().backoff == 20,
        r.concurrency() == num_concurrent_reqs,
        r.shuffles() == shuffle,
{
}

/// The next round of a request that does not shuffle: the next connections are asked, as many as may
/// be at once; or the busy ones after a pause, which is twice as long the next time; or it gives up.
pub proof fn law_what_the_next_round_is(request: ConnLoop, r: Round)
    requires
        call_ensures(ConnLoop::next_round, (request,), r),
        !request.shuffles(),
    ensures
        request.state().conns.len() > 0 ==> (r matches Round::Query(next, asked) && {
            &&& asked@.len() == vstd::math::min(
                request.state().conns.len() as int,
                vstd::math::max(1, request.concurrency() as int),
            )
            &&& asked@ + next.state().conns == request.state().conns
            &&& next.state().busy == request.state().busy
            &&& next.state().err == request.state().err
            &&& next.state().backoff == request.state().backoff
            &&& next.concurrency() == request.concurrency()
            &&& next.shuffles() == request.shuffles()
        }),
        request.state().conns.len() == 0 && request.state().busy.len() > 0
            && request.state().backoff < 300 ==> (r matches Round::Wait(next, millis) && {
            &&& millis == request.state().backoff
            &&& next.state().conns == request.state().busy
            &&& next.state().busy.len() == 0
            &&& next.state().err == request.state().err
            &&& next.state().backoff == 2 * request.state().backoff
            &&& next.concurrency() == request.concurrency()
            &&& next.shuffles() == request.shuffles()
        }),
        request.state().conns.len() == 0 && (request.state().busy.len() == 0
            || request.state().backoff >= 300) ==> r == Round::GiveUp(request.state().err),
{
    let s = request.state();
    let n = crate::conn_loop::batch(s.conns.len(), request.concurrency()) as int;
    assert(s.conns.take(n) + s.conns.skip(n) =~= s.conns);
    if s.conns.len() == 0 {
        assert(s.conns.skip(n) + s.busy =~= s.busy);
    }
}

/// What came by datagrams is tried to better over streams where there are any: a response that was
/// cut, the want of any connection, and any transport error if the options ask for it. All else is
/// the result.
pub proof fn law_what_follows_datagrams<P, C>(
    pool: NameServerPool<P, C>,
    udp: Result<Message, ProtoError>,
    r: AfterDatagram,
)
    requires
        call_ensures(NameServerPool::<P, C>::after_datagram, (&pool, udp), r),
    ensures
        r == AfterDatagram::TryStream(udp) || r == AfterDatagram::Done(udp),
        r is TryStream <==> pool.stream().len() > 0 && match udp {
            Ok(response) => response@.header.truncated,
            Err(e) => match e.kind {
                ProtoErrorKind::Io(_) => pool.opts().try_tcp_on_error,
                ProtoErrorKind::NoConnections => true,
                _ => false,
            },
        },
{
}

/// Of what came by datagrams and over streams a response over streams is chosen before any other
/// result, and a response by datagrams before an error; an error by datagrams only where it is of a
/// kind that tells more.
pub proof fn law_what_follows_streams(
    udp: Result<Message, ProtoError>,
    tcp: Result<Message, ProtoError>,
    r: Result<Message, ProtoError>,
)
    requires
        call_ensures(after_stream, (udp, tcp), r),
    ensures
        tcp is Ok ==> r == tcp,
        tcp is Err && udp is Ok ==> r == udp,
        tcp is Err && udp is Err ==> r == {
            let (d, s) = (udp->Err_0.kind, tcp->Err_0.kind);
            if (d is NoRecordsFound && !(s is NoRecordsFound)) || (d is Io && !(s is NoRecordsFound)
                && !(s is Io)) || (d is Timeout && !(s is NoRecordsFound) && !(s is Io) && !(
            s is Timeout)) {
                udp
            } else {
                tcp
            }
        },
{
}

/// A reply in a request to a pool, while it goes by datagrams: a complete response or a final denial
/// is the result; a response that was cut leads to streams where there are any; any other error
/// leaves the other servers to be asked.
pub proof fn law_what_a_reply_means_for_a_pool<P, C>(
    pool: NameServerPool<P, C>,
    request: PoolSend,
    conn: usize,
    reply: Result<Message, ProtoError>,
    r: SendStep,
)
    requires
        call_ensures(NameServerPool::<P, C>::on_reply, (&pool, request, conn, reply), r),
    ensures
        request.over_datagrams() is None ==> match reply {
            Ok(response) => if response@.header.truncated && pool.stream().len() > 0 {
                r == SendStep::TryStreams(reply)
            } else {
                r == SendStep::Done(reply)
            },
            Err(e) => if final_denial(e) {
                r == SendStep::Done(reply)
            } else {
                r matches SendStep::Going(next) && next.over_datagrams() is None
                    && next.loop_of().state().conns == request.loop_of().state().conns
            },
        },
        request.over_datagrams() matches Some(udp) ==> match reply {
            Ok(response) => r == SendStep::Done(reply),
            Err(e) => if final_denial(e) {
                r is Done && (udp is Ok ==> r == SendStep::Done(udp))
            } else {
                r matches SendStep::Going(next) && next.over_datagrams() == Some(udp)
                    && next.loop_of().state().conns == request.loop_of().state().conns
            },
        },
{
    if let Err(e) = reply {
        law_only_a_final_denial_ends_a_request(request.loop_of().state(), conn, e);
        if !final_denial(e) {
            law_an_error_is_kept_or_forgotten(request.loop_of().state(), conn, e);
        }
    }
}

/// What a request to a pool does next, where its servers are not shuffled: it asks the next ones;
/// or pauses; or, when nothing is left, goes over to streams if the error asks for it, or comes to
/// its error.
pub proof fn law_what_a_pool_does_next<P, C>(
    pool: NameServerPool<P, C>,
    request: PoolSend,
    r: SendStep,
)
    requires
        call_ensures(NameServerPool::<P, C>::next_step, (&pool, request), r),
        !request.loop_of().shuffles(),
    ensures
        ({
            let s = request.loop_of().state();
            &&& s.conns.len() > 0 ==> (r matches SendStep::Ask(next, asked) && {
                &&& asked@.len() == vstd::math::min(
                    s.conns.len() as int,
                    vstd::math::max(1, request.loop_of().concurrency() as int),
                )
                &&& asked@ + next.loop_of().state().conns == s.conns
                &&& next.over_datagrams() == request.over_datagrams()
            })
            &&& s.conns.len() == 0 && s.busy.len() > 0 && s.backoff < 300 ==> (
            r matches SendStep::Pause(next, millis) && millis == s.backoff
                && next.loop_of().state().conns == s.busy && next.over_datagrams()
                == request.over_datagrams())
            &&& s.conns.len() == 0 && (s.busy.len() == 0 || s.backoff >= 300) ==> match request
                .over_datagrams() {
                None => if pool.stream().len() > 0 && (s.err.kind is NoConnections || (
                s.err.kind is Io && pool.opts().try_tcp_on_error)) {
                    r == SendStep::TryStreams(Err(s.err))
                } else {
                    r == SendStep::Done(Err(s.err))
                },
                Some(udp) => r is Done && (udp is Ok ==> r == SendStep::Done(udp)),
            }
        }),
{
    let s = request.loop_of().state();
    let n = crate::conn_loop::batch(s.conns.len(), request.loop_of().concurrency()) as int;
    assert(s.conns.take(n) + s.conns.skip(n) =~= s.conns);
    if s.conns.len() == 0 {
        assert(s.conns.skip(n) + s.busy =~= s.busy);
    }
}

/// Requests by datagrams go to the servers that are reached so, by their own counter; those over
/// streams to the others, by theirs.
pub proof fn law_where_requests_go<P, C>(
    pool: NameServerPool<P, C>,
    datagram_ranks: Vec<u64>,
    stream_ranks: Vec<u64>,
    udp: Result<Message, ProtoError>,
    d: ConnLoop,
    s: ConnLoop,
    first: PoolSend,
    second: PoolSend,
)
    requires
        call_ensures(NameServerPool::<P, C>::send_datagram, (&pool, &datagram_ranks), d),
        call_ensures(NameServerPool::<P, C>::send_stream, (&pool, &stream_ranks), s),
        call_ensures(NameServerPool::<P, C>::send, (&pool, &datagram_ranks), first),
        call_ensures(NameServerPool::<P, C>::send_over_streams, (&pool, udp, &stream_ranks), second),
    ensures
        sends(pool.opts(), datagram_ranks@, *pool.counters().0, d),
        sends(pool.opts(), stream_ranks@, *pool.counters().1, s),
        sends(pool.opts(), datagram_ranks@, *pool.counters().0, first.loop_of()),
        sends(pool.opts(), stream_ranks@, *pool.counters().1, second.loop_of()),
        first.over_datagrams() is None,
        second.over_datagrams() == Some(udp),
{
}

/// A pool for a resolver holds a server for each that was configured: those of plain datagrams, QUIC
/// and HTTP/3 in the one part, the others in the other, each part in the order of the configuration.
/// Every server has the options of the pool and the client of the resolver.
pub proof fn law_pools_hold_the_configured_servers<P: Clone, C>(
    config: ResolverConfig<C>,
    options: ResolverOpts,
    conn_provider: P,
    pool: NameServerPool<P, C>,
)
    requires
        call_ensures(
            NameServerPool::<P, C>::from_config_with_provider,
            (&config, options, conn_provider),
            pool,
        ),
    ensures
        ({
            let configs = config.group.servers@;
            let d = configs.filter(|c: NameServerConfig<C>| by_datagrams(c));
            let s = configs.filter(|c: NameServerConfig<C>| !by_datagrams(c));
            &&& pool.opts() == options
            &&& pool.datagram().len() == d.len()
            &&& pool.stream().len() == s.len()
            &&& forall|i: int|
                0 <= i < d.len() ==> {
                    &&& (#[trigger] pool.datagram()[i]).config == (NameServerConfig::<C> {
                        tls_config: config.group.client_config,
                        ..d[i]
                    })
                    &&& pool.datagram()[i].options == options
                    &&& cloned(conn_provider, pool.datagram()[i].conn_provider)
                }
            &&& forall|i: int|
                0 <= i < s.len() ==> {
                    &&& (#[trigger] pool.stream()[i]).config == (NameServerConfig::<C> {
                        tls_config: config.group.client_config,
                        ..s[i]
                    })
                    &&& pool.stream()[i].options == options
                    &&& cloned(conn_provider, pool.stream()[i].conn_provider)
                }
            &&& fresh_counter(*pool.counters().0)
            &&& fresh_counter(*pool.counters().1)
        }),
{
    lemma_parts(config.group.servers@);
}

/// A pool for a group of servers holds them in the same way, each as it was configured.
pub proof fn law_pools_hold_the_given_servers<P: Clone, C>(
    group: NameServerConfigGroup<C>,
    options: ResolverOpts,
    conn_provider: P,
    pool: NameServerPool<P, C>,
)
    requires
        call_ensures(NameServerPool::<P, C>::from_config, (group, options, conn_provider), pool),
    ensures
        ({
            let d = group.servers@.filter(|c: NameServerConfig<C>| by_datagrams(c));
            let s = group.servers@.filter(|c: NameServerConfig<C>| !by_datagrams(c));
            &&& pool.opts() == options
            &&& pool.datagram().len() == d.len()
            &&& pool.stream().len() == s.len()
            &&& forall|i: int|
                0 <= i < d.len() ==> (#[trigger] pool.datagram()[i]).config == d[i]
                    && pool.datagram()[i].options == options && cloned(
                    conn_provider,
                    pool.datagram()[i].conn_provider,
                )
            &&& forall|i: int|
                0 <= i < s.len() ==> (#[trigger] pool.stream()[i]).config == s[i]
                    && pool.stream()[i].options == options && cloned(
                    conn_provider,
                    pool.stream()[i].conn_provider,
                )
            &&& fresh_counter(*pool.counters().0)
            &&& fresh_counter(*pool.counters().1)
        }),
{
    lemma_parts(group.servers@);
}

proof fn lemma_parts<C>(configs: Seq<NameServerConfig<C>>)
    ensures
        datagram_configs(configs) == configs.filter(|c: NameServerConfig<C>| by_datagrams(c)),
        stream_configs(configs) == configs.filter(|c: NameServerConfig<C>| !by_datagrams(c)),
    decreases configs.len(),
{
    reveal(Seq::filter);
    if configs.len() > 0 {
        lemma_parts(configs.drop_last());
    }
}

/// A pool that is made of two lists of servers holds them as they are.
pub proof fn law_pools_hold_their_lists<P, C>(
    options: ResolverOpts,
    datagrams: Vec<NameServer<P, C>>,
    streams: Vec<NameServer<P, C>>,
    shared_datagrams: Arc<Vec<NameServer<P, C>>>,
    shared_streams: Arc<Vec<NameServer<P, C>>>,
    pool: NameServerPool<P, C>,
    shared: NameServerPool<P, C>,
    copy: NameServerPool<P, C>,
)
    requires
        call_ensures(
            NameServerPool::<P, C>::from_nameservers,
            (options, datagrams, streams),
            pool,
        ),
        call_ensures(
            NameServerPool::<P, C>::from_shared,
            (options, shared_datagrams, shared_streams),
            shared,
        ),
        call_ensures(<NameServerPool<P, C> as Clone>::clone, (&pool,), copy),
    ensures
        pool.datagram() == datagrams@ && pool.stream() == streams@ && pool.opts() == options,
        shared.datagram() == shared_datagrams@ && shared.stream() == shared_streams@
            && shared.opts() == options,
        copy.datagram() == datagrams@ && copy.stream() == streams@ && copy.opts() == options,
        copy.counters() == pool.counters(),
        fresh_counter(*pool.counters().0) && fresh_counter(*pool.counters().1),
        fresh_counter(*shared.counters().0) && fresh_counter(*shared.counters().1),
{
}

/// A server that is reached without further settings is believed in what it denies. A local server
/// is one of these, and is reached by plain datagrams.
pub proof fn law_plain_servers<C>(
    address: SocketAddress,
    protocol: Protocol,
    config: NameServerConfig<C>,
    client: Option<Arc<C>>,
    changed: NameServerConfig<C>,
    local: LocalDns,
    servers: Vec<NameServerConfig<C>>,
)
    requires
        call_ensures(NameServerConfig::<C>::new, (address, protocol), config),
        call_ensures(NameServerConfig::<C>::with_tls_config, (&config, &client), changed),
        call_ensures(LocalDns::name_servers::<C>, (&local,), servers),
    ensures
        config.socket_addr == address && config.protocol == protocol,
        config.tls_dns_name is None && config.http_endpoint is None,
        config.trust_negative_responses,
        config.tls_config is None && config.bind_addr is None,
        changed.socket_addr == address && changed.protocol == protocol,
        changed.tls_dns_name is None && changed.http_endpoint is None,
        changed.trust_negative_responses && changed.bind_addr is None,
        changed.tls_config == client,
        servers@.len() == 1,
        servers@[0].socket_addr == local.address && servers@[0].protocol == Protocol::Udp,
        servers@[0].tls_dns_name is None && servers@[0].http_endpoint is None,
        servers@[0].trust_negative_responses,
        servers@[0].tls_config is None && servers@[0].bind_addr is None,
{
}

} // verus!
