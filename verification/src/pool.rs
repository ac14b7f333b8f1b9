//! A pool of name servers: those that are reached by datagrams, and those that are reached over
//! streams.

use std::sync::atomic::AtomicUsize;
use std::sync::Arc;

use vstd::prelude::*;

use crate::config::{
    datagram_protocol, NameServerConfig, NameServerConfigGroup, ResolverConfig, ResolverOpts,
    ServerOrderingStrategy,
};
use crate::conn_loop::{initial_state, width, ConnLoop};
use crate::error::{specificity, ProtoError};
use crate::message::Message;
use crate::name_server::NameServer;

verus! {

/// The servers that are reached by datagrams, in their order.
pub open spec fn datagram_configs<C>(configs: Seq<NameServerConfig<C>>) -> Seq<NameServerConfig<C>> {
    configs.filter(|c: NameServerConfig<C>| datagram_protocol(c.protocol))
}

/// The servers that are reached over streams, in their order.
pub open spec fn stream_configs<C>(configs: Seq<NameServerConfig<C>>) -> Seq<NameServerConfig<C>> {
    configs.filter(|c: NameServerConfig<C>| !datagram_protocol(c.protocol))
}

/// The same servers, with one configuration of the TLS client for all, or with none.
pub open spec fn with_client<C>(
    configs: Seq<NameServerConfig<C>>,
    client: Option<Arc<C>>,
) -> Seq<NameServerConfig<C>> {
    configs.map_values(|c: NameServerConfig<C>| NameServerConfig::<C> { tls_config: client, ..c })
}

/// Whether these are name servers for the configurations, one for each and in their order, all
/// with the same options and each with a clone of the provider.
pub open spec fn built<P: Clone, C>(
    servers: Seq<NameServer<P, C>>,
    configs: Seq<NameServerConfig<C>>,
    options: ResolverOpts,
    conn_provider: P,
) -> bool {
    &&& servers.len() == configs.len()
    &&& forall|i: int|
        0 <= i < servers.len() ==> {
            &&& (#[trigger] servers[i]).config == configs[i]
            &&& servers[i].options == options
            &&& cloned(conn_provider, servers[i].conn_provider)
        }
}

/// The numbers of the connections of a pool, as they were configured.
pub open spec fn in_order(len: nat) -> Seq<usize> {
    Seq::new(len, |i: int| i as usize)
}

/// The same numbers, beginning with `start` counted round, and from the last on with the first.
pub open spec fn rotated(len: nat, start: usize) -> Seq<usize> {
    let k = start as int % len as int;
    in_order(len).skip(k) + in_order(len).take(k)
}

/// All connections, those of lower rank before those of higher rank. The order among those of the
/// same rank is open.
pub open spec fn by_rank(ranks: Seq<u64>, order: Seq<usize>) -> bool {
    &&& order.to_multiset() == in_order(ranks.len()).to_multiset()
    &&& forall|i: int, j: int|
        0 <= i <= j < order.len() ==> ranks[#[trigger] order[i] as int]
            <= ranks[#[trigger] order[j] as int]
}

/// Whether the connections are in the order that the options ask for. `start` is what the counter
/// of the pool said when the request came.
pub open spec fn ordered(
    options: ResolverOpts,
    ranks: Seq<u64>,
    start: usize,
    order: Seq<usize>,
) -> bool {
    match options.server_ordering_strategy {
        ServerOrderingStrategy::QueryStatistics => by_rank(ranks, order),
        ServerOrderingStrategy::UserProvidedOrder => order == in_order(ranks.len()),
        ServerOrderingStrategy::RoundRobin => if width(options.num_concurrent_reqs) < ranks.len() {
            order == rotated(ranks.len(), start)
        } else {
            order == in_order(ranks.len())
        },
    }
}

/// By how much a request to `len` connections moves the counter of a pool. None where it leaves the
/// counter alone: only requests that go round move it, and only where not all connections are asked
/// at once.
pub open spec fn counter_move(options: ResolverOpts, len: nat) -> Option<usize> {
    if options.server_ordering_strategy is RoundRobin && width(options.num_concurrent_reqs) < len {
        Some(width(options.num_concurrent_reqs) as usize)
    } else {
        None
    }
}

/// Whether a request is put to the connections of a pool as the options ask for it.
pub open spec fn starts(
    options: ResolverOpts,
    ranks: Seq<u64>,
    start: usize,
    request: ConnLoop,
) -> bool {
    &&& request.state().err.kind is NoConnections
    &&& request.state() == initial_state(request.state().conns, request.state().err)
    &&& ordered(options, ranks, start, request.state().conns)
    &&& request.concurrency() == options.num_concurrent_reqs
    &&& request.shuffles() == options.shuffle_dns_servers
}

/// Whether this is a counter as `AtomicUsize::new` makes it from 0.
pub open spec fn fresh_counter(counter: AtomicUsize) -> bool {
    call_ensures(AtomicUsize::new, (0usize,), counter)
}

/// Whether `start` is what `AtomicUsize::fetch_add` gave when it moved the counter by `count`.
///
/// That this is what the counter stood at is not said: a counter is shared, and what it stands at
/// is not a part of it that proofs can speak of.
pub open spec fn counter_said(counter: AtomicUsize, count: usize, start: usize) -> bool {
    call_ensures(
        AtomicUsize::fetch_add,
        (&counter, count, std::sync::atomic::Ordering::SeqCst),
        start,
    )
}

/// Whether a request is put to the connections of a pool as the options ask for it and as the
/// counter said when the request moved it. A request that leaves the counter alone does not ask it.
pub open spec fn sends(
    options: ResolverOpts,
    ranks: Seq<u64>,
    counter: AtomicUsize,
    request: ConnLoop,
) -> bool {
    match counter_move(options, ranks.len()) {
        Some(count) => exists|start: usize| #[trigger]
            counter_said(counter, count, start) && starts(options, ranks, start, request),
        None => starts(options, ranks, 0, request),
    }
}

/// Whether the result that came by datagrams is tried to better over streams: a response that was
/// cut, a transport error where the options ask for it, and the want of any connection.
pub open spec fn wants_stream(options: ResolverOpts, udp: Result<Message, ProtoError>) -> bool {
    match udp {
        Ok(response) => response@.header.truncated,
        Err(e) => (options.try_tcp_on_error && e.kind is Io) || e.kind is NoConnections,
    }
}

/// The better of what came by datagrams and over streams.
pub open spec fn better(
    udp: Result<Message, ProtoError>,
    tcp: Result<Message, ProtoError>,
) -> Result<Message, ProtoError> {
    match (udp, tcp) {
        (_, Ok(response)) => Ok(response),
        (Ok(response), Err(_)) => Ok(response),
        (Err(udp_err), Err(tcp_err)) => if specificity(udp_err) > specificity(tcp_err) {
            Err(udp_err)
        } else {
            Err(tcp_err)
        },
    }
}

/// What a request comes to, when `udp` came by datagrams and `tcp` comes over streams.
pub open spec fn send_result(
    options: ResolverOpts,
    has_streams: bool,
    udp: Result<Message, ProtoError>,
    tcp: Result<Message, ProtoError>,
) -> Result<Message, ProtoError> {
    if wants_stream(options, udp) && has_streams {
        better(udp, tcp)
    } else {
        udp
    }
}

/// What to do with the result that came by datagrams.
pub enum AfterDatagram {
    /// It is the result of the request.
    Done(Result<Message, ProtoError>),
    /// Try the streams, and choose by `after_stream`.
    TryStream(Result<Message, ProtoError>),
}

/// `slice::sort_unstable_by_key` by the rank: the pairs are the same ones, and none stands behind
/// one of higher rank. The order among pairs of the same rank is open.
#[verifier::external_body]
fn sort_by_rank(pairs: &mut Vec<(u64, usize)>)
    ensures
        final(pairs)@.to_multiset() == old(pairs)@.to_multiset(),
        forall|i: int, j: int|
            0 <= i <= j < final(pairs)@.len() ==> (#[trigger] final(pairs)@[i]).0 <= (
            #[trigger] final(pairs)@[j]).0,
{
    pairs.sort_unstable_by_key(|pair| pair.0)
}

/// The numbers of the connections, as they were configured.
fn numbers(len: usize) -> (r: Vec<usize>)
    ensures
        r@ == in_order(len as nat),
{
    let mut r: Vec<usize> = Vec::new();
    let mut i: usize = 0;
    while i < len
        invariant
            i <= len,
            r@ == in_order(i as nat),
        decreases len - i,
    {
        r.push(i);
        i += 1;
        assert(r@ =~= in_order(i as nat));
    }
    r
}

/// The numbers of the connections, beginning with `start` counted round.
fn numbers_from(len: usize, start: usize) -> (r: Vec<usize>)
    requires
        len > 0,
    ensures
        r@ == rotated(len as nat, start),
{
    let mut front = numbers(len);
    let mut r = front.split_off(start % len);
    let k = Ghost(start as int % len as int);
    assert(r@ =~= in_order(len as nat).skip(k@));
    assert(front@ =~= in_order(len as nat).take(k@));
    r.append(&mut front);
    r
}

/// A pair of rank and number for each connection.
pub open spec fn ranked(ranks: Seq<u64>) -> Seq<(u64, usize)> {
    Seq::new(ranks.len(), |i: int| (ranks[i], i as usize))
}

/// The numbers of the connections, those of lower rank first.
fn numbers_by_rank(ranks: &Vec<u64>) -> (r: Vec<usize>)
    ensures
        by_rank(ranks@, r@),
{
    let mut pairs: Vec<(u64, usize)> = Vec::new();
    let mut i: usize = 0;
    while i < ranks.len()
        invariant
            i <= ranks.len(),
            pairs@ == ranked(ranks@).take(i as int),
        decreases ranks.len() - i,
    {
        pairs.push((ranks[i], i));
        i += 1;
        assert(pairs@ =~= ranked(ranks@).take(i as int));
    }
    assert(pairs@ =~= ranked(ranks@));
    sort_by_rank(&mut pairs);
    let mut r: Vec<usize> = Vec::new();
    let mut i: usize = 0;
    while i < pairs.len()
        invariant
            i <= pairs.len(),
            r@ == pairs@.take(i as int).map_values(|p: (u64, usize)| p.1),
        decreases pairs.len() - i,
    {
        r.push(pairs[i].1);
        i += 1;
        assert(r@ =~= pairs@.take(i as int).map_values(|p: (u64, usize)| p.1));
    }
    proof {
        assert(pairs@.take(i as int) =~= pairs@);
        lemma_sorted_numbers(ranks@, pairs@);
    }
    r
}

proof fn lemma_map_multiset(a: Seq<(u64, usize)>, b: Seq<(u64, usize)>)
    requires
        a.to_multiset() == b.to_multiset(),
    ensures
        a.map_values(|p: (u64, usize)| p.1).to_multiset() == b.map_values(
            |p: (u64, usize)| p.1,
        ).to_multiset(),
    decreases a.len(),
{
    broadcast use vstd::seq_lib::group_to_multiset_ensures;

    let f = |p: (u64, usize)| p.1;
    assert(a.len() == b.len()) by {
        assert(a.to_multiset().len() == a.len());
        assert(b.to_multiset().len() == b.len());
    }
    if a.len() == 0 {
        assert(a =~= b);
    } else {
        let x = a.last();
        assert(a.contains(x));
        assert(a.to_multiset().count(x) > 0);
        assert(b.contains(x));
        let k = choose|k: int| 0 <= k < b.len() && b[k] == x;
        assert(a.drop_last().push(x) =~= a);
        assert(a.drop_last().to_multiset() =~= a.to_multiset().remove(x));
        assert(b.remove(k).to_multiset() =~= b.to_multiset().remove(x));
        lemma_map_multiset(a.drop_last(), b.remove(k));
        assert(a.map_values(f) =~= a.drop_last().map_values(f).push(f(x)));
        assert(b.map_values(f).remove(k) =~= b.remove(k).map_values(f));
        assert(b.map_values(f)[k] == f(x));
        assert(b.map_values(f).to_multiset() =~= b.map_values(f).remove(k).to_multiset().insert(
            f(x),
        ));
    }
}

proof fn lemma_sorted_numbers(ranks: Seq<u64>, pairs: Seq<(u64, usize)>)
    requires
        ranks.len() <= usize::MAX,
        pairs.to_multiset() == ranked(ranks).to_multiset(),
        forall|i: int, j: int|
            0 <= i <= j < pairs.len() ==> (#[trigger] pairs[i]).0 <= (#[trigger] pairs[j]).0,
    ensures
        by_rank(ranks, pairs.map_values(|p: (u64, usize)| p.1)),
{
    broadcast use vstd::seq_lib::group_to_multiset_ensures;

    let order = pairs.map_values(|p: (u64, usize)| p.1);
    lemma_map_multiset(pairs, ranked(ranks));
    assert(ranked(ranks).map_values(|p: (u64, usize)| p.1) =~= in_order(ranks.len()));
    assert forall|i: int| 0 <= i < pairs.len() implies ranks[(#[trigger] pairs[i]).1 as int]
        == pairs[i].0 by {
        assert(pairs.contains(pairs[i]));
        assert(pairs.to_multiset().count(pairs[i]) > 0);
        assert(ranked(ranks).contains(pairs[i]));
    }
    assert forall|i: int, j: int| 0 <= i <= j < order.len() implies ranks[#[trigger] order[i] as int]
        <= ranks[#[trigger] order[j] as int] by {
        assert(order[i] == pairs[i].1);
        assert(order[j] == pairs[j].1);
    }
}

/// The connections in the order that the options ask for, when the counter of the pool says
/// `start`.
pub fn order_conns(options: &ResolverOpts, ranks: &Vec<u64>, start: usize) -> (r: Vec<usize>)
    ensures
        ordered(*options, ranks@, start, r@),
{
    match options.server_ordering_strategy {
        ServerOrderingStrategy::QueryStatistics => numbers_by_rank(ranks),
        _ => match counter_step(options, ranks.len()) {
            Some(_) => numbers_from(ranks.len(), start),
            None => numbers(ranks.len()),
        },
    }
}

/// The number of connections that a request asks at once.
pub fn step(options: &ResolverOpts) -> (r: usize)
    ensures
        r == width(options.num_concurrent_reqs),
{
    if options.num_concurrent_reqs > 1 {
        options.num_concurrent_reqs
    } else {
        1
    }
}

/// By how much a request to `len` connections moves the counter of a pool: by the connections that
/// it asks at once. None where it leaves the counter alone.
pub fn counter_step(options: &ResolverOpts, len: usize) -> (r: Option<usize>)
    ensures
        r == counter_move(*options, len as nat),
{
    match options.server_ordering_strategy {
        ServerOrderingStrategy::RoundRobin if step(options) < len => Some(step(options)),
        _ => None,
    }
}

/// Puts a request to connections, in the order that the options ask for when the counter of the
/// pool says `start`.
pub fn start_request(options: &ResolverOpts, ranks: &Vec<u64>, start: usize) -> (r: ConnLoop)
    ensures
        starts(*options, ranks@, start, r),
{
    let conns = order_conns(options, ranks, start);
    ConnLoop::new(conns, options.num_concurrent_reqs, options.shuffle_dns_servers)
}

/// A pool of name servers. `P` provides connections, `C` is the configuration of a TLS client.
///
/// Clones of a pool share its servers and its counters.
pub struct NameServerPool<P, C> {
    datagram_conns: Arc<Vec<NameServer<P, C>>>,
    stream_conns: Arc<Vec<NameServer<P, C>>>,
    options: ResolverOpts,
    datagram_index: Arc<AtomicUsize>,
    stream_index: Arc<AtomicUsize>,
}

impl<P, C> NameServerPool<P, C> {
    /// The servers that are reached by datagrams.
    pub closed spec fn datagram(&self) -> Seq<NameServer<P, C>> {
        self.datagram_conns@
    }

    /// The servers that are reached over streams.
    pub closed spec fn stream(&self) -> Seq<NameServer<P, C>> {
        self.stream_conns@
    }

    /// The options of the pool.
    pub closed spec fn opts(&self) -> ResolverOpts {
        self.options
    }

    /// The counters by which requests are spread over the servers: the first over those that are
    /// reached by datagrams, the second over those that are reached over streams.
    pub closed spec fn counters(&self) -> (Arc<AtomicUsize>, Arc<AtomicUsize>) {
        (self.datagram_index, self.stream_index)
    }

    /// A pool of these servers.
    pub fn from_nameservers(
        options: ResolverOpts,
        datagram_conns: Vec<NameServer<P, C>>,
        stream_conns: Vec<NameServer<P, C>>,
    ) -> (r: NameServerPool<P, C>)
        ensures
            r.datagram() == datagram_conns@,
            r.stream() == stream_conns@,
            r.opts() == options,
            fresh_counter(*r.counters().0),
            fresh_counter(*r.counters().1),
    {
        Self::from_shared(options, Arc::new(datagram_conns), Arc::new(stream_conns))
    }

    /// A pool of servers that others hold as well.
    pub fn from_shared(
        options: ResolverOpts,
        datagram_conns: Arc<Vec<NameServer<P, C>>>,
        stream_conns: Arc<Vec<NameServer<P, C>>>,
    ) -> (r: NameServerPool<P, C>)
        ensures
            r.datagram() == datagram_conns@,
            r.stream() == stream_conns@,
            r.opts() == options,
            fresh_counter(*r.counters().0),
            fresh_counter(*r.counters().1),
    {
        NameServerPool {
            datagram_conns,
            stream_conns,
            options,
            datagram_index: Arc::new(AtomicUsize::new(0)),
            stream_index: Arc::new(AtomicUsize::new(0)),
        }
    }

    /// The servers that are reached by datagrams.
    pub fn datagram_conns(&self) -> (r: &Vec<NameServer<P, C>>)
        ensures
            r@ == self.datagram(),
    {
        &self.datagram_conns
    }

    /// The servers that are reached over streams.
    pub fn stream_conns(&self) -> (r: &Vec<NameServer<P, C>>)
        ensures
            r@ == self.stream(),
    {
        &self.stream_conns
    }

    /// Puts a request to connections, in the order that the options ask for. The counter moves by
    /// `counter_step`, and the request begins where it stood.
    fn try_send(options: &ResolverOpts, ranks: &Vec<u64>, next_index: &AtomicUsize) -> (r: ConnLoop)
        ensures
            sends(*options, ranks@, *next_index, r),
    {
        let start: usize = match counter_step(options, ranks.len()) {
            Some(count) => {
                let start: usize = next_index.fetch_add(
                    count,
                    std::sync::atomic::Ordering::SeqCst,
                );
                assert(counter_said(*next_index, count, start));
                start
            },
            None => 0,
        };
        start_request(options, ranks, start)
    }

    /// Puts a request to the servers that are reached by datagrams. `ranks` says of each how well
    /// it answered so far, the best with the lowest number.
    pub fn send_datagram(&self, ranks: &Vec<u64>) -> (r: ConnLoop)
        requires
            ranks.len() == self.datagram().len(),
        ensures
            sends(self.opts(), ranks@, *self.counters().0, r),
    {
        Self::try_send(&self.options, ranks, &self.datagram_index)
    }

    /// Puts a request to the servers that are reached over streams. `ranks` says of each how well
    /// it answered so far, the best with the lowest number.
    pub fn send_stream(&self, ranks: &Vec<u64>) -> (r: ConnLoop)
        requires
            ranks.len() == self.stream().len(),
        ensures
            sends(self.opts(), ranks@, *self.counters().1, r),
    {
        Self::try_send(&self.options, ranks, &self.stream_index)
    }

    /// What to do with the result that came by datagrams.
    pub fn after_datagram(&self, udp: Result<Message, ProtoError>) -> (r: AfterDatagram)
        ensures
            r == if wants_stream(self.opts(), udp) && self.stream().len() > 0 {
                AfterDatagram::TryStream(udp)
            } else {
                AfterDatagram::Done(udp)
            },
    {
        let wanted = match &udp {
            Ok(response) => response.truncated(),
            Err(e) => (self.options.try_tcp_on_error && e.is_io()) || e.is_no_connections(),
        };
        if wanted && self.stream_conns.len() > 0 {
            AfterDatagram::TryStream(udp)
        } else {
            AfterDatagram::Done(udp)
        }
    }
}

/// The better of what came by datagrams and what came over streams: a response rather than an
/// error, that of the stream rather than the one that was cut, and of two errors the one that tells
/// more.
pub fn after_stream(udp: Result<Message, ProtoError>, tcp: Result<Message, ProtoError>) -> (r: Result<
    Message,
    ProtoError,
>)
    ensures
        r == better(udp, tcp),
{
    let tcp_err = match tcp {
        Ok(response) => {
            return Ok(response);
        },
        Err(e) => e,
    };
    let udp_err = match udp {
        Ok(response) => {
            return Ok(response);
        },
        Err(e) => e,
    };
    match udp_err.cmp_specificity(&tcp_err) {
        std::cmp::Ordering::Greater => Err(udp_err),
        _ => Err(tcp_err),
    }
}

impl<P: Clone, C> NameServerPool<P, C> {
    /// A pool for the name servers of a resolver. All servers get the configuration of the TLS
    /// client that the resolver has, or none where it has none.
    pub fn from_config_with_provider(
        config: &ResolverConfig<C>,
        options: ResolverOpts,
        conn_provider: P,
    ) -> (r: NameServerPool<P, C>)
        ensures
            built(
                r.datagram(),
                with_client(datagram_configs(config.group.servers@), config.group.client_config),
                options,
                conn_provider,
            ),
            built(
                r.stream(),
                with_client(stream_configs(config.group.servers@), config.group.client_config),
                options,
                conn_provider,
            ),
            r.opts() == options,
            fresh_counter(*r.counters().0),
            fresh_counter(*r.counters().1),
    {
        let configs = config.name_servers();
        let client = config.client_config();
        let mut datagram: Vec<NameServer<P, C>> = Vec::new();
        let mut stream: Vec<NameServer<P, C>> = Vec::new();
        let mut i: usize = 0;
        assert(configs@.take(0) =~= Seq::<NameServerConfig<C>>::empty());
        while i < configs.len()
            invariant
                i <= configs.len(),
                built(
                    datagram@,
                    with_client(datagram_configs(configs@.take(i as int)), *client),
                    options,
                    conn_provider,
                ),
                built(
                    stream@,
                    with_client(stream_configs(configs@.take(i as int)), *client),
                    options,
                    conn_provider,
                ),
            decreases configs.len() - i,
        {
            proof {
                lemma_split_push(configs@.take(i as int), configs@[i as int]);
                assert(configs@.take(i as int).push(configs@[i as int]) =~= configs@.take(i + 1));
            }
            let server = NameServer::new(
                configs[i].with_tls_config(client),
                options,
                conn_provider.clone(),
            );
            if configs[i].protocol.is_datagram() {
                datagram.push(server);
            } else {
                stream.push(server);
            }
            i += 1;
        }
        assert(configs@.take(i as int) =~= configs@);
        Self::from_nameservers(options, datagram, stream)
    }

    /// A pool for a group of name servers.
    pub fn from_config(
        name_servers: NameServerConfigGroup<C>,
        options: ResolverOpts,
        conn_provider: P,
    ) -> (r: NameServerPool<P, C>)
        ensures
            built(r.datagram(), datagram_configs(name_servers.servers@), options, conn_provider),
            built(r.stream(), stream_configs(name_servers.servers@), options, conn_provider),
            r.opts() == options,
            fresh_counter(*r.counters().0),
            fresh_counter(*r.counters().1),
    {
        let mut datagram: Vec<NameServer<P, C>> = Vec::new();
        let mut stream: Vec<NameServer<P, C>> = Vec::new();
        let ghost configs = name_servers.servers@;
        assert(configs.take(0) =~= Seq::<NameServerConfig<C>>::empty());
        for config in iter: name_servers.into_inner()
            invariant
                configs == name_servers.servers@,
                iter.seq() == configs,
                built(
                    datagram@,
                    datagram_configs(configs.take(iter.index() as int)),
                    options,
                    conn_provider,
                ),
                built(
                    stream@,
                    stream_configs(configs.take(iter.index() as int)),
                    options,
                    conn_provider,
                ),
        {
            proof {
                let i = iter.index() as int;
                lemma_split_push(configs.take(i), configs[i]);
                assert(configs.take(i).push(configs[i]) =~= configs.take(i + 1));
            }
            let is_datagram = config.protocol.is_datagram();
            let server = NameServer::new(config, options, conn_provider.clone());
            if is_datagram {
                datagram.push(server);
            } else {
                stream.push(server);
            }
        }
        assert(configs.take(configs.len() as int) =~= configs);
        Self::from_nameservers(options, datagram, stream)
    }
}

impl<P, C> Clone for NameServerPool<P, C> {
    fn clone(&self) -> (r: NameServerPool<P, C>)
        ensures
            r.datagram() == self.datagram(),
            r.stream() == self.stream(),
            r.opts() == self.opts(),
            r.counters() == self.counters(),
    {
        NameServerPool {
            datagram_conns: self.datagram_conns.clone(),
            stream_conns: self.stream_conns.clone(),
            options: self.options,
            datagram_index: self.datagram_index.clone(),
            stream_index: self.stream_index.clone(),
        }
    }
}

/// One server more is one more of either those reached by datagrams or those reached over streams.
proof fn lemma_split_push<C>(configs: Seq<NameServerConfig<C>>, config: NameServerConfig<C>)
    ensures
        datagram_configs(configs.push(config)) == if datagram_protocol(config.protocol) {
            datagram_configs(configs).push(config)
        } else {
            datagram_configs(configs)
        },
        stream_configs(configs.push(config)) == if datagram_protocol(config.protocol) {
            stream_configs(configs)
        } else {
            stream_configs(configs).push(config)
        },
{
    reveal(Seq::filter);
    assert(configs.push(config).drop_last() =~= configs);
}

/// Either a query that goes to the local network, whose replies come from `S`, or a request for the
/// name servers.
pub enum Local<S> {
    ResolveStream(S),
    NotMdns(Message),
}

impl<S> Local<S> {
    /// Whether the query goes to the local network.
    pub fn is_local(&self) -> (r: bool)
        ensures
            r == (self is ResolveStream),
    {
        matches!(self, Local::ResolveStream(_))
    }

    /// The replies from the local network.
    pub fn take_stream(self) -> (r: S)
        requires
            self is ResolveStream,
        ensures
            self == Local::ResolveStream(r),
    {
        match self {
            Local::ResolveStream(stream) => stream,
            Local::NotMdns(_) => vstd::pervasive::unreached(),
        }
    }

    /// The request for the name servers.
    pub fn take_request(self) -> (r: Message)
        requires
            self is NotMdns,
        ensures
            self == Local::<S>::NotMdns(r),
    {
        match self {
            Local::NotMdns(request) => request,
            Local::ResolveStream(_) => vstd::pervasive::unreached(),
        }
    }
}

} // verus!
