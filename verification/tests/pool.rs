//! The pool and the way a request takes through its connections.

use std::sync::Arc;

use dns_pool::config::{
    IpAddress, NameServerConfig, NameServerConfigGroup, Protocol, ResolverConfig, ResolverOpts,
    ServerOrderingStrategy, SocketAddress,
};
use dns_pool::conn_loop::{ConnLoop, Progress, Round};
use dns_pool::error::{IoErrorKind, ProtoError, ProtoErrorKind};
use dns_pool::lookups::data;
use dns_pool::message::{Message, Query};
use dns_pool::name::Name;
use dns_pool::name_server::NameServer;
use dns_pool::pool::{
    after_stream, counter_step, order_conns, start_request, step, AfterDatagram, Local,
    NameServerPool,
};
use dns_pool::pool_send::{PoolSend, SendStep};
use dns_pool::record::{RData, Record, RecordType};

fn response() -> Message {
    let mut message = Message::new();
    message.add_query(Query::query(Name::root(), RecordType::A));
    message.add_answer(Record::from_rdata(Name::root(), 86400, RData::a(127, 0, 0, 1)));
    message
}

fn error(kind: ProtoErrorKind) -> ProtoError {
    ProtoError::new(kind)
}

fn denial(trusted: bool) -> ProtoError {
    error(ProtoErrorKind::NoRecordsFound { trusted, soa: None, ns: None })
}

/// Runs a request over connections that reply what is given for each, from the end of its list.
/// Gives the result and the milliseconds that were spent in pauses.
fn run(
    mut request: ConnLoop,
    mut replies: Vec<Vec<Result<Message, ProtoError>>>,
) -> (Result<Message, ProtoError>, u64) {
    let mut paused = 0;
    loop {
        match request.next_round() {
            Round::GiveUp(e) => return (Err(e), paused),
            Round::Wait(next, pause) => {
                paused += pause;
                request = next;
            }
            Round::Query(next, conns) => {
                request = next;
                for conn in conns {
                    let reply = replies[conn].pop().unwrap();
                    match request.on_reply(conn, reply) {
                        Progress::Done(result) => return (result, paused),
                        Progress::Going(next) => request = next,
                    }
                }
            }
        }
    }
}

#[test]
fn test_parallel_busy_connection_is_retried() {
    let expected = response();
    let replies = vec![vec![Ok(expected.clone()), Err(error(ProtoErrorKind::Busy))]];
    let options = ResolverOpts::default();
    let request =
        ConnLoop::new(vec![0], options.num_concurrent_reqs, options.shuffle_dns_servers);
    let (result, paused) = run(request, replies);
    assert_eq!(result.unwrap().answers, expected.answers);
    assert_eq!(paused, 20);
}

#[test]
fn test_parallel_failed_connection_preserves_fallback() {
    let expected = response();
    let replies =
        vec![vec![Err(error(ProtoErrorKind::Timeout))], vec![Ok(expected.clone())]];
    let (result, paused) = run(ConnLoop::new(vec![0, 1], 1, false), replies);
    assert_eq!(result.unwrap().answers, expected.answers);
    assert_eq!(paused, 0);
}

#[test]
fn test_parallel_busy_backoff_remains_bounded() {
    let replies = vec![(0..5).map(|_| Err(error(ProtoErrorKind::Busy))).collect()];
    let options = ResolverOpts::default();
    let request =
        ConnLoop::new(vec![0], options.num_concurrent_reqs, options.shuffle_dns_servers);
    let (result, paused) = run(request, replies);
    assert!(result.unwrap_err().is_no_connections());
    assert_eq!(paused, 300);
}

#[test]
fn busy_connections_come_back_in_order() {
    let busy = || Err(error(ProtoErrorKind::Busy));
    let request = match ConnLoop::new(vec![3, 1, 2], 2, false).next_round() {
        Round::Query(next, conns) => {
            assert_eq!(conns, vec![3, 1]);
            next
        }
        _ => panic!("connections are left"),
    };
    let request = match request.on_reply(1, busy()) {
        Progress::Going(next) => next,
        _ => panic!("a busy connection is no answer"),
    };
    let request = match request.on_reply(3, busy()) {
        Progress::Going(next) => next,
        _ => panic!("a busy connection is no answer"),
    };
    let request = match request.next_round() {
        Round::Query(next, conns) => {
            assert_eq!(conns, vec![2]);
            next
        }
        _ => panic!("a connection is left"),
    };
    let request = match request.on_reply(2, Err(error(ProtoErrorKind::Timeout))) {
        Progress::Going(next) => next,
        _ => panic!("a timeout is no answer"),
    };
    let request = match request.next_round() {
        Round::Wait(next, pause) => {
            assert_eq!(pause, 20);
            next
        }
        _ => panic!("only busy connections are left"),
    };
    match request.next_round() {
        Round::Query(_, conns) => assert_eq!(conns, vec![1, 3]),
        _ => panic!("the busy connections are tried again"),
    }
}

#[test]
fn every_connection_is_asked_before_giving_up() {
    // Four fail, one stays busy: each of the four is asked once, the busy one five times.
    let mut request = ConnLoop::new(vec![0, 1, 2, 3, 4], 2, true);
    let mut asked = [0; 5];
    let error = loop {
        match request.next_round() {
            Round::GiveUp(error) => break error,
            Round::Wait(next, _) => request = next,
            Round::Query(next, conns) => {
                request = next;
                for conn in conns {
                    asked[conn] += 1;
                    let kind =
                        if conn == 2 { ProtoErrorKind::Busy } else { ProtoErrorKind::Timeout };
                    match request.on_reply(conn, Err(error(kind))) {
                        Progress::Going(next) => request = next,
                        Progress::Done(_) => panic!("an error is no answer"),
                    }
                }
            }
        }
    };
    assert_eq!(error, ProtoError::new(ProtoErrorKind::Timeout));
    assert_eq!(asked, [1, 1, 5, 1, 1]);
}

#[test]
fn no_connections_no_answer() {
    let (result, paused) = run(ConnLoop::new(vec![], 2, false), vec![]);
    assert!(result.unwrap_err().is_no_connections());
    assert_eq!(paused, 0);
}

#[test]
fn at_least_one_connection_is_asked() {
    match ConnLoop::new(vec![5, 6], 0, false).next_round() {
        Round::Query(_, conns) => assert_eq!(conns, vec![5]),
        _ => panic!("connections are left"),
    }
}

#[test]
fn a_settled_denial_ends_the_request() {
    let replies = vec![vec![Err(denial(true))], vec![Ok(response())]];
    let (result, _) = run(ConnLoop::new(vec![0, 1], 1, false), replies);
    assert_eq!(result.unwrap_err(), denial(true));
    let soa = ProtoErrorKind::NoRecordsFound {
        trusted: false,
        soa: Some(Record::from_rdata(Name::root(), 1, RData::Ns(Name::root()))),
        ns: None,
    };
    let replies = vec![vec![Err(error(soa))], vec![Ok(response())]];
    let (result, _) = run(ConnLoop::new(vec![0, 1], 1, false), replies);
    assert!(result.unwrap_err().is_settled());
}

#[test]
fn an_open_denial_does_not_end_the_request() {
    let replies = vec![vec![Err(denial(false))], vec![Ok(response())]];
    let (result, _) = run(ConnLoop::new(vec![0, 1], 1, false), replies);
    assert_eq!(result.unwrap(), response());
}

#[test]
fn the_error_that_tells_the_most_is_kept() {
    let io = || error(ProtoErrorKind::Io(IoErrorKind::Other));
    let timeout = || error(ProtoErrorKind::Timeout);
    let replies = vec![vec![Err(timeout())], vec![Err(denial(false))], vec![Err(io())]];
    let (result, _) = run(ConnLoop::new(vec![0, 1, 2], 1, false), replies);
    assert_eq!(result.unwrap_err(), denial(false));
    let replies = vec![vec![Err(io())], vec![Err(timeout())]];
    let (result, _) = run(ConnLoop::new(vec![0, 1], 1, false), replies);
    assert_eq!(result.unwrap_err(), io());
    // The first error replaces the want of connections, whatever it tells.
    let said = || error(ProtoErrorKind::Message(String::from("said")));
    let replies = vec![vec![Err(said())]];
    let (result, _) = run(ConnLoop::new(vec![0], 1, false), replies);
    assert_eq!(result.unwrap_err(), said());
}

#[test]
fn drawn_connections_leave_the_last_in_their_place() {
    match ConnLoop::new(vec![10, 11, 12, 13], 2, true).next_round_drawn(&vec![0, 0]) {
        Round::Query(next, conns) => {
            assert_eq!(conns, vec![10, 13]);
            match next.next_round_drawn(&vec![1, 0]) {
                Round::Query(_, conns) => assert_eq!(conns, vec![11, 12]),
                _ => panic!("connections are left"),
            }
        }
        _ => panic!("connections are left"),
    }
}

#[test]
fn shuffled_connections_are_all_asked_once() {
    let all: Vec<usize> = (0..40).collect();
    let mut orders: Vec<Vec<usize>> = Vec::new();
    for _ in 0..5 {
        let mut request = ConnLoop::new(all.clone(), 3, true);
        let mut asked: Vec<usize> = Vec::new();
        loop {
            match request.next_round() {
                Round::Query(next, conns) => {
                    asked.extend(conns);
                    request = next;
                }
                _ => break,
            }
        }
        orders.push(asked.clone());
        asked.sort();
        assert_eq!(asked, all);
    }
    // Forty connections do not come in one order five times by chance.
    assert!(orders.iter().any(|order| *order != orders[0]));
}

fn address(last: u32) -> SocketAddress {
    SocketAddress { ip: IpAddress::V4(0x7f00_0000 + last), port: 53 }
}

fn servers() -> Vec<NameServerConfig<u8>> {
    [Protocol::Udp, Protocol::Tcp, Protocol::Quic, Protocol::Tls, Protocol::H3, Protocol::Https]
        .iter()
        .enumerate()
        .map(|(i, protocol)| NameServerConfig::new(address(i as u32), *protocol))
        .collect()
}

fn protocols(conns: &[NameServer<&str, u8>]) -> Vec<Protocol> {
    conns.iter().map(|conn| conn.config.protocol).collect()
}

#[test]
fn a_group_is_split_by_protocol() {
    let group = NameServerConfigGroup { servers: servers(), client_config: None };
    let pool = NameServerPool::from_config(group, ResolverOpts::default(), "provider");
    assert_eq!(
        protocols(pool.datagram_conns()),
        vec![Protocol::Udp, Protocol::Quic, Protocol::H3]
    );
    assert_eq!(protocols(pool.stream_conns()), vec![Protocol::Tcp, Protocol::Tls, Protocol::Https]);
    assert_eq!(pool.stream_conns()[1].config.socket_addr, address(3));
    assert_eq!(pool.stream_conns()[1].conn_provider, "provider");
}

#[test]
fn all_servers_get_the_client_of_the_resolver() {
    let group = NameServerConfigGroup { servers: servers(), client_config: None };
    let mut config = ResolverConfig::from_parts(None, vec![], group);
    config.group.servers[0].tls_config = Some(Arc::new(1));
    config.set_tls_client_config(Arc::new(7));
    let pool =
        NameServerPool::from_config_with_provider(&config, ResolverOpts::default(), "provider");
    assert_eq!(pool.datagram_conns().len(), 3);
    assert_eq!(pool.stream_conns().len(), 3);
    for conn in pool.datagram_conns().iter().chain(pool.stream_conns()) {
        assert_eq!(conn.config.tls_config, Some(Arc::new(7)));
        assert_eq!(conn.options, ResolverOpts::default());
    }
    // Where the resolver has no client, the servers lose theirs.
    config.group.client_config = None;
    let pool =
        NameServerPool::from_config_with_provider(&config, ResolverOpts::default(), "provider");
    assert_eq!(pool.datagram_conns()[0].config.tls_config, None);
}

fn pool(datagrams: usize, streams: usize, options: ResolverOpts) -> NameServerPool<(), u8> {
    let conns = |count: usize, protocol: Protocol| -> Vec<NameServer<(), u8>> {
        (0..count)
            .map(|i| NameServer::new(NameServerConfig::new(address(i as u32), protocol), options, ()))
            .collect()
    };
    NameServerPool::from_nameservers(
        options,
        conns(datagrams, Protocol::Udp),
        conns(streams, Protocol::Tcp),
    )
}

fn first_round(request: ConnLoop) -> Vec<usize> {
    match request.next_round() {
        Round::Query(_, conns) => conns,
        _ => panic!("connections are left"),
    }
}

#[test]
fn round_robin_goes_on_where_it_left_off() {
    let mut options = ResolverOpts::default();
    options.server_ordering_strategy = ServerOrderingStrategy::RoundRobin;
    options.num_concurrent_reqs = 2;
    let pool = pool(5, 3, options);
    let ranks = vec![0; 5];
    assert_eq!(first_round(pool.send_datagram(&ranks)), vec![0, 1]);
    assert_eq!(first_round(pool.clone().send_datagram(&ranks)), vec![2, 3]);
    assert_eq!(first_round(pool.send_datagram(&ranks)), vec![4, 0]);
    // Streams are counted on their own.
    assert_eq!(first_round(pool.send_stream(&vec![0; 3])), vec![0, 1]);
}

#[test]
fn round_robin_gives_each_connection_its_turn() {
    let mut options = ResolverOpts::default();
    options.server_ordering_strategy = ServerOrderingStrategy::RoundRobin;
    options.num_concurrent_reqs = 1;
    let pool = pool(3, 2, options);
    let shared = pool.clone();
    for i in 0..9 {
        let from = if i % 2 == 0 { &pool } else { &shared };
        assert_eq!(first_round(from.send_datagram(&vec![0; 3])), vec![i % 3]);
    }
    // None at once counts as one at once.
    options.num_concurrent_reqs = 0;
    for i in 0..7 {
        assert_eq!(first_round(start_request(&options, &vec![0; 3], i)), vec![i % 3]);
    }
}

#[test]
fn counters_move_by_the_connections_that_are_asked_at_once() {
    let mut options = ResolverOpts::default();
    options.num_concurrent_reqs = 2;
    assert_eq!(counter_step(&options, 5), None);
    options.server_ordering_strategy = ServerOrderingStrategy::UserProvidedOrder;
    assert_eq!(counter_step(&options, 5), None);
    options.server_ordering_strategy = ServerOrderingStrategy::RoundRobin;
    assert_eq!(counter_step(&options, 5), Some(2));
    assert_eq!(counter_step(&options, 3), Some(2));
    assert_eq!(counter_step(&options, 2), None);
    assert_eq!(counter_step(&options, 0), None);
    options.num_concurrent_reqs = 0;
    assert_eq!(counter_step(&options, 2), Some(1));
    assert_eq!(counter_step(&options, 1), None);
}

#[test]
fn requests_begin_where_the_counter_says() {
    let mut options = ResolverOpts::default();
    options.server_ordering_strategy = ServerOrderingStrategy::RoundRobin;
    options.num_concurrent_reqs = 2;
    assert_eq!(first_round(start_request(&options, &vec![0; 5], 4)), vec![4, 0]);
    assert_eq!(first_round(start_request(&options, &vec![0; 5], 8)), vec![3, 4]);
    assert_eq!(first_round(start_request(&options, &vec![0; 2], 1)), vec![0, 1]);
}

#[test]
fn connections_are_ordered_as_the_options_ask() {
    let mut options = ResolverOpts::default();
    assert_eq!(order_conns(&options, &vec![30, 10, 20], 1), vec![1, 2, 0]);
    options.server_ordering_strategy = ServerOrderingStrategy::UserProvidedOrder;
    assert_eq!(order_conns(&options, &vec![30, 10, 20], 1), vec![0, 1, 2]);
    options.server_ordering_strategy = ServerOrderingStrategy::RoundRobin;
    assert_eq!(order_conns(&options, &vec![30, 10, 20], 7), vec![1, 2, 0]);
    options.num_concurrent_reqs = 3;
    assert_eq!(order_conns(&options, &vec![30, 10, 20], 7), vec![0, 1, 2]);
    assert_eq!(step(&options), 3);
    options.num_concurrent_reqs = 0;
    assert_eq!(step(&options), 1);
}

#[test]
fn ranks_decide_which_connections_come_first() {
    let pool = pool(4, 0, ResolverOpts::default());
    assert_eq!(first_round(pool.send_datagram(&vec![9, 1, 8, 2])), vec![1, 3]);
}

#[test]
fn complete_responses_stand() {
    let pool = pool(1, 1, ResolverOpts::default());
    match pool.after_datagram(Ok(response())) {
        AfterDatagram::Done(Ok(message)) => assert_eq!(message, response()),
        _ => panic!("a complete response is the result"),
    }
}

#[test]
fn cut_responses_are_tried_over_streams() {
    let mut cut = response();
    cut.header.truncated = true;
    let with_streams = pool(1, 1, ResolverOpts::default());
    let udp = match with_streams.after_datagram(Ok(cut.clone())) {
        AfterDatagram::TryStream(udp) => udp,
        _ => panic!("a cut response is tried over streams"),
    };
    assert_eq!(after_stream(udp, Ok(response())), Ok(response()));
    // The cut response is better than no response.
    let timeout = Err(error(ProtoErrorKind::Timeout));
    assert_eq!(after_stream(Ok(cut.clone()), timeout), Ok(cut.clone()));
    let without = pool(1, 0, ResolverOpts::default());
    assert!(matches!(without.after_datagram(Ok(cut)), AfterDatagram::Done(Ok(_))));
}

#[test]
fn errors_are_tried_over_streams_where_asked() {
    let io = || Err(error(ProtoErrorKind::Io(IoErrorKind::Other)));
    let mut options = ResolverOpts::default();
    assert!(matches!(pool(1, 1, options).after_datagram(io()), AfterDatagram::Done(Err(_))));
    options.try_tcp_on_error = true;
    assert!(matches!(pool(1, 1, options).after_datagram(io()), AfterDatagram::TryStream(Err(_))));
    let timeout = Err(error(ProtoErrorKind::Timeout));
    assert!(matches!(pool(1, 1, options).after_datagram(timeout), AfterDatagram::Done(Err(_))));
    let none = Err(error(ProtoErrorKind::NoConnections));
    options.try_tcp_on_error = false;
    assert!(matches!(pool(0, 1, options).after_datagram(none), AfterDatagram::TryStream(Err(_))));
}

#[test]
fn of_two_errors_the_one_that_tells_more_is_the_result() {
    let io = || error(ProtoErrorKind::Io(IoErrorKind::Other));
    let none = || error(ProtoErrorKind::NoConnections);
    assert_eq!(after_stream(Err(io()), Err(none())), Err(io()));
    assert_eq!(after_stream(Err(none()), Err(io())), Err(io()));
    // Where both tell the same, that of the stream counts.
    let refused = || error(ProtoErrorKind::Io(IoErrorKind::ConnectionRefused));
    assert_eq!(after_stream(Err(io()), Err(refused())), Err(refused()));
}

/// What a connection replies: the flag tells whether it is a stream.
type Replies<'a> = &'a dyn Fn(bool, usize) -> Result<Message, ProtoError>;

fn ask_all(
    pool: &NameServerPool<(), u8>,
    mut request: PoolSend,
    conns: Vec<usize>,
    replies: Replies,
    asked: &mut Vec<(bool, usize)>,
) -> SendStep {
    let stream = request.over_streams();
    for conn in conns {
        asked.push((stream, conn));
        match pool.on_reply(request, conn, replies(stream, conn)) {
            SendStep::Going(next) => request = next,
            other => return other,
        }
    }
    SendStep::Going(request)
}

/// Runs a request through a pool. Gives the result, and the connections in the order in which they
/// were asked.
fn run_pool(
    pool: &NameServerPool<(), u8>,
    replies: Replies,
) -> (Result<Message, ProtoError>, Vec<(bool, usize)>) {
    let mut asked = Vec::new();
    let mut step = SendStep::Going(pool.send(&vec![0; pool.datagram_conns().len()]));
    loop {
        step = match step {
            SendStep::Going(next) => pool.next_step(next),
            SendStep::Ask(next, conns) => ask_all(pool, next, conns, replies, &mut asked),
            SendStep::Pause(next, _) => SendStep::Going(next),
            SendStep::TryStreams(udp) => {
                let ranks = vec![0; pool.stream_conns().len()];
                SendStep::Going(pool.send_over_streams(udp, &ranks))
            }
            SendStep::Done(result) => return (result, asked),
        };
    }
}

fn in_order() -> ResolverOpts {
    let mut options = ResolverOpts::default();
    options.server_ordering_strategy = ServerOrderingStrategy::UserProvidedOrder;
    options
}

#[test]
fn a_request_ends_with_the_first_answer() {
    let pool = pool(3, 1, in_order());
    let (result, asked) = run_pool(&pool, &|_, conn| match conn {
        2 => Ok(response()),
        _ => Err(error(ProtoErrorKind::Timeout)),
    });
    assert_eq!(result, Ok(response()));
    assert_eq!(asked, vec![(false, 0), (false, 1), (false, 2)]);
}

#[test]
fn a_request_goes_over_to_streams() {
    let mut cut = response();
    cut.header.truncated = true;
    let both = pool(1, 2, in_order());
    let (result, asked) = run_pool(&both, &|stream, conn| match (stream, conn) {
        (false, _) => Ok(cut.clone()),
        (true, 0) => Err(error(ProtoErrorKind::Timeout)),
        (true, _) => Ok(response()),
    });
    assert_eq!(result, Ok(response()));
    assert_eq!(asked, vec![(false, 0), (true, 0), (true, 1)]);
    // Without an answer from there, the one that was cut is the result.
    let (result, _) = run_pool(&both, &|stream, _| match stream {
        false => Ok(cut.clone()),
        true => Err(error(ProtoErrorKind::Timeout)),
    });
    assert_eq!(result, Ok(cut));
    // Without any server for datagrams, streams are all there is.
    let (result, asked) = run_pool(&pool(0, 1, in_order()), &|_, _| Ok(response()));
    assert_eq!(result, Ok(response()));
    assert_eq!(asked, vec![(true, 0)]);
    let (result, asked) = run_pool(&pool(0, 0, in_order()), &|_, _| Ok(response()));
    assert!(result.unwrap_err().is_no_connections());
    assert!(asked.is_empty());
}

#[test]
fn a_request_ends_with_the_error_that_tells_more() {
    let mut options = in_order();
    options.try_tcp_on_error = true;
    let io = || error(ProtoErrorKind::Io(IoErrorKind::Other));
    let timeout = || error(ProtoErrorKind::Timeout);
    let (result, asked) = run_pool(&pool(1, 1, options), &|stream, _| match stream {
        false => Err(io()),
        true => Err(timeout()),
    });
    assert_eq!(result, Err(io()));
    assert_eq!(asked, vec![(false, 0), (true, 0)]);
    let (result, asked) = run_pool(&pool(1, 1, options), &|_, _| Err(timeout()));
    assert_eq!(result, Err(timeout()));
    assert_eq!(asked, vec![(false, 0)]);
}

#[test]
fn shared_servers_are_the_same_servers() {
    let options = ResolverOpts::default();
    let streams = Arc::new(vec![NameServer::<(), u8>::new(
        NameServerConfig::new(address(1), Protocol::Tcp),
        options,
        (),
    )]);
    let pool = NameServerPool::from_shared(options, Arc::new(vec![]), streams.clone());
    assert!(pool.datagram_conns().is_empty());
    assert!(std::ptr::eq(&pool.stream_conns()[0], &streams[0]));
}

#[test]
fn local_queries_do_not_go_to_name_servers() {
    let local: Local<u8> = Local::ResolveStream(5);
    assert!(local.is_local());
    assert_eq!(local.take_stream(), 5);
    let other: Local<u8> = Local::NotMdns(response());
    assert!(!other.is_local());
    assert_eq!(other.take_request(), response());
}

#[test]
fn the_answer_data_has_its_type() {
    assert_eq!(data(0).record_type(), RecordType::A);
    assert_eq!(data(3).record_type(), RecordType::AAAA);
}
