//! The local servers: what they answer, and over which transports.

use std::sync::Arc;

use dns_pool::body::{to_send, Body};
use dns_pool::config::{
    IpAddress, LookupIpStrategy, NameServerConfig, Protocol, ResolveHosts, ResolverOpts,
    SocketAddress,
};
use dns_pool::encrypted::options;
use dns_pool::http_serving::{
    answer_request, check_http, dns_media_type, dns_query_path, HttpFault, HttpsServing,
};
use dns_pool::local_dns::{assert_queries, LocalDns, Received, Turn, Worker, WorkerFault};
use dns_pool::local_names::{com_name, example_com_name, example_name, www_example_name, www_name};
use dns_pool::lookups::{query, LookupCheck, Serving, COUNT};
use dns_pool::message::{Message, MessageType, Query};
use dns_pool::name::Name;
use dns_pool::record::{RData, RecordType};
use dns_pool::replies::{echo, RequestFault};
use dns_pool::streams::{
    new_h3_stream, new_h3_stream_with_future, new_https_stream, new_https_stream_with_future,
    new_quic_stream, new_quic_stream_with_future, Transport,
};
use dns_pool::tls_exchange::{frame, unframe, ExchangeFault, TlsServing, Want};
use dns_pool::wire_fixture::{answer, check_request, reply};

const NAME: &str = "www.example.com.";

fn name(text: &str) -> Name {
    Name::from_ascii(text).unwrap()
}

fn ipv4() -> RData {
    RData::a(93, 184, 215, 14)
}

fn ipv6() -> RData {
    RData::aaaa(0x2606, 0x2800, 0x21f, 0xcb07, 0x6820, 0x80da, 0xaf6b, 0x8b2c)
}

fn request(id: u16, text: &str, query_type: RecordType) -> Message {
    let mut m = Message::new();
    m.header.id = id;
    m.header.recursion_desired = true;
    m.add_query(Query::query(name(text), query_type));
    m
}

fn bytes(message: &Message) -> Vec<u8> {
    message.to_vec().unwrap()
}

#[test]
fn local_names_are_spelled_as_they_are_called() {
    assert!(www_name().eq_case(&name(NAME)));
    assert!(example_com_name().eq_case(&name("example.com.")));
    assert!(com_name().eq_case(&name("com.")));
    assert!(example_name().eq_case(&name("example.")));
    assert!(www_example_name().eq_case(&name("www.example.")));
}

#[test]
fn the_fixture_answers_its_one_question() {
    assert_eq!(answer().name, name(NAME));
    assert_eq!(answer().ttl, 60);
    assert_eq!(answer().data, ipv4());
    let asked = bytes(&request(9, NAME, RecordType::A));
    assert_eq!(check_request(&asked), Ok(9));
    let response = Message::from_vec(&reply(&asked)).unwrap();
    assert_eq!(response.header.id, 9);
    assert_eq!(response.header.message_type, MessageType::Response);
    assert!(!response.header.recursion_desired);
    assert_eq!(response.queries, vec![Query::query(name(NAME), RecordType::A)]);
    assert_eq!(response.answers, vec![answer()]);
    assert!(response.name_servers.is_empty() && response.additionals.is_empty());
    assert!(response.edns.is_none());
}

#[test]
fn the_fixture_takes_no_other_question() {
    let other = bytes(&request(9, NAME, RecordType::AAAA));
    assert_eq!(check_request(&other), Err(RequestFault::OtherQuestions));
    let mut update = request(9, NAME, RecordType::A);
    update.header.op_code = 5;
    assert_eq!(check_request(&bytes(&update)), Err(RequestFault::NotStandard));
}

#[test]
fn responses_repeat_what_was_asked() {
    let asked = request(4242, "A.b.", RecordType::NS);
    let response = LocalDns::response(&asked);
    assert_eq!(response.header.id, 4242);
    assert_eq!(response.header.message_type, MessageType::Response);
    assert!(response.header.authoritative);
    assert!(response.header.recursion_desired);
    assert!(response.header.recursion_available);
    assert!(!response.header.authentic_data);
    assert_eq!(response.header.response_code, 0);
    assert_eq!(response.queries, asked.queries);
    assert!(response.answers.is_empty());
    let mut quiet = asked;
    quiet.header.recursion_desired = false;
    assert!(!LocalDns::response(&quiet).header.recursion_desired);
}

#[test]
fn one_name_is_known() {
    let asked = request(1, "WWW.example.com.", RecordType::AAAA);
    assert!(LocalDns::accepts(&ipv6(), &asked));
    let response = LocalDns::with_answer(&ipv6(), &asked);
    assert_eq!(response.answers.len(), 1);
    assert!(response.answers[0].name.eq_case(&name("WWW.example.com.")));
    assert_eq!(response.answers[0].ttl, 60);
    assert_eq!(response.answers[0].data, ipv6());
    assert_eq!(response.header.response_code, 0);
    assert!(response.name_servers.is_empty());
}

#[test]
fn other_names_are_denied() {
    let asked = request(1, "www.example.com.example.com.", RecordType::A);
    let response = LocalDns::with_answer(&LocalDns::default_answer(), &asked);
    assert!(response.answers.is_empty());
    assert_eq!(response.header.response_code, 3);
    assert_eq!(response.name_servers.len(), 1);
    let soa = &response.name_servers[0];
    assert_eq!(soa.name, name("example.com."));
    assert_eq!(soa.ttl, 60);
    match &soa.data {
        RData::Soa(soa) => {
            assert_eq!(soa.mname, name("ns.example.com."));
            assert_eq!(soa.rname, name("hostmaster.example.com."));
            assert_eq!(
                (soa.serial, soa.refresh, soa.retry, soa.expire, soa.minimum),
                (1, 60, 60, 60, 60)
            );
        }
        _ => panic!("a denial comes with a start of authority"),
    }
}

#[test]
fn requests_of_another_type_are_not_taken() {
    assert!(!LocalDns::accepts(&ipv6(), &request(1, NAME, RecordType::A)));
    assert!(!LocalDns::accepts(&ipv4(), &Message::new()));
    assert_eq!(LocalDns::default_answer(), ipv4());
}

fn listen(worker: &mut Worker, received: Received) -> Turn {
    worker.turn(received, false, &|m: &Message| LocalDns::with_answer(&ipv4(), m))
}

#[test]
fn the_worker_answers_and_keeps_names() {
    let mut worker = Worker::new();
    for text in [NAME, "search.example.com.", NAME] {
        let asked = request(5, text, RecordType::A);
        let turn = listen(&mut worker, Received::Datagram(bytes(&asked)));
        let expected = bytes(&LocalDns::with_answer(&ipv4(), &asked));
        assert_eq!(turn, Turn::Reply(expected));
    }
    let names = worker.names;
    assert_eq!(assert_queries(&names, &vec![NAME, "search.example.com.", NAME]), Some(true));
    assert_eq!(assert_queries(&names, &vec![NAME, NAME, "search.example.com."]), Some(false));
    assert_eq!(assert_queries(&names, &vec![NAME, "SEARCH.example.com"]), Some(false));
    assert_eq!(assert_queries(&names, &vec!["a..b"]), None);
    assert_eq!(assert_queries(&Vec::new(), &vec![]), Some(true));
}

#[test]
fn readme_example() {
    for (data, record_type) in [(ipv4(), RecordType::A), (ipv6(), RecordType::AAAA)] {
        let mut worker = Worker::new();
        let asked = request(8, "www.example.com.", record_type);
        let turn = worker.turn(Received::Datagram(bytes(&asked)), false, &|m: &Message| {
            LocalDns::with_answer(&data, m)
        });
        let response = match turn {
            Turn::Reply(reply) => Message::from_vec(&reply).unwrap(),
            other => panic!("no reply: {other:?}"),
        };
        let found: Vec<&RData> = response.answers.iter().map(|record| &record.data).collect();
        assert_eq!(found, [&data]);
        assert_eq!(assert_queries(&worker.names, &vec!["www.example.com."]), Some(true));
    }
}

#[test]
fn test_quic_stream() {
    let mut message = Message::new();
    message.add_query(Query::query(name("www.example.test."), RecordType::AAAA));
    let asked = bytes(&message);
    let message = Message::from_vec(&asked).unwrap();
    let response = Message::from_vec(&echo(&asked).unwrap()).unwrap();
    assert_eq!(response, message);
}

#[test]
fn the_worker_waits_and_stops() {
    let mut worker = Worker::new();
    assert_eq!(listen(&mut worker, Received::Nothing), Turn::Listen);
    let responder = |m: &Message| m.clone();
    assert_eq!(worker.turn(Received::Nothing, true, &responder), Turn::Listen);
    let asked = bytes(&request(5, NAME, RecordType::A));
    assert_eq!(worker.turn(Received::Datagram(asked), true, &responder), Turn::Stop);
    assert_eq!(worker.turn(Received::Datagram(vec![]), true, &responder), Turn::Stop);
    assert!(worker.names.is_empty());
}

#[test]
fn the_worker_gives_up_for_a_reason() {
    let mut worker = Worker::new();
    let mut give_up = |received: Received| match listen(&mut worker, received) {
        Turn::GiveUp(fault) => fault,
        _ => panic!("the worker gives up"),
    };
    assert_eq!(give_up(Received::Failed), WorkerFault::ReceiveFailed);
    assert_eq!(give_up(Received::Datagram(vec![1, 2])), WorkerFault::Unreadable);
    let mut m = request(5, NAME, RecordType::A);
    m.header.message_type = MessageType::Response;
    assert_eq!(give_up(Received::Datagram(bytes(&m))), WorkerFault::NotAQuery);
    let mut m = request(5, NAME, RecordType::A);
    m.header.op_code = 2;
    assert_eq!(give_up(Received::Datagram(bytes(&m))), WorkerFault::NotStandard);
    assert_eq!(give_up(Received::Datagram(bytes(&Message::new()))), WorkerFault::NotOneQuestion);
    let mut m = request(5, NAME, RecordType::A);
    m.add_query(Query::query(name("b."), RecordType::A));
    assert_eq!(give_up(Received::Datagram(bytes(&m))), WorkerFault::NotOneQuestion);
    let mut m = request(5, NAME, RecordType::A);
    m.queries[0].query_class = 3;
    assert_eq!(give_up(Received::Datagram(bytes(&m))), WorkerFault::OtherClass);
    assert!(worker.names.is_empty());
    let asked = bytes(&request(5, NAME, RecordType::A));
    let turn = worker.turn(Received::Datagram(asked), false, &|m: &Message| {
        let mut response = m.clone();
        response.header.op_code = 99;
        response
    });
    assert_eq!(turn, Turn::GiveUp(WorkerFault::Unwritable));
    assert_eq!(worker.names, vec![name(NAME)]);
}

#[test]
fn a_local_server_is_reached_by_datagrams() {
    let address = SocketAddress { ip: IpAddress::V4(0x7f00_0001), port: 5300 };
    let servers: Vec<NameServerConfig<()>> = LocalDns { address }.name_servers();
    assert_eq!(servers.len(), 1);
    assert_eq!(servers[0].socket_addr, address);
    assert_eq!(servers[0].protocol, Protocol::Udp);
    assert_eq!(servers[0].tls_dns_name, None);
}

fn lookup_request(id: u16, index: usize) -> Vec<u8> {
    let mut m = Message::new();
    m.header.id = id;
    m.add_query(query(index));
    bytes(&m)
}

#[test]
fn lookups_are_for_both_addresses_twice() {
    assert_eq!(COUNT, 4);
    for index in 0..COUNT {
        let expected = if index < 2 { RecordType::A } else { RecordType::AAAA };
        assert_eq!(query(index), Query::query(name(NAME), expected));
    }
}

#[test]
fn a_connection_serves_all_lookups_in_order() {
    let mut serving = Serving::new();
    let mut check = LookupCheck::new();
    for index in 0..COUNT {
        assert_eq!(serving.next_index(), Some(index));
        assert_eq!(check.next_lookup(), Some(query(index).query_type));
        let (next, out) = match serving.serve(&lookup_request(100 + index as u16, index)) {
            Ok(served) => served,
            Err(fault) => panic!("refused: {fault:?}"),
        };
        serving = next;
        let response = Message::from_vec(&out).unwrap();
        assert_eq!(response.header.id, 100 + index as u16);
        assert_eq!(response.queries, vec![query(index)]);
        assert_eq!(response.answers.len(), 1);
        assert_eq!(response.answers[0].ttl, 60);
        let address = match &response.answers[0].data {
            RData::A(address) => IpAddress::V4(*address),
            RData::Aaaa { hi, lo } => IpAddress::V6 { hi: *hi, lo: *lo },
            _ => panic!("an address was asked for"),
        };
        check = match check.check_answer(&vec![address]) {
            Some(next) => next,
            None => panic!("the address is the one that was served"),
        };
    }
    assert_eq!(serving.next_index(), None);
    assert_eq!(check.next_lookup(), None);
}

#[test]
fn lookups_out_of_order_are_refused() {
    let serving = Serving::new();
    assert!(matches!(
        serving.serve(&lookup_request(1, 2)),
        Err(RequestFault::OtherQuestions)
    ));
    assert_eq!(answer_request(&lookup_request(1, 0), 3), Err(RequestFault::OtherQuestions));
    assert_eq!(answer_request(&[], 0), Err(RequestFault::Unreadable));
    let out = answer_request(&lookup_request(1, 3), 3).unwrap();
    assert_eq!(Message::from_vec(&out).unwrap().answers[0].data, ipv6());
    // These servers do not look at the operation.
    let mut m = Message::new();
    m.header.op_code = 4;
    m.add_query(query(0));
    assert!(answer_request(&bytes(&m), 0).is_ok());
}

#[test]
fn other_addresses_are_not_the_answer() {
    let v4 = IpAddress::V4(0x5db8_d70e);
    assert!(LookupCheck::new().check_answer(&vec![v4]).is_some());
    assert!(LookupCheck::new().check_answer(&vec![v4, v4]).is_none());
    assert!(LookupCheck::new().check_answer(&vec![]).is_none());
    assert!(LookupCheck::new().check_answer(&vec![IpAddress::V4(0x5db8_d70f)]).is_none());
}

#[test]
fn bodies_are_their_frames() {
    let mut body = Body::new();
    for part in [vec![1, 2, 3], vec![], vec![4, 5]] {
        let mut part = to_send(part);
        let (next, taken) = body.add_frame(&mut part);
        assert!(taken);
        assert!(part.is_empty());
        body = next;
    }
    assert_eq!(body.into_bytes(), vec![1, 2, 3, 4, 5]);
}

#[test]
fn bodies_have_a_bound() {
    let (body, taken) = Body::new().add_frame(&mut to_send(vec![7; 4096]));
    assert!(taken);
    let mut more = to_send(vec![8]);
    let (body, taken) = body.add_frame(&mut more);
    assert!(!taken);
    assert_eq!(&more[..], &[8]);
    let (body, taken) = body.add_frame(&mut to_send(vec![]));
    assert!(taken);
    assert_eq!(body.into_bytes(), vec![7; 4096]);
    let (body, taken) = Body::new().add_frame(&mut to_send(vec![7; 4097]));
    assert!(!taken);
    assert!(body.into_bytes().is_empty());
}

#[test]
fn what_is_sent_is_what_was_written() {
    let out = answer_request(&lookup_request(3, 1), 1).unwrap();
    assert_eq!(&to_send(out.clone())[..], &out[..]);
}

#[test]
fn streams_carry_a_length_before_each_message() {
    assert_eq!(frame(&vec![]), vec![0, 0]);
    assert_eq!(frame(&vec![5, 6]), vec![0, 2, 5, 6]);
    let long = frame(&vec![1; 300]);
    assert_eq!(long[..2], [1, 44]);
    assert_eq!(long.len(), 302);
    assert_eq!(unframe(&long), Some(vec![1; 300]));
    assert_eq!(unframe(&[0, 0]), Some(vec![]));
    assert_eq!(unframe(&long[..301]), None);
    assert_eq!(unframe(&[0, 1, 2, 3]), None);
    assert_eq!(unframe(&[0]), None);
}

#[test]
fn requests_over_http_go_to_one_path_of_one_server() {
    assert_eq!(dns_query_path(), "/dns-query");
    let media = Some(dns_media_type());
    assert_eq!(media, Some("application/dns-message"));
    let host = Some("ns.example.test");
    assert_eq!(check_http("/dns-query", host, media, "ns.example.test"), Ok(()));
    assert_eq!(
        check_http("/dns-queries", host, media, "ns.example.test"),
        Err(HttpFault::OtherPath)
    );
    assert_eq!(check_http("/dns-query", host, media, "127.0.0.1"), Err(HttpFault::OtherHost));
    assert_eq!(
        check_http("/dns-query", None, media, "ns.example.test"),
        Err(HttpFault::OtherHost)
    );
    assert_eq!(
        check_http("/dns-query", host, None, "ns.example.test"),
        Err(HttpFault::OtherContent)
    );
    assert_eq!(
        check_http("/dns-query", host, Some("text/html"), "ns.example.test"),
        Err(HttpFault::OtherContent)
    );
}

#[test]
fn a_stream_serves_all_lookups() {
    let mut serving = TlsServing::new();
    for index in 0..COUNT {
        assert_eq!(serving.wants(), Want::Length);
        let asked = lookup_request(7, index);
        serving = match serving.on_length(asked.len() as u16) {
            Ok(next) => next,
            Err(fault) => panic!("refused: {fault:?}"),
        };
        assert_eq!(serving.wants(), Want::Request(asked.len()));
        let (next, out) = match serving.on_request(&asked) {
            Ok(served) => served,
            Err(fault) => panic!("refused: {fault:?}"),
        };
        serving = next;
        let expected = answer_request(&asked, index).unwrap();
        assert_eq!(out, frame(&expected));
    }
    assert_eq!(serving.wants(), Want::End);
}

#[test]
fn requests_on_a_stream_have_bounds() {
    for (length, taken) in [(0, false), (11, false), (12, true), (4096, true), (4097, false)] {
        match TlsServing::new().on_length(length) {
            Ok(next) => {
                assert!(taken);
                assert_eq!(next.wants(), Want::Request(length as usize));
            }
            Err(fault) => {
                assert!(!taken);
                assert_eq!(fault, ExchangeFault::BadLength);
            }
        }
    }
    let serving = match TlsServing::new().on_length(12) {
        Ok(next) => next,
        Err(_) => panic!("a header is long enough"),
    };
    assert!(matches!(
        serving.on_request(&[0; 12]),
        Err(ExchangeFault::BadRequest(RequestFault::OtherQuestions))
    ));
}

#[test]
fn requests_are_served_side_by_side() {
    let mut serving = HttpsServing::new();
    assert!(!serving.is_busy());
    for expected in 0..COUNT {
        let (next, index) = serving.on_incoming().unwrap();
        assert_eq!(index, expected);
        serving = next;
        assert!(serving.is_busy());
        if expected == 1 {
            serving = serving.on_completed();
            assert!(serving.is_busy());
        }
    }
    assert!(!serving.is_complete());
    for _ in 1..COUNT {
        serving = serving.on_completed();
    }
    assert!(!serving.is_busy());
    assert!(serving.is_complete());
    assert!(serving.on_incoming().is_none());
}

#[test]
fn options_show_every_failure() {
    let expected = ResolverOpts {
        cache_size: 0,
        attempts: 0,
        timeout: 2000,
        use_hosts_file: ResolveHosts::Never,
        ip_strategy: LookupIpStrategy::Ipv4Only,
        ..ResolverOpts::default()
    };
    assert_eq!(options(), expected);
}

#[test]
fn a_given_client_is_used() {
    let address = SocketAddress { ip: IpAddress::V4(1), port: 443 };
    let bind = Some(SocketAddress { ip: IpAddress::V4(2), port: 0 });
    let dns_name = || String::from("ns.example.test");
    let path = || String::from("/dns-query");
    let failed: Result<Arc<u8>, &str> = Err("no roots");
    let plan =
        new_https_stream(address, bind, dns_name(), path(), Some(Arc::new(7)), failed.clone())
            .unwrap();
    assert_eq!(*plan.client_config, 7);
    assert_eq!(plan.transport, Transport::Own(bind));
    assert_eq!(plan.protocol, Protocol::Https);
    assert_eq!(plan.socket_addr, address);
    assert_eq!(plan.dns_name, "ns.example.test");
    assert_eq!(plan.http_endpoint.as_deref(), Some("/dns-query"));
    let plan = new_h3_stream(address, None, dns_name(), path(), Some(Arc::new(7)), failed.clone())
        .unwrap();
    assert_eq!((plan.protocol, plan.transport), (Protocol::H3, Transport::Own(None)));
    let plan = new_quic_stream(address, bind, dns_name(), Some(Arc::new(7)), failed).unwrap();
    assert_eq!((plan.protocol, plan.transport), (Protocol::Quic, Transport::Own(bind)));
    assert_eq!(plan.http_endpoint, None);
}

#[test]
fn without_a_client_the_default_is_used() {
    let address = SocketAddress { ip: IpAddress::V4(1), port: 443 };
    let dns_name = || String::from("ns.example.test");
    let path = || String::from("/dns-query");
    let good: Result<Arc<u8>, &str> = Ok(Arc::new(9));
    let failed: Result<Arc<u8>, &str> = Err("no roots");
    let plan =
        new_https_stream_with_future(address, dns_name(), path(), None, good.clone()).unwrap();
    assert_eq!((*plan.client_config, plan.transport), (9, Transport::Given));
    assert_eq!(plan.protocol, Protocol::Https);
    let plan = new_h3_stream_with_future(address, dns_name(), path(), None, good.clone()).unwrap();
    assert_eq!((plan.protocol, plan.transport), (Protocol::H3, Transport::Given));
    let plan = new_quic_stream_with_future(address, dns_name(), None, good).unwrap();
    assert_eq!((plan.protocol, plan.transport), (Protocol::Quic, Transport::Given));
    assert!(matches!(
        new_https_stream(address, None, dns_name(), path(), None, failed.clone()),
        Err("no roots")
    ));
    assert!(matches!(
        new_https_stream_with_future(address, dns_name(), path(), None, failed.clone()),
        Err("no roots")
    ));
    assert!(matches!(
        new_h3_stream(address, None, dns_name(), path(), None, failed.clone()),
        Err("no roots")
    ));
    assert!(matches!(
        new_h3_stream_with_future(address, dns_name(), path(), None, failed.clone()),
        Err("no roots")
    ));
    assert!(matches!(
        new_quic_stream(address, None, dns_name(), None, failed.clone()),
        Err("no roots")
    ));
    assert!(matches!(
        new_quic_stream_with_future(address, dns_name(), None, failed),
        Err("no roots")
    ));
}
