//! What the functions that make and pick values give, said of their results.

use std::sync::Arc;

use vstd::prelude::*;
#[allow(unused_imports)]
use vstd::string::StringSliceAdditionalSpecFns;

use crate::answer_laws::{
    asks_for_www, law_plain_servers_find_the_address, law_which_requests_are_taken, plain_response,
    tells_of_www, www_ipv4, www_ipv6,
};
use crate::body::Body;
use crate::canonical::{tbs, to_be_signed};
use crate::config::{
    IpAddress, LookupIpStrategy, NameServerConfig, NameServerConfigGroup, Protocol, ResolveHosts,
    ResolverConfig, ResolverOpts,
    ServerOrderingStrategy,
};
use crate::conn_loop::ConnLoop;
use crate::dnssec::{Proof, Signer};
use crate::encrypted::{identity_case, options, IdentityCase};
use crate::error::{ProtoError, ProtoErrorKind};
use crate::http_serving::HttpsServing;
use crate::keyset::{check_answer, of_type, validated_views, KeysetSignature, Validated};
use crate::local_dns::{name_views, Worker};
use crate::local_name_laws::{com, example, law_local_names_in_bytes, www};
use crate::local_names::{
    com_name, example_com_name, example_name, hostmaster_name, ns_name, www_example_name, www_name,
};
use crate::message::{record_views, Message, MessageType, Query, QueryView};
use crate::name::{lower_labels, Name};
use crate::name_laws::law_same_names_are_the_same_in_small_letters;
use crate::name_server::NameServer;
use crate::pool::{
    counter_step, order_conns, ordered, start_request, starts, NameServerPool,
};
use crate::pool_send::PoolSend;
use crate::record::{data_type, RData, Record, RecordType, RecordView, Rrsig};
use crate::replies::RequestFault;
use crate::signed_lookup::{expected_data, SignedZone, ZoneFault};
use crate::signed_responses::SignedResponses;
use crate::text::{has_part, holds, same_text};
use crate::tls_setup::{anchor_of, identity_accepted, TlsClient, TlsFault, TlsServer};
use crate::wire_format::{be16, data_bytes, read_message};

verus! {

/// The codes of types, there and back, and the types of data.
pub proof fn law_codes_and_types(
    t: RecordType,
    code: u16,
    back: RecordType,
    data: RData,
    of_data: RecordType,
)
    requires
        call_ensures(RecordType::code, (t,), code),
        call_ensures(RecordType::from_code, (code,), back),
        call_ensures(RData::record_type, (&data,), of_data),
    ensures
        code == crate::record::type_code(t),
        !(t is Unknown) ==> back == t,
        crate::record::type_code(back) == code,
        of_data == data_type(data@),
{
}

/// An IPv4 address is made of its bytes.
pub proof fn law_ipv4_addresses_are_made(a: u8, b: u8, c: u8, d: u8, r: RData)
    requires
        call_ensures(RData::a, (a, b, c, d), r),
    ensures
        data_type(r@) == RecordType::A,
        data_bytes(r@) == seq![a, b, c, d],
{
    crate::wire_layout_laws::law_ipv4_in_bytes(a, b, c, d);
}

/// An IPv6 address is made of its groups.
pub proof fn law_ipv6_addresses_are_made(
    a: u16,
    b: u16,
    c: u16,
    d: u16,
    e: u16,
    f: u16,
    g: u16,
    h: u16,
    r: RData,
)
    requires
        call_ensures(RData::aaaa, (a, b, c, d, e, f, g, h), r),
    ensures
        data_type(r@) == RecordType::AAAA,
        data_bytes(r@) == be16(a) + be16(b) + be16(c) + be16(d) + be16(e) + be16(f) + be16(g) + be16(
            h,
        ),
{
    crate::wire_layout_laws::law_ipv6_in_bytes(a, b, c, d, e, f, g, h);
}

/// What is asked of errors.
pub proof fn law_kinds_of_errors(
    e: ProtoError,
    busy: bool,
    no_connections: bool,
    io: bool,
    settled: bool,
)
    requires
        call_ensures(ProtoError::is_busy, (&e,), busy),
        call_ensures(ProtoError::is_no_connections, (&e,), no_connections),
        call_ensures(ProtoError::is_io, (&e,), io),
        call_ensures(ProtoError::is_settled, (&e,), settled),
    ensures
        busy <==> e.kind == ProtoErrorKind::Busy,
        no_connections <==> e.kind == ProtoErrorKind::NoConnections,
        io <==> e.kind matches ProtoErrorKind::Io(_),
        settled <==> crate::error_laws::final_denial(e),
{
}

/// How connections are put in order, and how far the counter moves.
pub proof fn law_connections_are_put_in_order(
    options: ResolverOpts,
    ranks: Vec<u64>,
    start: usize,
    order: Vec<usize>,
    request: ConnLoop,
    len: usize,
    count: Option<usize>,
)
    requires
        call_ensures(order_conns, (&options, &ranks, start), order),
        call_ensures(start_request, (&options, &ranks, start), request),
        call_ensures(counter_step, (&options, len), count),
    ensures
        ordered(options, ranks@, start, order@),
        starts(options, ranks@, start, request),
        count == if options.server_ordering_strategy == ServerOrderingStrategy::RoundRobin
            && vstd::math::max(1, options.num_concurrent_reqs as int) < len {
            Some(vstd::math::max(1, options.num_concurrent_reqs as int) as usize)
        } else {
            None
        },
{
}

/// The names that are made are the ones that they are called by.
pub proof fn law_names_that_are_made(
    a: Name,
    b: Name,
    c: Name,
    d: Name,
    e: Name,
    f: Name,
    g: Name,
    root: Name,
)
    requires
        call_ensures(www_name, (), a),
        call_ensures(example_com_name, (), b),
        call_ensures(ns_name, (), c),
        call_ensures(hostmaster_name, (), d),
        call_ensures(com_name, (), e),
        call_ensures(example_name, (), f),
        call_ensures(www_example_name, (), g),
        call_ensures(Name::root, (), root),
    ensures
        a@ == seq![www(), example(), com()],
        b@ == seq![example(), com()],
        c@ == seq![seq![0x6eu8, 0x73], example(), com()],
        d@ == seq![
            seq![0x68u8, 0x6f, 0x73, 0x74, 0x6d, 0x61, 0x73, 0x74, 0x65, 0x72],
            example(),
            com(),
        ],
        e@ == seq![com()],
        f@ == seq![example()],
        g@ == seq![www(), example()],
        root@.len() == 0,
{
    law_local_names_in_bytes();
}

/// What lookups ask and find, and what the plain servers take and answer.
#[verifier::rlimit(40)]
pub proof fn law_what_lookups_ask_and_find(
    index: usize,
    question: Query,
    found: RData,
    bytes: &[u8],
    taken: Result<u16, RequestFault>,
    reply: Vec<u8>,
    answer: Record,
)
    requires
        call_ensures(crate::lookups::query, (index,), question),
        call_ensures(crate::lookups::data, (index,), found),
        call_ensures(crate::wire_fixture::check_request, (bytes,), taken),
        call_ensures(crate::wire_fixture::reply, (bytes,), reply),
        call_ensures(crate::wire_fixture::answer, (), answer),
    ensures
        index < 2 ==> asks_for_www(question@, RecordType::A) && data_type(found@) == RecordType::A
            && data_bytes(found@) == www_ipv4(),
        index >= 2 ==> asks_for_www(question@, RecordType::AAAA) && data_type(found@)
            == RecordType::AAAA && data_bytes(found@) == www_ipv6(),
        tells_of_www(answer@, www_ipv4(), RecordType::A),
        taken is Ok <==> (read_message(bytes@) matches Some(m) && {
            &&& m.header.message_type == MessageType::Query
            &&& m.header.op_code == 0
            &&& m.queries.len() == 1
            &&& lower_labels(m.queries[0].name) == lower_labels(seq![www(), example(), com()])
            &&& m.queries[0].query_type == RecordType::A
            &&& m.queries[0].query_class == 1
        }),
        taken matches Ok(id) ==> id == read_message(bytes@)->Some_0.header.id,
        taken is Ok ==> (read_message(reply@) matches Some(m) && {
            &&& m.header.id == read_message(bytes@)->Some_0.header.id
            &&& plain_response(m.header)
            &&& m.queries.len() == 1 && asks_for_www(m.queries[0], RecordType::A)
            &&& m.answers.len() == 1 && tells_of_www(m.answers[0], www_ipv4(), RecordType::A)
            &&& m.name_servers.len() == 0 && m.additionals.len() == 0 && m.edns is None
        }),
{
    law_local_names_in_bytes();
    crate::answer_laws::lemma_addresses();
    law_which_requests_are_taken(
        bytes@,
        crate::wire_fixture::www_query(RecordType::A),
        true,
    );
    if taken is Ok {
        law_plain_servers_find_the_address(bytes@);
    }
}

/// What a signed zone answers, and the data that its lookups find.
pub proof fn law_what_a_signed_zone_answers(
    zone: SignedZone,
    name: Name,
    query_type: RecordType,
    r: Result<Vec<Record>, ZoneFault>,
    request: Message,
    response: Result<Message, ZoneFault>,
    tampered: bool,
    index: usize,
    found: RData,
)
    requires
        call_ensures(SignedZone::answers, (&zone, &name, query_type), r),
        call_ensures(SignedZone::respond, (&zone, &request), response),
        call_ensures(expected_data, (tampered, index), found),
    ensures
        query_type == RecordType::A ==> (r is Ok <==> lower_labels(name@) == lower_labels(
            seq![www(), example(), com()],
        )) && (r is Ok ==> record_views(r->Ok_0@) == zone@.ipv4),
        query_type == RecordType::AAAA ==> (r is Ok <==> lower_labels(name@) == lower_labels(
            seq![www(), example(), com()],
        )) && (r is Ok ==> record_views(r->Ok_0@) == zone@.ipv6),
        query_type == RecordType::DNSKEY ==> (r is Ok <==> lower_labels(name@) == lower_labels(
            seq![example(), com()],
        )) && (r is Ok ==> record_views(r->Ok_0@) == zone@.dnskey),
        response matches Ok(m) ==> {
            &&& m@.header.id == request@.header.id
            &&& m@.header.message_type == MessageType::Response
            &&& m@.header.response_code == 0
            &&& !m@.header.truncated
            &&& m@.queries == seq![request@.queries[0]]
            &&& crate::signed_lookup::zone_answers(zone@, request@.queries[0]) == Ok::<
                Seq<RecordView>,
                ZoneFault,
            >(m@.answers)
        },
        found@ == crate::signed_lookup::served_data(tampered, index as nat),
{
    let q = QueryView { name: name@, query_type, query_class: 1 };
    crate::zone_laws::law_what_the_signed_zone_answers(zone@, q);
    if let Ok(m) = response {
        crate::zone_laws::law_fields_of_zone_responses(zone@, request@, m@);
    }
}

/// How validated answers are judged.
pub proof fn law_answers_are_judged(
    kind: KeysetSignature,
    single_key: bool,
    query_type: RecordType,
    answers: Vec<Validated>,
    r: bool,
    i: int,
)
    requires
        call_ensures(check_answer, (kind, single_key, query_type, &answers), r),
        r,
        0 <= i < of_type(validated_views(answers@), query_type).len(),
    ensures
        ({
            let found = of_type(validated_views(answers@), query_type);
            &&& found.len() == if query_type == RecordType::DNSKEY && !single_key {
                2nat
            } else {
                1
            }
            &&& found[i].proof_found == Proof::Secure <==> kind == KeysetSignature::Trusted
                || single_key || (query_type == RecordType::DNSKEY && i == 0)
            &&& kind == KeysetSignature::Trusted ==> found[i].record.ttl <= 300
        }),
{
    crate::zone_laws::law_how_answers_are_judged(
        kind,
        single_key,
        query_type,
        validated_views(answers@),
    );
    assert(crate::keyset::record_valid(
        kind,
        single_key,
        query_type,
        i,
        of_type(validated_views(answers@), query_type)[i],
    ));
}

/// The bytes over which a signature is made are those that are due for the records.
pub proof fn law_bytes_that_are_signed(
    name: Name,
    rrsig: Rrsig,
    records: Vec<Record>,
    r: Vec<u8>,
)
    requires
        call_ensures(tbs, (&name, &rrsig, &records), r),
    ensures
        to_be_signed(name@, rrsig@, record_views(records@), r@),
{
}

/// Parts of texts, and texts that are the same.
pub proof fn law_texts_are_compared(
    text: &[u8],
    part: &[u8],
    has: bool,
    a: &str,
    b: &str,
    same: bool,
)
    requires
        call_ensures(has_part, (text, part), has),
        call_ensures(same_text, (a, b), same),
    ensures
        has <==> holds(text@, part@),
        same <==> a.spec_bytes() == b.spec_bytes(),
{
}

/// A client trusts the one root that it was given, where it is one, and names the server or not; a
/// server proves itself with what it was given, where it goes together, and offers the protocols
/// that it was given.
pub proof fn law_ends_hold_what_they_were_given(
    root: Vec<u8>,
    sni: bool,
    client: Result<TlsClient, TlsFault>,
    cert: Vec<u8>,
    key: Vec<u8>,
    alpn: Vec<Vec<u8>>,
    server: Result<TlsServer, TlsFault>,
)
    requires
        call_ensures(TlsClient::new, (&root, sni), client),
        call_ensures(TlsServer::new, (&cert, &key, alpn), server),
    ensures
        client is Ok <==> anchor_of(root@) is Some,
        client matches Ok(c) ==> c.trusted() == seq![anchor_of(root@)->Some_0] && c.names_server()
            == sni,
        client matches Err(fault) ==> fault == TlsFault::BadRoot,
        server is Ok <==> identity_accepted(cert@, key@),
        server matches Ok(s) ==> s.proves() == (cert@, key@) && s.offers().len() == alpn@.len()
            && forall|i: int| 0 <= i < alpn@.len() ==> #[trigger] s.offers()[i] == alpn@[i]@,
        server matches Err(fault) ==> fault == TlsFault::BadIdentity,
{
}

/// The options that are made, and the servers that have to prove a name.
pub proof fn law_settings_that_are_made<C>(
    by_default: ResolverOpts,
    direct: ResolverOpts,
    ips: Vec<IpAddress>,
    port: u16,
    name: String,
    protocol: Protocol,
    trust: bool,
    group: NameServerConfigGroup<C>,
    i: int,
    wrong_name: bool,
    case: IdentityCase,
)
    requires
        call_ensures(<ResolverOpts as Default>::default, (), by_default),
        call_ensures(options, (), direct),
        call_ensures(
            NameServerConfigGroup::<C>::from_ips_encrypted,
            (&ips, port, &name, protocol, trust),
            group,
        ),
        0 <= i < ips@.len(),
        call_ensures(identity_case, (wrong_name,), case),
    ensures
        by_default.num_concurrent_reqs == 2 && by_default.attempts == 2 && by_default.timeout == 5000,
        !by_default.try_tcp_on_error && !by_default.shuffle_dns_servers,
        !by_default.validate && !by_default.edns0,
        by_default.cache_size == 32 && by_default.use_hosts_file == ResolveHosts::Auto,
        by_default.ip_strategy == LookupIpStrategy::Ipv4thenIpv6,
        by_default.server_ordering_strategy == ServerOrderingStrategy::QueryStatistics,
        direct.cache_size == 0 && direct.attempts == 0 && direct.timeout == 2000,
        direct.use_hosts_file == ResolveHosts::Never,
        direct.ip_strategy == LookupIpStrategy::Ipv4Only,
        direct.num_concurrent_reqs == 2 && !direct.try_tcp_on_error && !direct.shuffle_dns_servers,
        !direct.validate && !direct.edns0,
        direct.server_ordering_strategy == ServerOrderingStrategy::QueryStatistics,
        group.servers@.len() == ips@.len(),
        group.client_config is None,
        group.servers@[i].socket_addr.ip == ips@[i] && group.servers@[i].socket_addr.port == port,
        group.servers@[i].protocol == protocol,
        group.servers@[i].tls_dns_name == Some(name),
        group.servers@[i].trust_negative_responses == trust,
        group.servers@[i].http_endpoint is None && group.servers@[i].bind_addr is None,
        group.servers@[i].tls_config is None,
        case.own_root <==> wrong_name,
        wrong_name ==> case.server_name@ == "wrong.example.test"@ && case.expected@
            == "NotValidForName"@,
        !wrong_name ==> case.server_name@ == "ns.example.test"@ && case.expected@
            == "BadSignature"@,
{
}

/// Names are equal, and questions are, in whatever case they are written.
pub proof fn law_equality_ignores_case(
    a: Name,
    b: Name,
    same_names: bool,
    p: Query,
    q: Query,
    same_queries: bool,
)
    requires
        call_ensures(<Name as PartialEq>::eq, (&a, &b), same_names),
        call_ensures(<Query as PartialEq>::eq, (&p, &q), same_queries),
    ensures
        same_names <==> lower_labels(a@) == lower_labels(b@),
        same_queries <==> lower_labels(p@.name) == lower_labels(q@.name) && p@.query_type
            == q@.query_type && p@.query_class == q@.query_class,
{
    law_same_names_are_the_same_in_small_letters(a@, b@);
    law_same_names_are_the_same_in_small_letters(p@.name, q@.name);
}

/// Copies are what they are copies of.
pub proof fn law_copies_are_the_same(
    name: Name,
    names: Name,
    query: Query,
    queries: Query,
    data: RData,
    datas: RData,
    record: Record,
    records: Record,
    message: Message,
    messages: Message,
    signer: Signer,
    signers: Signer,
)
    requires
        call_ensures(<Name as Clone>::clone, (&name,), names),
        call_ensures(<Query as Clone>::clone, (&query,), queries),
        call_ensures(<RData as Clone>::clone, (&data,), datas),
        call_ensures(<Record as Clone>::clone, (&record,), records),
        call_ensures(<Message as Clone>::clone, (&message,), messages),
        call_ensures(<Signer as Clone>::clone, (&signer,), signers),
    ensures
        names@ == name@,
        queries@ == query@,
        datas@ == data@,
        records@ == record@,
        messages@ == message@,
        signers@ == signer@,
{
}

/// What a configuration was made of can be read from it.
pub proof fn law_configurations_keep_their_parts<C>(
    domain: Option<Name>,
    search: Vec<Name>,
    group: NameServerConfigGroup<C>,
    config: ResolverConfig<C>,
    servers: &Vec<NameServerConfig<C>>,
    client: &Option<Arc<C>>,
    given: Arc<C>,
    with_client: NameServerConfigGroup<C>,
    inner: Vec<NameServerConfig<C>>,
)
    requires
        call_ensures(ResolverConfig::<C>::from_parts, (domain, search, group), config),
        call_ensures(ResolverConfig::<C>::name_servers, (&config,), servers),
        call_ensures(ResolverConfig::<C>::client_config, (&config,), client),
        call_ensures(NameServerConfigGroup::<C>::with_client_config, (group, given), with_client),
        call_ensures(NameServerConfigGroup::<C>::into_inner, (group,), inner),
    ensures
        config.domain == domain && config.search == search && config.group == group,
        *servers == group.servers,
        *client == group.client_config,
        with_client.servers == group.servers,
        with_client.client_config == Some(given),
        inner == group.servers,
{
}

/// What a pool and its servers were made of can be read from them.
pub proof fn law_pools_keep_their_parts<P, C>(
    config: NameServerConfig<C>,
    options: ResolverOpts,
    provider: P,
    server: NameServer<P, C>,
    pool: NameServerPool<P, C>,
    datagrams: &Vec<NameServer<P, C>>,
    streams: &Vec<NameServer<P, C>>,
    request: PoolSend,
    over_streams: bool,
)
    requires
        call_ensures(NameServer::<P, C>::new, (config, options, provider), server),
        call_ensures(NameServerPool::<P, C>::datagram_conns, (&pool,), datagrams),
        call_ensures(NameServerPool::<P, C>::stream_conns, (&pool,), streams),
        call_ensures(PoolSend::over_streams, (&request,), over_streams),
    ensures
        server.config == config && server.options == options && server.conn_provider == provider,
        datagrams@ == pool.datagram(),
        streams@ == pool.stream(),
        over_streams <==> request.over_datagrams() is Some,
{
}

/// What the ends of a connection hold can be read from them.
pub proof fn law_ends_tell_what_they_hold(
    client: TlsClient,
    count: usize,
    names: bool,
    server: TlsServer,
    protocols: &Vec<Vec<u8>>,
)
    requires
        call_ensures(TlsClient::count_trusted, (&client,), count),
        call_ensures(TlsClient::sends_name, (&client,), names),
        call_ensures(TlsServer::protocols, (&server,), protocols),
    ensures
        count == client.trusted().len(),
        names == client.names_server(),
        protocols@.len() == server.offers().len(),
        forall|i: int| 0 <= i < protocols@.len() ==> (#[trigger] protocols@[i])@ == server.offers()[i],
{
    assert forall|i: int| 0 <= i < protocols@.len() implies (#[trigger] protocols@[i])@
        == server.offers()[i] by {
        assert(crate::tls_setup::protocol_names(protocols@)[i] == protocols@[i]@);
    }
}

/// Servers begin with nothing asked and nothing served; one of signed records answers with those
/// that answer the question.
pub proof fn law_servers_begin_anew(
    worker: Worker,
    records: Vec<Record>,
    server: SignedResponses,
    query: Query,
    answers: Vec<Record>,
    https: HttpsServing,
    body: Body,
    received: Vec<u8>,
    message: Message,
)
    requires
        call_ensures(Worker::new, (), worker),
        call_ensures(SignedResponses::new, (records,), server),
        call_ensures(SignedResponses::answers, (&server, &query), answers),
        call_ensures(HttpsServing::new, (), https),
        call_ensures(Body::new, (), body),
        call_ensures(Body::into_bytes, (body,), received),
        call_ensures(Message::new, (), message),
    ensures
        name_views(worker.names@).len() == 0,
        server.records == records,
        crate::message::query_views(server.queries@).len() == 0,
        record_views(answers@) == crate::signed_responses::matching(
            record_views(records@),
            query@,
        ),
        https.counts().accepted == 0 && https.counts().completed == 0,
        received@.len() == 0,
        message@.header.message_type == MessageType::Query,
        message@.header.id == 0 && message@.header.op_code == 0,
        message@.header.response_code == 0 && !message@.header.truncated,
        message@.queries.len() == 0 && message@.answers.len() == 0,
        message@.name_servers.len() == 0 && message@.additionals.len() == 0,
        message@.edns is None,
{
}

} // verus!
