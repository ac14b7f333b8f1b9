//! What the steps of servers and clients come to, said of their results.

use vstd::prelude::*;
#[allow(unused_imports)]
use vstd::string::StringSliceAdditionalSpecFns;

use crate::answer_laws::{
    asks_for_www, law_checked_addresses, law_lookups_find_the_addresses,
    law_which_requests_are_taken, plain_response, tells_of_www, www_ipv4, www_ipv6,
};
use crate::config::{
    IpAddress, NameServerConfig, Protocol, ResolverConfig, ResolverOpts, SocketAddress,
};
use crate::dnssec::{signed_by, Signer};
use crate::encrypted::{https_acceptor, rejected, RefusalFault, ResolverSetup};
use crate::error::ProtoError;
use crate::http_serving::{answer_request, check_http, HttpFault, HttpsServing};
use crate::keyset::{
    check_delegation, keyset_for, keyset_queries, zone_answer, zone_keys, Keyset, KeysetSignature,
};
use crate::local_dns::{
    assert_queries, equal_names, name_views, same_names, spell_names, spelled, LocalDns,
};
use crate::local_name_laws::{com, example, law_local_names_in_bytes, www};
use crate::lookups::{LookupCheck, Serving};
use crate::message::{query_views, record_views, Message, MessageType, Query};
use crate::name::{ascii_name, lower_labels, Name};
use crate::name_laws::law_same_names_are_the_same_in_small_letters;
use crate::record::{data_type, RData, RDataView, RecordType, RecordView};
use crate::replies::RequestFault;
use crate::signed_lookup::{expected_names, SignedZone};
use crate::text::holds;
use crate::tls_exchange::{
    acceptor, framed, rejection, unframe, ConnectPlan, ExchangeFault, TestProvider, TlsServing,
    Want,
};
use crate::tls_setup::{anchor_of, client_roots, client_sni, identity_accepted, TlsFault, TlsServer};
use crate::wire_format::{data_bytes, read_message};

verus! {

/// Whether the bytes are a reply to the request that a client of the lookups reads without finding
/// anything wrong, with the address that the lookup is for.
pub open spec fn answers_lookup(request: Seq<u8>, index: nat, reply: Seq<u8>) -> bool {
    read_message(reply) matches Some(m) && {
        &&& m.header.id == read_message(request).unwrap().header.id
        &&& plain_response(m.header)
        &&& m.queries.len() == 1 && m.answers.len() == 1
        &&& m.name_servers.len() == 0 && m.additionals.len() == 0 && m.edns is None
        &&& index < 2 ==> asks_for_www(m.queries[0], RecordType::A) && tells_of_www(
            m.answers[0],
            www_ipv4(),
            RecordType::A,
        )
        &&& index >= 2 ==> asks_for_www(m.queries[0], RecordType::AAAA) && tells_of_www(
            m.answers[0],
            www_ipv6(),
            RecordType::AAAA,
        )
    }
}

/// Whether the bytes are a request that the lookup with the number takes: a query for just the one
/// question of the lookup.
pub open spec fn asks_lookup(request: Seq<u8>, index: nat) -> bool {
    read_message(request) matches Some(m) && {
        &&& m.header.message_type == MessageType::Query
        &&& m.queries.len() == 1
        &&& lower_labels(m.queries[0].name) == lower_labels(seq![www(), example(), com()])
        &&& m.queries[0].query_class == 1
        &&& m.queries[0].query_type == if index < 2 {
            RecordType::A
        } else {
            RecordType::AAAA
        }
    }
}

proof fn lemma_lookup_taken(request: Seq<u8>, index: nat)
    ensures
        crate::lookups::lookup_fault(request, index) is None <==> asks_lookup(request, index),
        asks_lookup(request, index) ==> answers_lookup(
            request,
            index,
            crate::lookups::lookup_reply(request, index),
        ),
{
    law_local_names_in_bytes();
    law_which_requests_are_taken(
        request,
        crate::wire_fixture::www_query(crate::lookups::lookup_type(index)),
        false,
    );
    if crate::lookups::lookup_fault(request, index) is None {
        law_lookups_find_the_addresses(request, index);
    }
}

/// A server of lookups serves the four of them in turn: each request is taken if and only if it asks
/// what the lookup whose turn it is asks, and is then answered as that lookup is to be.
pub proof fn law_lookups_are_served_in_turn(
    server: Serving,
    bytes: &[u8],
    r: Result<(Serving, Vec<u8>), RequestFault>,
    next: Option<usize>,
    fresh: Serving,
)
    requires
        call_ensures(Serving::serve, (server, bytes), r),
        call_ensures(Serving::next_index, (&server,), next),
        call_ensures(Serving::new, (), fresh),
    ensures
        fresh.count() == 0,
        next == if server.count() < 4 {
            Some(server.count() as usize)
        } else {
            None
        },
        r is Ok <==> asks_lookup(bytes@, server.count()),
        r matches Ok((after, reply)) ==> after.count() == server.count() + 1 && answers_lookup(
            bytes@,
            server.count(),
            reply@,
        ),
{
    lemma_lookup_taken(bytes@, server.count());
}

/// A client of lookups looks up the IPv4 address twice and then the IPv6 address twice, and goes on
/// if and only if it found just the one address.
pub proof fn law_lookups_are_checked_in_turn(
    client: LookupCheck,
    addresses: Vec<IpAddress>,
    r: Option<LookupCheck>,
    next: Option<RecordType>,
    fresh: LookupCheck,
)
    requires
        client.count() < 4,
        call_ensures(LookupCheck::check_answer, (client, &addresses), r),
        call_ensures(LookupCheck::next_lookup, (&client,), next),
        call_ensures(LookupCheck::new, (), fresh),
    ensures
        fresh.count() == 0,
        next == Some(
            if client.count() < 2 {
                RecordType::A
            } else {
                RecordType::AAAA
            },
        ),
        r is Some <==> addresses@.len() == 1 && match addresses@[0] {
            IpAddress::V4(address) => client.count() < 2 && data_bytes(RDataView::A(address))
                == www_ipv4(),
            IpAddress::V6 { hi, lo } => client.count() >= 2 && data_bytes(
                RDataView::Aaaa { hi, lo },
            ) == www_ipv6(),
        },
        r matches Some(after) ==> after.count() == client.count() + 1,
{
    law_checked_addresses(client.count());
    let expected = crate::lookups::lookup_address(client.count());
    if addresses@.len() == 1 {
        lemma_same_address(addresses@[0], expected);
        if addresses@[0] == expected {
            assert(addresses@ =~= seq![expected]);
        }
    }
    if addresses@ == seq![expected] {
        assert(addresses@[0] == expected);
    }
}

/// Addresses with the same bytes are the same.
proof fn lemma_same_address(a: IpAddress, b: IpAddress)
    ensures
        match (a, b) {
            (IpAddress::V4(x), IpAddress::V4(y)) => data_bytes(RDataView::A(x)) == data_bytes(
                RDataView::A(y),
            ) ==> a == b,
            (IpAddress::V6 { hi, lo }, IpAddress::V6 { hi: h, lo: l }) => data_bytes(
                RDataView::Aaaa { hi, lo },
            ) == data_bytes(RDataView::Aaaa { hi: h, lo: l }) ==> a == b,
            _ => true,
        },
{
    match (a, b) {
        (IpAddress::V4(x), IpAddress::V4(y)) => {
            crate::wire_layout_laws::law_numbers_in_bytes(0, x, 0);
            crate::wire_layout_laws::law_numbers_in_bytes(0, y, 0);
        },
        (IpAddress::V6 { hi, lo }, IpAddress::V6 { hi: h, lo: l }) => {
            let p = data_bytes(RDataView::Aaaa { hi, lo });
            let q = data_bytes(RDataView::Aaaa { hi: h, lo: l });
            crate::wire_layout_laws::law_numbers_in_bytes(0, 0, hi);
            crate::wire_layout_laws::law_numbers_in_bytes(0, 0, lo);
            crate::wire_layout_laws::law_numbers_in_bytes(0, 0, h);
            crate::wire_layout_laws::law_numbers_in_bytes(0, 0, l);
            assert(p.take(8) =~= crate::wire_format::be64(hi));
            assert(p.skip(8) =~= crate::wire_format::be64(lo));
            assert(q.take(8) =~= crate::wire_format::be64(h));
            assert(q.skip(8) =~= crate::wire_format::be64(l));
        },
        _ => {},
    }
}

/// A server on a stream reads a length and then a request of that length, four times over. Lengths
/// from 12 to 4096 are taken, and a request is answered behind the length of the answer.
pub proof fn law_streams_are_served_in_turn(
    server: TlsServing,
    wanted: Want,
    length: u16,
    on_length: Result<TlsServing, ExchangeFault>,
    bytes: &[u8],
    on_request: Result<(TlsServing, Vec<u8>), ExchangeFault>,
    fresh: TlsServing,
)
    requires
        call_ensures(TlsServing::wants, (&server,), wanted),
        call_ensures(TlsServing::on_length, (server, length), on_length),
        call_ensures(TlsServing::on_request, (server, bytes), on_request),
        call_ensures(TlsServing::new, (), fresh),
    ensures
        fresh.served() == 0 && fresh.pending() is None,
        server.pending() matches Some(len) ==> wanted == Want::Request(len),
        server.pending() is None && server.served() < 4 ==> wanted == Want::Length,
        server.pending() is None && server.served() >= 4 ==> wanted == Want::End,
        on_length is Ok <==> 12 <= length <= 4096,
        on_length matches Ok(next) ==> next.pending() == Some(length as usize) && next.served()
            == server.served(),
        on_length matches Err(fault) ==> fault == ExchangeFault::BadLength,
        on_request is Ok <==> asks_lookup(bytes@, server.served()),
        on_request matches Ok((next, out)) ==> {
            &&& next.served() == server.served() + 1
            &&& next.pending() is None
            &&& exists|reply: Seq<u8>|
                out@ == #[trigger] framed(reply) && answers_lookup(bytes@, server.served(), reply)
        },
        on_request matches Err(fault) ==> fault is BadRequest,
{
    lemma_lookup_taken(bytes@, server.served());
    if on_request is Ok {
        assert(on_request->Ok_0.1@ == framed(
            crate::lookups::lookup_reply(bytes@, server.served()),
        ));
    }
}

/// Bytes behind their length are taken off it exactly when it is that of all that follows.
pub proof fn law_lengths_are_taken_off(bytes: &[u8], r: Option<Vec<u8>>)
    requires
        call_ensures(unframe, (bytes,), r),
    ensures
        r is Some <==> bytes@.len() >= 2 && bytes@[0] * 0x100 + bytes@[1] == bytes@.len() - 2,
        r matches Some(message) ==> message@ == bytes@.skip(2),
{
}

/// A server of HTTP/2 gives each of four requests its number, in the order in which they come, and
/// answers each as the lookup with that number is to be.
pub proof fn law_http_requests_are_served(
    server: HttpsServing,
    incoming: Option<(HttpsServing, usize)>,
    completed: HttpsServing,
    busy: bool,
    complete: bool,
    bytes: &[u8],
    index: usize,
    answer: Result<Vec<u8>, RequestFault>,
)
    requires
        call_ensures(HttpsServing::on_incoming, (server,), incoming),
        call_ensures(HttpsServing::on_completed, (server,), completed),
        call_ensures(HttpsServing::is_busy, (&server,), busy),
        call_ensures(HttpsServing::is_complete, (&server,), complete),
        call_ensures(answer_request, (bytes, index), answer),
    ensures
        incoming is Some <==> server.counts().accepted < 4,
        incoming matches Some((next, number)) ==> number == server.counts().accepted
            && next.counts().accepted == server.counts().accepted + 1 && next.counts().completed
            == server.counts().completed,
        server.counts().completed < server.counts().accepted ==> completed.counts().completed
            == server.counts().completed + 1 && completed.counts().accepted
            == server.counts().accepted,
        busy <==> server.counts().accepted != server.counts().completed,
        complete <==> server.counts().accepted == 4 && server.counts().completed == 4,
        answer is Ok <==> asks_lookup(bytes@, index as nat),
        answer matches Ok(reply) ==> answers_lookup(bytes@, index as nat, reply@),
{
    lemma_lookup_taken(bytes@, index as nat);
}

/// Requests over HTTP are taken to the path, to the server by its name, and with the right type of
/// content.
pub proof fn law_http_requests_are_checked(
    path: &str,
    host: Option<&str>,
    content_type: Option<&str>,
    server_name: &str,
    r: Result<(), HttpFault>,
)
    requires
        call_ensures(check_http, (path, host, content_type, server_name), r),
    ensures
        r is Ok <==> {
            &&& path.spec_bytes() == crate::http_serving::query_path()
            &&& host is Some && host->Some_0.spec_bytes() == server_name.spec_bytes()
            &&& content_type is Some && content_type->Some_0.spec_bytes()
                == crate::http_serving::message_media_type()
        },
        r matches Err(fault) ==> fault == if path.spec_bytes() != crate::http_serving::query_path() {
            HttpFault::OtherPath
        } else if host is None || host->Some_0.spec_bytes() != server_name.spec_bytes() {
            HttpFault::OtherHost
        } else {
            HttpFault::OtherContent
        },
{
}

/// Refusals that are due, and those of the transport.
pub proof fn law_refusals_are_checked(
    server_failed: bool,
    client_text: Option<&str>,
    expected: &str,
    r: Result<(), RefusalFault>,
    client_error: Option<ProtoError>,
    s: Result<(), RefusalFault>,
)
    requires
        call_ensures(rejected, (server_failed, client_text, expected), r),
        call_ensures(rejection, (server_failed, client_error), s),
    ensures
        r is Ok <==> server_failed && client_text is Some && holds(
            client_text->Some_0.spec_bytes(),
            expected.spec_bytes(),
        ),
        !server_failed ==> r == Err::<(), RefusalFault>(RefusalFault::ServerAccepted) && s == Err::<
            (),
            RefusalFault,
        >(RefusalFault::ServerAccepted),
        server_failed && client_text is None ==> r == Err::<(), RefusalFault>(
            RefusalFault::ClientResolved,
        ),
        server_failed && client_error is None ==> s == Err::<(), RefusalFault>(
            RefusalFault::ClientResolved,
        ),
        s is Ok <==> server_failed && client_error is Some && client_error->Some_0.kind
            == crate::error::ProtoErrorKind::Io(crate::error::IoErrorKind::ConnectionRefused),
{
}

/// Servers prove themselves with the certificate and the key that they were given, where those go
/// together; one of HTTP/2 offers just that protocol, and another none.
pub proof fn law_servers_prove_what_they_were_given(
    cert: Vec<u8>,
    key: Vec<u8>,
    plain: Result<TlsServer, TlsFault>,
    http: Result<TlsServer, TlsFault>,
)
    requires
        call_ensures(acceptor, (&cert, &key), plain),
        call_ensures(https_acceptor, (&cert, &key), http),
    ensures
        plain is Ok <==> identity_accepted(cert@, key@),
        http is Ok <==> identity_accepted(cert@, key@),
        plain matches Ok(server) ==> server.proves() == (cert@, key@) && server.offers().len() == 0,
        http matches Ok(server) ==> server.proves() == (cert@, key@) && server.offers() == seq![
            seq![0x68u8, 0x32],
        ],
        plain matches Err(fault) ==> fault == TlsFault::BadIdentity,
        http matches Err(fault) ==> fault == TlsFault::BadIdentity,
{
    if http is Ok {
        assert(crate::encrypted::h2_offer() =~= seq![0x68u8, 0x32]);
    }
}

/// A resolver over an authenticated stream keeps its configuration, and gets a client that trusts
/// the one root and does not name the server. A provider connects as the server is configured, with
/// its own root.
pub proof fn law_stream_resolvers_trust_one_root<C>(
    config: ResolverConfig<rustls::ClientConfig>,
    root: Vec<u8>,
    r: Result<ResolverSetup, TlsFault>,
    provider: TestProvider,
    server: NameServerConfig<C>,
    options: ResolverOpts,
    plan: ConnectPlan,
)
    requires
        call_ensures(crate::tls_exchange::resolver, (config, &root), r),
        call_ensures(TestProvider::new_connection::<C>, (&provider, &server, &options), plan),
    ensures
        r is Ok <==> anchor_of(root@) is Some,
        r matches Ok(setup) ==> {
            &&& setup.config.domain == config.domain
            &&& setup.config.search == config.search
            &&& setup.config.group.servers == config.group.servers
            &&& setup.config.group.client_config is Some
            &&& client_roots(*setup.config.group.client_config->Some_0) == seq![
                anchor_of(root@)->Some_0,
            ]
            &&& !client_sni(*setup.config.group.client_config->Some_0)
        },
        plan.root@ == provider.root@,
        plan.socket_addr == server.socket_addr,
        plan.bind_addr == server.bind_addr,
        server.tls_dns_name is Some ==> plan.server_name == server.tls_dns_name->Some_0,
        plan.timeout == options.timeout,
{
}

/// A resolver over HTTP/2, HTTP/3 or QUIC can be set up exactly when its root is one, and then
/// reaches its server.
pub proof fn law_resolvers_are_set_up(
    address: SocketAddress,
    name: String,
    root: Vec<u8>,
    protocol: Protocol,
    r: Result<ResolverSetup, TlsFault>,
    ok: bool,
)
    requires
        call_ensures(crate::encrypted::resolver, (address, &name, &root, protocol), r),
        call_ensures(crate::encrypted::is_supported, (protocol,), ok),
    ensures
        ok <==> protocol == Protocol::Https || protocol == Protocol::H3 || protocol
            == Protocol::Quic,
        r is Ok <==> anchor_of(root@) is Some,
        r matches Ok(setup) ==> {
            &&& setup.config.group.servers@.len() == 1
            &&& setup.config.group.servers@[0].socket_addr == address
            &&& setup.config.group.servers@[0].protocol == protocol
            &&& setup.config.group.servers@[0].tls_dns_name == Some(name)
            &&& setup.config.group.client_config is Some
            &&& client_roots(*setup.config.group.client_config->Some_0) == seq![
                anchor_of(root@)->Some_0,
            ]
            &&& client_sni(*setup.config.group.client_config->Some_0)
        },
{
}

/// What a local server says: it takes questions for the type of its address, which is 93.184.215.14
/// unless it is told another, answers for its one name and denies all others.
pub proof fn law_local_servers_answer(
    request: Message,
    answer: RData,
    takes: bool,
    response: Message,
    bare: Message,
    default: RData,
)
    requires
        call_ensures(LocalDns::accepts, (&answer, &request), takes),
        call_ensures(LocalDns::with_answer, (&answer, &request), response),
        call_ensures(LocalDns::response, (&request,), bare),
        call_ensures(LocalDns::default_answer, (), default),
        request@.queries.len() > 0,
    ensures
        takes <==> request@.queries[0].query_type == data_type(answer@),
        data_type(default@) == RecordType::A && data_bytes(default@) == www_ipv4(),
        crate::answer_laws::authoritative_response(bare@.header, request@),
        bare@.header.response_code == 0,
        bare@.queries == seq![request@.queries[0]],
        bare@.answers.len() == 0 && bare@.name_servers.len() == 0,
        bare@.additionals.len() == 0 && bare@.edns is None,
        crate::answer_laws::knows_one_name(response@, request@, answer@),
{
    crate::answer_laws::lemma_addresses();
    crate::answer_laws::lemma_knows_one_name(request@, answer@);
}

/// Names are compared one by one, in whatever case: a server was asked for just the names that the
/// texts spell, in their order.
pub proof fn law_names_are_checked_in_order(
    names: Vec<Name>,
    others: Vec<Name>,
    equal: bool,
    texts: Vec<&str>,
    spelled_names: Option<Vec<Name>>,
    r: Option<bool>,
)
    requires
        call_ensures(equal_names, (&names, &others), equal),
        call_ensures(spell_names, (&texts,), spelled_names),
        call_ensures(assert_queries, (&names, &texts), r),
    ensures
        equal <==> names@.len() == others@.len() && forall|i: int|
            0 <= i < names@.len() ==> lower_labels((#[trigger] names@[i])@) == lower_labels(
                others@[i]@,
            ),
        spelled_names is Some <==> forall|i: int|
            0 <= i < texts@.len() ==> ascii_name((#[trigger] texts@[i]).spec_bytes()) is Some,
        spelled_names matches Some(found) ==> found@.len() == texts@.len() && forall|i: int|
            0 <= i < texts@.len() ==> ascii_name((#[trigger] texts@[i]).spec_bytes()) == Some(
                found@[i]@,
            ),
        r is Some <==> spelled_names is Some,
        r matches Some(same) ==> (same <==> names@.len() == texts@.len() && forall|i: int|
            0 <= i < names@.len() ==> lower_labels((#[trigger] names@[i])@) == lower_labels(
                ascii_name(texts@[i].spec_bytes())->Some_0,
            )),
{
    lemma_same_names(name_views(names@), name_views(others@));
    let x = name_views(names@);
    let y = name_views(others@);
    assert(equal <==> x.len() == y.len() && forall|i: int|
        0 <= i < x.len() ==> lower_labels(#[trigger] x[i]) == lower_labels(y[i]));
    if equal {
        assert forall|i: int| 0 <= i < names@.len() implies lower_labels((#[trigger] names@[i])@)
            == lower_labels(others@[i]@) by {
            assert(x[i] == names@[i]@ && y[i] == others@[i]@);
        }
    }
    if names@.len() == others@.len() && forall|i: int|
        0 <= i < names@.len() ==> lower_labels((#[trigger] names@[i])@) == lower_labels(
            others@[i]@,
        ) {
        assert forall|i: int| 0 <= i < x.len() implies lower_labels(#[trigger] x[i])
            == lower_labels(y[i]) by {
            assert(x[i] == names@[i]@ && y[i] == others@[i]@);
        }
    }
    if let Some(found) = spelled_names {
        let z = spelled(texts@).unwrap();
        assert(name_views(found@) == z);
        assert(found@.len() == name_views(found@).len());
        assert forall|i: int| 0 <= i < texts@.len() implies ascii_name(
            (#[trigger] texts@[i]).spec_bytes(),
        ) == Some(found@[i]@) by {
            assert(name_views(found@)[i] == found@[i]@);
            assert(z[i] == ascii_name(texts@[i].spec_bytes()).unwrap());
        }
        lemma_same_names(x, z);
        if r matches Some(true) {
            assert forall|i: int| 0 <= i < names@.len() implies lower_labels(
                (#[trigger] names@[i])@,
            ) == lower_labels(ascii_name(texts@[i].spec_bytes())->Some_0) by {
                assert(x[i] == names@[i]@);
                assert(z[i] == ascii_name(texts@[i].spec_bytes()).unwrap());
            }
        }
        if names@.len() == texts@.len() && forall|i: int|
            0 <= i < names@.len() ==> lower_labels((#[trigger] names@[i])@) == lower_labels(
                ascii_name(texts@[i].spec_bytes())->Some_0,
            ) {
            assert forall|i: int| 0 <= i < x.len() implies lower_labels(#[trigger] x[i])
                == lower_labels(z[i]) by {
                assert(x[i] == names@[i]@);
                assert(z[i] == ascii_name(texts@[i].spec_bytes()).unwrap());
            }
        }
    }
}

proof fn lemma_same_names(a: Seq<Seq<Seq<u8>>>, b: Seq<Seq<Seq<u8>>>)
    ensures
        same_names(a, b) <==> a.len() == b.len() && forall|i: int|
            0 <= i < a.len() ==> lower_labels(#[trigger] a[i]) == lower_labels(b[i]),
{
    if same_names(a, b) {
        assert forall|i: int| 0 <= i < a.len() implies lower_labels(#[trigger] a[i])
            == lower_labels(b[i]) by {
            law_same_names_are_the_same_in_small_letters(a[i], b[i]);
        }
    }
    if a.len() == b.len() && forall|i: int|
        0 <= i < a.len() ==> lower_labels(#[trigger] a[i]) == lower_labels(b[i]) {
        assert forall|i: int| 0 <= i < a.len() implies crate::name::same_name(
            #[trigger] a[i],
            b[i],
        ) by {
            law_same_names_are_the_same_in_small_letters(a[i], b[i]);
        }
    }
}

/// What a keyset holds: trust comes from the parent where the zone is delegated, and else from the
/// trusted key; its records are the keys, their signatures, what the parent vouches with, and the
/// answer, which the key that is not trusted by itself signs unless there is only one.
pub proof fn law_what_a_keyset_holds<
    F: Fn(&Signer, &Vec<u8>) -> Vec<u8>,
    D: Fn(&Vec<u8>) -> Vec<u8>,
>(
    sign: F,
    digest: D,
    delegated: bool,
    kind: KeysetSignature,
    single_key: bool,
    trusted: Signer,
    untrusted: Signer,
    parent: Signer,
    now: u32,
    r: Keyset,
)
    requires
        keyset_for(
            sign,
            digest,
            delegated,
            kind,
            single_key,
            trusted,
            untrusted,
            parent,
            now,
            r,
        ),
    ensures
        delegated ==> r.anchor@ == parent@.key,
        !delegated ==> r.anchor@ == trusted@.key,
        record_views(r.keys@) == zone_keys(single_key, trusted@, untrusted@),
        r.answer@ == zone_answer(),
        exists|signatures: Seq<RecordView>, vouching: Seq<RecordView>, answers: Seq<RecordView>|
            {
                &&& record_views(r.records@) == #[trigger] (zone_keys(
                    single_key,
                    trusted@,
                    untrusted@,
                ) + signatures + vouching + answers)
                &&& crate::keyset::keys_signed(
                    sign,
                    kind,
                    zone_keys(single_key, trusted@, untrusted@),
                    trusted,
                    untrusted,
                    now,
                    signatures,
                )
                &&& crate::keyset::delegated_by(
                    sign,
                    digest,
                    delegated,
                    trusted,
                    parent,
                    now,
                    vouching,
                )
                &&& answers.len() == 2
                &&& answers[1] == zone_answer()
                &&& single_key ==> signed_by(sign, trusted, seq![zone_answer()], now, 60, answers[0])
                &&& !single_key ==> signed_by(
                    sign,
                    untrusted,
                    seq![zone_answer()],
                    now,
                    60,
                    answers[0],
                )
            },
{
    let (signatures, vouching, answers) = choose|
        signatures: Seq<RecordView>,
        vouching: Seq<RecordView>,
        answers: Seq<RecordView>,
    |
        #[trigger] crate::keyset::zone_records(
            sign,
            digest,
            delegated,
            kind,
            single_key,
            trusted,
            untrusted,
            parent,
            now,
            signatures,
            vouching,
            answers,
        ) && record_views(r.records@) == zone_keys(single_key, trusted@, untrusted@) + signatures
            + vouching + answers;
    assert(record_views(r.records@) == zone_keys(single_key, trusted@, untrusted@) + signatures
        + vouching + answers);
}

/// What is asked of a validator, and whether it asked for a delegation exactly where there is one.
pub proof fn law_what_is_asked_of_a_validator(
    asked: Vec<Query>,
    queries: Vec<Query>,
    delegated: bool,
    r: bool,
)
    requires
        call_ensures(keyset_queries, (), asked),
        call_ensures(check_delegation, (&queries, delegated), r),
    ensures
        query_views(asked@).len() == 2,
        query_views(asked@)[0].name == seq![example()],
        query_views(asked@)[0].query_type == RecordType::DNSKEY,
        query_views(asked@)[0].query_class == 1,
        query_views(asked@)[1].name == seq![www(), example()],
        query_views(asked@)[1].query_type == RecordType::A,
        query_views(asked@)[1].query_class == 1,
        r <==> (delegated <==> exists|i: int|
            0 <= i < query_views(queries@).len() && (#[trigger] query_views(queries@)[i]).query_type
                == RecordType::DS),
{
    law_local_names_in_bytes();
}

/// A signed zone serves its key, and each address behind which the signature of the true address
/// stands: where the zone is tampered with, another address is served beside it.
pub proof fn law_what_a_signed_zone_serves<F: Fn(&Signer, &Vec<u8>) -> Vec<u8>>(
    tampered: bool,
    trusted: bool,
    signer: Signer,
    now: u32,
    sign: F,
    zone: SignedZone,
)
    requires
        call_ensures(SignedZone::new::<F>, (tampered, trusted, &signer, now, &sign), zone),
    ensures
        zone@.trusted == trusted,
        zone@.dnskey.len() == 2 && zone@.ipv4.len() == 2 && zone@.ipv6.len() == 2,
        zone@.dnskey[0].name == seq![example(), com()] && zone@.dnskey[0].data == RDataView::Dnskey(
            signer@.key,
        ),
        tells_of_www(
            zone@.ipv4[0],
            if tampered {
                www_ipv4().update(3, 15)
            } else {
                www_ipv4()
            },
            RecordType::A,
        ),
        tells_of_www(
            zone@.ipv6[0],
            if tampered {
                www_ipv6().update(15, 0x2d)
            } else {
                www_ipv6()
            },
            RecordType::AAAA,
        ),
        exists|true_ipv4: RecordView|
            #[trigger] tells_of_www(true_ipv4, www_ipv4(), RecordType::A) && signed_by(
                sign,
                signer,
                seq![true_ipv4],
                now,
                60,
                zone@.ipv4[1],
            ),
        exists|true_ipv6: RecordView|
            #[trigger] tells_of_www(true_ipv6, www_ipv6(), RecordType::AAAA) && signed_by(
                sign,
                signer,
                seq![true_ipv6],
                now,
                60,
                zone@.ipv6[1],
            ),
        signed_by(sign, signer, seq![zone@.dnskey[0]], now, 60, zone@.dnskey[1]),
{
    law_local_names_in_bytes();
    crate::zone_laws::law_addresses_that_are_served(0);
    crate::zone_laws::law_addresses_that_are_served(2);
    let a = crate::wire_fixture::www_record(crate::wire_fixture::local_ipv4());
    let b = crate::wire_fixture::www_record(crate::wire_fixture::local_ipv6());
    assert(tells_of_www(a, www_ipv4(), RecordType::A));
    assert(tells_of_www(b, www_ipv6(), RecordType::AAAA));
    assert(www_ipv4().update(3, 15) =~= seq![93u8, 184, 215, 15]);
}

/// The names that a server is asked for by all four lookups.
pub proof fn law_names_that_are_asked_for(trusted: bool, r: Vec<Name>)
    requires
        call_ensures(expected_names, (trusted,), r),
    ensures
        name_views(r@) == crate::signed_lookup::names_of_lookups(trusted, 4),
        r@.len() == if trusted {
            8nat
        } else {
            20
        },
{
    crate::zone_laws::law_names_of_lookups(trusted, 4);
    assert(name_views(r@).len() == r@.len());
}

} // verus!
