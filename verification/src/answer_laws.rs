//! What clients read from the replies of the local servers, and which requests get one.

use vstd::prelude::*;

use crate::config::IpAddress;
use crate::local_dns::{
    datagram_fault, is_address, law_local_round_trip, names_after, query_fault, response_with,
    takes, turn_for, Received, Turn, WorkerFault,
};
use crate::local_name_laws::{com, example, law_local_names_in_bytes, www};
use crate::lookups::{
    law_lookup_round_trip, lookup_address, lookup_data, lookup_fault, lookup_reply, lookup_type,
    COUNT,
};
use crate::message::{
    bare_message, empty_header, payload, same_query, EdnsView, Header, MessageType, MessageView,
    QueryView,
};
use crate::name::lower_labels;
use crate::name_laws::law_same_names_are_the_same_in_small_letters;
use crate::record::{data_type, RDataView, RecordType, RecordView};
use crate::replies::{
    answer_message, answerable, law_reply_is_read, message_fault, request_fault, RequestFault,
};
use crate::wire_fixture::{lemma_www_answerable, local_ipv4, local_ipv6, www_query, www_record};
use crate::wire_format::{data_bytes, message_bytes, message_ok, read_message};
use crate::wire_layout_laws::{law_ipv4_in_bytes, law_ipv6_in_bytes};

verus! {

/// A message without anything in it: it asks, it is a standard query, and no bit of it is set.
pub proof fn law_an_empty_message_asks_nothing()
    ensures
        ({
            let m = bare_message(empty_header());
            &&& m.header.id == 0
            &&& m.header.message_type == MessageType::Query
            &&& m.header.op_code == 0 && m.header.response_code == 0
            &&& !m.header.authoritative && !m.header.truncated && !m.header.recursion_desired
            &&& !m.header.recursion_available && !m.header.authentic_data
            &&& !m.header.checking_disabled
            &&& m.queries.len() == 0 && m.answers.len() == 0
            &&& m.name_servers.len() == 0 && m.additionals.len() == 0
            &&& m.edns is None
        }),
{
}

/// What the requester of a message takes: 512 bytes without extension options, and with them as many
/// as they say, but 512 at least.
pub proof fn law_payloads(e: EdnsView)
    ensures
        payload(None) == 512,
        payload(Some(e)) == vstd::math::max(512, e.max_payload as int),
{
}

/// Two questions are the same for the same name in whatever case, the same type and the same class.
pub proof fn law_same_questions(a: QueryView, b: QueryView)
    ensures
        same_query(a, b) <==> lower_labels(a.name) == lower_labels(b.name) && a.query_type
            == b.query_type && a.query_class == b.query_class,
{
    law_same_names_are_the_same_in_small_letters(a.name, b.name);
}

/// Whether a client reads from the message that all is well and nothing else is said: it is a
/// complete response without an error, and no bit of it is set but for the one that says so.
pub open spec fn plain_response(h: Header) -> bool {
    &&& h.message_type == MessageType::Response
    &&& h.op_code == 0
    &&& h.response_code == 0
    &&& !h.truncated && !h.authoritative && !h.authentic_data
    &&& !h.recursion_desired && !h.recursion_available && !h.checking_disabled
}

/// What a client reads from a reply, field by field: its identifier and its question come back, the
/// answer is the one record, and nothing went wrong.
pub proof fn law_replies_say_what_was_asked(id: u16, query: QueryView, record: RecordView)
    requires
        answerable(query, record),
    ensures
        read_message(message_bytes(answer_message(id, query, record))) matches Some(m) && {
            &&& m.header.id == id
            &&& plain_response(m.header)
            &&& m.queries == seq![query]
            &&& m.answers == seq![record]
            &&& m.name_servers.len() == 0
            &&& m.additionals.len() == 0
            &&& m.edns is None
        },
{
    law_reply_is_read(id, query, record);
}

/// Which requests are taken: readable ones that ask, where it matters by a standard query, and whose
/// one question is the expected one, in whatever case its name is written. What is wrong with others
/// is the first of these that fails.
pub proof fn law_which_requests_are_taken(bytes: Seq<u8>, query: QueryView, standard: bool)
    ensures
        request_fault(bytes, query, standard) == match read_message(bytes) {
            None => Some(RequestFault::Unreadable),
            Some(m) => if m.header.message_type == MessageType::Response {
                Some(RequestFault::NotAQuery)
            } else if standard && m.header.op_code > 0 {
                Some(RequestFault::NotStandard)
            } else if m.queries.len() == 1 && lower_labels(m.queries[0].name) == lower_labels(
                query.name,
            ) && m.queries[0].query_type == query.query_type && m.queries[0].query_class
                == query.query_class {
                None
            } else {
                Some(RequestFault::OtherQuestions)
            },
        },
{
    if let Some(m) = read_message(bytes) {
        if m.queries.len() == 1 {
            law_same_questions(m.queries[0], query);
        }
    }
}

/// Whether this is the one question for the address records of `www.example.com.`
pub open spec fn asks_for_www(q: QueryView, query_type: RecordType) -> bool {
    &&& q.name == seq![www(), example(), com()]
    &&& q.query_type == query_type
    &&& q.query_class == 1
}

/// Whether this is a record of `www.example.com.` with this data, to be kept for a minute.
pub open spec fn tells_of_www(r: RecordView, data: Seq<u8>, data_type: RecordType) -> bool {
    &&& r.name == seq![www(), example(), com()]
    &&& r.class == 1
    &&& r.ttl == 60
    &&& crate::record::data_type(r.data) == data_type
    &&& data_bytes(r.data) == data
}

/// The bytes of 93.184.215.14.
pub open spec fn www_ipv4() -> Seq<u8> {
    seq![93u8, 184, 215, 14]
}

/// The bytes of 2606:2800:21f:cb07:6820:80da:af6b:8b2c.
pub open spec fn www_ipv6() -> Seq<u8> {
    seq![
        0x26u8,
        0x06,
        0x28,
        0x00,
        0x02,
        0x1f,
        0xcb,
        0x07,
        0x68,
        0x20,
        0x80,
        0xda,
        0xaf,
        0x6b,
        0x8b,
        0x2c,
    ]
}

pub proof fn lemma_addresses()
    ensures
        data_bytes(local_ipv4()) == www_ipv4(),
        data_bytes(local_ipv6()) == www_ipv6(),
{
    law_ipv4_in_bytes(93, 184, 215, 14);
    law_ipv6_in_bytes(0x2606, 0x2800, 0x21f, 0xcb07, 0x6820, 0x80da, 0xaf6b, 0x8b2c);
    assert(data_bytes(local_ipv6()) =~= www_ipv6());
}

/// What a client reads from the reply to a lookup: the first two of the four find the IPv4 address,
/// the other two the IPv6 address. The identifier is its own, the question is the one that such a
/// lookup asks, and nothing went wrong.
pub proof fn law_lookups_find_the_addresses(bytes: Seq<u8>, index: nat)
    requires
        lookup_fault(bytes, index) is None,
    ensures
        COUNT == 4,
        read_message(lookup_reply(bytes, index)) matches Some(m) && {
            &&& m.header.id == read_message(bytes).unwrap().header.id
            &&& plain_response(m.header)
            &&& m.queries.len() == 1 && m.answers.len() == 1
            &&& m.name_servers.len() == 0 && m.additionals.len() == 0 && m.edns is None
            &&& index < 2 ==> asks_for_www(m.queries[0], RecordType::A) && tells_of_www(
                m.answers[0],
                www_ipv4(),
                RecordType::A,
            )
            &&& index >= 2 ==> asks_for_www(m.queries[0], RecordType::AAAA) && tells_of_www(
                m.answers[0],
                www_ipv6(),
                RecordType::AAAA,
            )
        },
{
    lemma_www_answerable();
    law_local_names_in_bytes();
    lemma_addresses();
    law_reply_is_read(
        read_message(bytes).unwrap().header.id,
        www_query(lookup_type(index)),
        www_record(lookup_data(index)),
    );
}

/// Which requests the lookups take: those for the addresses of the name, of the first two for IPv4
/// and of the others for IPv6, whatever the operation is.
pub proof fn law_which_lookups_are_taken(m: MessageView, index: nat)
    requires
        message_ok(m),
        m.header.message_type == MessageType::Query,
        m.queries.len() == 1,
        lower_labels(m.queries[0].name) == lower_labels(seq![www(), example(), com()]),
        m.queries[0].query_class == 1,
        m.queries[0].query_type == if index < 2 {
            RecordType::A
        } else {
            RecordType::AAAA
        },
    ensures
        lookup_fault(message_bytes(m), index) is None,
{
    lemma_asks_a_lookup(m, index);
    law_lookup_round_trip(m, index);
}

proof fn lemma_asks_a_lookup(m: MessageView, index: nat)
    requires
        m.header.message_type == MessageType::Query,
        m.queries.len() == 1,
        lower_labels(m.queries[0].name) == lower_labels(seq![www(), example(), com()]),
        m.queries[0].query_class == 1,
        m.queries[0].query_type == if index < 2 {
            RecordType::A
        } else {
            RecordType::AAAA
        },
    ensures
        message_fault(m, www_query(lookup_type(index)), false) is None,
{
    law_local_names_in_bytes();
    law_same_questions(m.queries[0], www_query(lookup_type(index)));
}

/// The addresses that are checked for are those that the replies hold.
pub proof fn law_checked_addresses(index: nat)
    ensures
        match lookup_address(index) {
            IpAddress::V4(address) => index < 2 && data_bytes(RDataView::A(address)) == www_ipv4(),
            IpAddress::V6 { hi, lo } => index >= 2 && data_bytes(RDataView::Aaaa { hi, lo })
                == www_ipv6(),
        },
{
    lemma_addresses();
}

/// What a client reads from the reply of the plain servers: its identifier, its question, and the
/// IPv4 address.
pub proof fn law_plain_servers_find_the_address(bytes: Seq<u8>)
    requires
        request_fault(bytes, www_query(RecordType::A), true) is None,
    ensures
        read_message(
            message_bytes(
                answer_message(
                    read_message(bytes).unwrap().header.id,
                    www_query(RecordType::A),
                    www_record(local_ipv4()),
                ),
            ),
        ) matches Some(m) && {
            &&& m.header.id == read_message(bytes).unwrap().header.id
            &&& plain_response(m.header)
            &&& m.queries.len() == 1 && asks_for_www(m.queries[0], RecordType::A)
            &&& m.answers.len() == 1 && tells_of_www(m.answers[0], www_ipv4(), RecordType::A)
            &&& m.name_servers.len() == 0 && m.additionals.len() == 0 && m.edns is None
        },
{
    lemma_www_answerable();
    law_local_names_in_bytes();
    lemma_addresses();
    law_reply_is_read(
        read_message(bytes).unwrap().header.id,
        www_query(RecordType::A),
        www_record(local_ipv4()),
    );
}

/// Whether the response speaks with authority, offers recursion, repeats the wish for it, and says
/// nothing else.
pub open spec fn authoritative_response(h: Header, m: MessageView) -> bool {
    &&& h.id == m.header.id
    &&& h.message_type == MessageType::Response
    &&& h.op_code == 0
    &&& h.authoritative && h.recursion_available
    &&& h.recursion_desired == m.header.recursion_desired
    &&& !h.truncated && !h.authentic_data && !h.checking_disabled
}

/// Whether the response holds the answer under the name as it was asked for, to be kept for a
/// minute.
pub open spec fn tells_the_answer(r: MessageView, m: MessageView, answer: RDataView) -> bool {
    &&& r.header.response_code == 0
    &&& r.answers.len() == 1 && r.name_servers.len() == 0
    &&& r.answers[0].name == m.queries[0].name
    &&& r.answers[0].class == 1
    &&& r.answers[0].ttl == 60
    &&& r.answers[0].data == answer
}

/// Whether the response says that the name does not exist, with the start of authority of
/// `example.com.`
pub open spec fn denies_the_name(r: MessageView) -> bool {
    &&& r.header.response_code == 3
    &&& r.answers.len() == 0 && r.name_servers.len() == 1
    &&& r.name_servers[0].name == seq![example(), com()]
    &&& r.name_servers[0].class == 1
    &&& r.name_servers[0].ttl == 60
    &&& r.name_servers[0].data matches RDataView::Soa(soa) && {
        &&& soa.mname == seq![seq![0x6eu8, 0x73], example(), com()]
        &&& soa.rname == seq![
            seq![0x68u8, 0x6f, 0x73, 0x74, 0x6d, 0x61, 0x73, 0x74, 0x65, 0x72],
            example(),
            com(),
        ]
        &&& soa.serial == 1 && soa.refresh == 60 && soa.retry == 60
        &&& soa.expire == 60 && soa.minimum == 60
    }
}

/// What a response of a local server that knows one address says.
pub open spec fn knows_one_name(r: MessageView, m: MessageView, answer: RDataView) -> bool {
    &&& authoritative_response(r.header, m)
    &&& r.queries == seq![m.queries[0]]
    &&& r.additionals.len() == 0 && r.edns is None
    &&& if lower_labels(m.queries[0].name) == lower_labels(seq![www(), example(), com()]) {
        tells_the_answer(r, m, answer)
    } else {
        denies_the_name(r)
    }
}

pub proof fn lemma_knows_one_name(m: MessageView, answer: RDataView)
    ensures
        knows_one_name(response_with(m, answer), m, answer),
{
    law_local_names_in_bytes();
    law_same_names_are_the_same_in_small_letters(
        m.queries[0].name,
        seq![www(), example(), com()],
    );
}

/// What a client reads from a local server that knows one address: for `www.example.com.`, in
/// whatever case, the address under the name as it was asked for; for any other name that it does
/// not exist, with the start of authority of `example.com.`
pub proof fn law_local_servers_know_one_name(m: MessageView, answer: RDataView)
    requires
        message_ok(m),
        query_fault(m) is None,
        is_address(answer),
    ensures
        read_message(message_bytes(response_with(m, answer))) matches Some(r) && knows_one_name(
            r,
            m,
            answer,
        ),
{
    lemma_knows_one_name(m, answer);
    law_local_round_trip(m, answer);
}

/// Which requests a local server answers: its worker takes every readable standard query for one
/// question of the Internet class, and gives up on any other datagram with the first thing that is
/// wrong; and the server takes questions for the type of its address.
pub proof fn law_which_datagrams_are_answered(bytes: Seq<u8>, answer: RDataView)
    ensures
        datagram_fault(bytes) == match read_message(bytes) {
            None => Some(WorkerFault::Unreadable),
            Some(m) => if m.header.message_type == MessageType::Response {
                Some(WorkerFault::NotAQuery)
            } else if m.header.op_code > 0 {
                Some(WorkerFault::NotStandard)
            } else if m.queries.len() != 1 {
                Some(WorkerFault::NotOneQuestion)
            } else if m.queries[0].query_class != 1 {
                Some(WorkerFault::OtherClass)
            } else {
                None
            },
        },
        read_message(bytes) matches Some(m) ==> (takes(m, answer) <==> m.queries.len() > 0
            && m.queries[0].query_type == data_type(answer)),
        is_address(answer) <==> data_type(answer) == RecordType::A && answer is A || answer is Aaaa
            && data_type(answer) == RecordType::AAAA,
{
}

/// A worker keeps the name of every question that it answers, once, behind those it has; a datagram
/// that it does not answer leaves no trace.
pub proof fn law_answered_names_are_kept(
    names: Seq<Seq<Seq<u8>>>,
    bytes: Vec<u8>,
    received: Received,
    stopping: bool,
)
    ensures
        datagram_fault(bytes@) is None ==> names_after(names, Received::Datagram(bytes), false)
            == names.push(read_message(bytes@).unwrap().queries[0].name),
        datagram_fault(bytes@) is Some ==> names_after(names, Received::Datagram(bytes), false)
            == names,
        names_after(names, received, true) == names,
        names_after(names, Received::Nothing, stopping) == names,
        names_after(names, Received::Failed, stopping) == names,
{
}

/// A response that can be written is sent as its bytes, up to 65535 of them; the worker gives up on
/// any other.
pub proof fn law_writable_responses_are_sent(response: MessageView, turn: Turn)
    requires
        turn_for(response, turn),
    ensures
        message_ok(response) && message_bytes(response).len() <= 65535 ==> (turn matches Turn::Reply(
            bytes,
        ) && bytes@ == message_bytes(response)),
        !message_ok(response) || message_bytes(response).len() > 65535 ==> turn == Turn::GiveUp(
            WorkerFault::Unwritable,
        ),
{
}

} // verus!
