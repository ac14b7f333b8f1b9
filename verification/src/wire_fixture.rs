//! The reply that a local server gives to clients over plain datagrams and streams.

use vstd::prelude::*;

use crate::local_names::{lemma_local_names, www_example_com, www_name};
use crate::message::{MessageView, Query, QueryView};
use crate::record::{
    ipv4, ipv6_half, RData, RDataView, Record, RecordType, RecordView, CLASS_IN,
};
use crate::replies::{
    answer_bytes, answer_message, answerable, law_reply_is_read, law_request_is_taken,
    message_fault, open_request, request_fault, RequestFault,
};
use crate::wire_format::{message_bytes, message_ok, read_message};

verus! {

/// The time that an answer of a local server may be kept, in seconds.
pub const ANSWER_TTL: u32 = 60;

/// The address 93.184.215.14.
pub open spec fn local_ipv4() -> RDataView {
    RDataView::A(ipv4(93, 184, 215, 14) as u32)
}

/// The address 2606:2800:21f:cb07:6820:80da:af6b:8b2c.
pub open spec fn local_ipv6() -> RDataView {
    RDataView::Aaaa {
        hi: ipv6_half(0x2606, 0x2800, 0x21f, 0xcb07) as u64,
        lo: ipv6_half(0x6820, 0x80da, 0xaf6b, 0x8b2c) as u64,
    }
}

/// A question for `www.example.com.`
pub open spec fn www_query(query_type: RecordType) -> QueryView {
    QueryView { name: www_example_com(), query_type, query_class: CLASS_IN }
}

/// A record of `www.example.com.`
pub open spec fn www_record(data: RDataView) -> RecordView {
    RecordView { name: www_example_com(), class: CLASS_IN, ttl: ANSWER_TTL, data }
}

/// The two address questions for the name can be answered.
pub proof fn lemma_www_answerable()
    ensures
        answerable(www_query(RecordType::A), www_record(local_ipv4())),
        answerable(www_query(RecordType::AAAA), www_record(local_ipv6())),
{
    lemma_local_names();
}

/// The address record of the name.
pub fn answer() -> (r: Record)
    ensures
        r@ == www_record(local_ipv4()),
{
    Record::from_rdata(www_name(), ANSWER_TTL, RData::a(93, 184, 215, 14))
}

/// The identifier of a standard query for the address of the name, or what is wrong with the
/// request.
pub fn check_request(bytes: &[u8]) -> (r: Result<u16, RequestFault>)
    ensures
        match r {
            Ok(id) => request_fault(bytes@, www_query(RecordType::A), true) is None && id
                == read_message(bytes@).unwrap().header.id,
            Err(fault) => request_fault(bytes@, www_query(RecordType::A), true) == Some(fault),
        },
{
    open_request(bytes, &Query::query(www_name(), RecordType::A), true)
}

/// The reply to a standard query for the address of the name.
pub fn reply(bytes: &[u8]) -> (r: Vec<u8>)
    requires
        request_fault(bytes@, www_query(RecordType::A), true) is None,
    ensures
        r@ == message_bytes(
            answer_message(
                read_message(bytes@).unwrap().header.id,
                www_query(RecordType::A),
                www_record(local_ipv4()),
            ),
        ),
{
    let id: u16 = match check_request(bytes) {
        Ok(id) => id,
        Err(_) => 0,
    };
    proof {
        lemma_www_answerable();
    }
    answer_bytes(id, Query::query(www_name(), RecordType::A), answer())
}

/// A client that asks for the address of the name is answered: from the bytes of its request to the
/// response that it reads, which repeats its identifier and its question and holds the address.
pub proof fn law_fixture_round_trip(m: MessageView)
    requires
        message_ok(m),
        message_fault(m, www_query(RecordType::A), true) is None,
    ensures
        request_fault(message_bytes(m), www_query(RecordType::A), true) is None,
        read_message(
            message_bytes(
                answer_message(
                    read_message(message_bytes(m)).unwrap().header.id,
                    www_query(RecordType::A),
                    www_record(local_ipv4()),
                ),
            ),
        ) == Some(
            answer_message(m.header.id, www_query(RecordType::A), www_record(local_ipv4())),
        ),
{
    law_request_is_taken(m, www_query(RecordType::A), true, Seq::empty());
    assert(message_bytes(m) + Seq::<u8>::empty() =~= message_bytes(m));
    lemma_www_answerable();
    law_reply_is_read(m.header.id, www_query(RecordType::A), www_record(local_ipv4()));
}

} // verus!
