//! Replies to a request that must ask one particular question.

use vstd::prelude::*;

use crate::message::{
    bare_message, empty_header, same_query, Header, Message, MessageType, MessageView, Query,
    QueryView, OP_QUERY,
};
use crate::name::labels_len;
use crate::record::{data_type, Record, RecordType, RecordView};
use crate::wire_format::{
    data_bytes, message_bytes, message_ok, query_ok, read_message, record_ok, MAX_MESSAGE,
};
use crate::wire_laws::law_message_is_read_back;
use crate::wire_sizes::{lemma_answer_len, lemma_one_record_len};

verus! {

/// What is wrong with a request.
#[derive(Debug, Clone, Copy, PartialEq, Eq, Structural)]
pub enum RequestFault {
    /// The bytes stand for no message.
    Unreadable,
    /// The message is a response.
    NotAQuery,
    /// The operation is not a standard query.
    NotStandard,
    /// The questions are not the one that was expected.
    OtherQuestions,
}

/// What is wrong with a message that must be a query for the one question, if anything is.
/// `standard` tells whether it must be a standard query as well.
pub open spec fn message_fault(m: MessageView, query: QueryView, standard: bool) -> Option<
    RequestFault,
> {
    if m.header.message_type != MessageType::Query {
        Some(RequestFault::NotAQuery)
    } else if standard && m.header.op_code != OP_QUERY {
        Some(RequestFault::NotStandard)
    } else if !(m.queries.len() == 1 && same_query(m.queries[0], query)) {
        Some(RequestFault::OtherQuestions)
    } else {
        None
    }
}

/// What is wrong with the bytes of a request, if anything is.
pub open spec fn request_fault(bytes: Seq<u8>, query: QueryView, standard: bool) -> Option<
    RequestFault,
> {
    match read_message(bytes) {
        None => Some(RequestFault::Unreadable),
        Some(m) => message_fault(m, query, standard),
    }
}

/// The response that repeats the question and holds one answer.
pub open spec fn answer_message(id: u16, query: QueryView, record: RecordView) -> MessageView {
    MessageView {
        queries: seq![query],
        answers: seq![record],
        ..bare_message(Header { id, message_type: MessageType::Response, ..empty_header() })
    }
}

/// A question and an answer that fit into one message.
pub open spec fn answerable(query: QueryView, record: RecordView) -> bool {
    &&& query_ok(query)
    &&& record_ok(record)
    &&& data_type(record.data) != RecordType::OPT
    &&& 28 + labels_len(query.name) + labels_len(record.name) + data_bytes(record.data).len()
        <= MAX_MESSAGE
}

proof fn lemma_answer_message(id: u16, query: QueryView, record: RecordView)
    requires
        answerable(query, record),
    ensures
        message_ok(answer_message(id, query, record)),
        message_bytes(answer_message(id, query, record)).len() == 28 + labels_len(query.name)
            + labels_len(record.name) + data_bytes(record.data).len(),
{
    let m = answer_message(id, query, record);
    lemma_answer_len(m);
    lemma_one_record_len(record);
}

/// A reply is read as a response with the identifier that was asked, the question and the answer.
pub proof fn law_reply_is_read(id: u16, query: QueryView, record: RecordView)
    requires
        answerable(query, record),
    ensures
        read_message(message_bytes(answer_message(id, query, record))) == Some(
            answer_message(id, query, record),
        ),
{
    let m = answer_message(id, query, record);
    lemma_answer_message(id, query, record);
    law_message_is_read_back(m, Seq::empty());
    assert(message_bytes(m) + Seq::<u8>::empty() =~= message_bytes(m));
}

/// A request that a client puts into bytes, for the question that the server waits for, is taken:
/// nothing is wrong with it, and its identifier is the one that the reply repeats.
pub proof fn law_request_is_taken(m: MessageView, query: QueryView, standard: bool, behind: Seq<u8>)
    requires
        message_ok(m),
        message_fault(m, query, standard) is None,
    ensures
        request_fault(message_bytes(m) + behind, query, standard) is None,
        read_message(message_bytes(m) + behind).unwrap().header.id == m.header.id,
{
    law_message_is_read_back(m, behind);
}

/// The identifier of a request for the one question, or what is wrong with the request.
pub fn open_request(bytes: &[u8], query: &Query, standard: bool) -> (r: Result<u16, RequestFault>)
    ensures
        match r {
            Ok(id) => request_fault(bytes@, query@, standard) is None && id == read_message(
                bytes@,
            ).unwrap().header.id,
            Err(fault) => request_fault(bytes@, query@, standard) == Some(fault),
        },
{
    let request = match Message::from_vec(bytes) {
        Some(m) => m,
        None => return Err(RequestFault::Unreadable),
    };
    if request.header.message_type != MessageType::Query {
        return Err(RequestFault::NotAQuery);
    }
    if standard && request.header.op_code != OP_QUERY {
        return Err(RequestFault::NotStandard);
    }
    assert(request@.queries.len() == request.queries@.len());
    if request.queries.len() != 1 || !request.queries[0].same_as(query) {
        return Err(RequestFault::OtherQuestions);
    }
    Ok(request.header.id)
}

/// The response that repeats the question and holds one answer.
pub fn answer_with(id: u16, query: Query, record: Record) -> (r: Message)
    ensures
        r@ == answer_message(id, query@, record@),
{
    let mut response = Message::new();
    response.header.id = id;
    response.header.message_type = MessageType::Response;
    response.add_query(query);
    response.add_answer(record);
    assert(response@.queries =~= seq![query@]);
    assert(response@.answers =~= seq![record@]);
    response
}

/// The bytes of the response that repeats the question and holds one answer.
pub fn answer_bytes(id: u16, query: Query, record: Record) -> (r: Vec<u8>)
    requires
        answerable(query@, record@),
    ensures
        r@ == message_bytes(answer_message(id, query@, record@)),
        r.len() == 28 + labels_len(query@.name) + labels_len(record@.name) + data_bytes(
            record@.data,
        ).len(),
{
    proof {
        lemma_answer_message(id, query@, record@);
    }
    match answer_with(id, query, record).to_vec() {
        Some(bytes) => bytes,
        None => Vec::new(),
    }
}

/// The message that the bytes stand for, put into bytes again: what a server answers that sends
/// everything back. None where the bytes stand for no message, or the message written out is too
/// long.
pub fn echo(bytes: &[u8]) -> (r: Option<Vec<u8>>)
    ensures
        match r {
            Some(out) => read_message(bytes@) is Some && message_ok(read_message(bytes@).unwrap())
                && out@ == message_bytes(read_message(bytes@).unwrap()) && out.len() <= MAX_MESSAGE,
            None => read_message(bytes@) is None || !message_ok(read_message(bytes@).unwrap())
                || message_bytes(read_message(bytes@).unwrap()).len() > MAX_MESSAGE,
        },
{
    match Message::from_vec(bytes) {
        Some(message) => message.to_vec(),
        None => None,
    }
}

} // verus!
