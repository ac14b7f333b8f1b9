//! A server that holds signed records and answers with those that match the question.

use vstd::prelude::*;

use crate::message::{
    bare_message, empty_header, query_views, record_views, Header, Message, MessageType,
    MessageView, Query, QueryView,
};
use crate::name::same_name;
use crate::record::{data_type, RData, RDataView, Record, RecordView};
use crate::wire_format::{message_bytes, message_ok, MAX_MESSAGE};

verus! {

/// Whether a record answers a question: it is of the name and of the type, or a signature over
/// records of that type.
pub open spec fn answers_query(r: RecordView, q: QueryView) -> bool {
    &&& same_name(r.name, q.name)
    &&& data_type(r.data) == q.query_type || (r.data matches RDataView::Rrsig(rrsig)
        && rrsig.type_covered == q.query_type)
}

/// The records that answer a question, in their order.
pub open spec fn matching(records: Seq<RecordView>, q: QueryView) -> Seq<RecordView> {
    records.filter(|r: RecordView| answers_query(r, q))
}

/// The response to a request. It claims that the records were validated, which nobody may rely on.
pub open spec fn signed_response(m: MessageView, records: Seq<RecordView>) -> MessageView {
    MessageView {
        queries: seq![m.queries[0]],
        answers: matching(records, m.queries[0]),
        ..bare_message(
            Header {
                id: m.header.id,
                message_type: MessageType::Response,
                authoritative: true,
                authentic_data: true,
                ..empty_header()
            },
        )
    }
}

/// Whether the request asks for signatures.
pub open spec fn asks_for_signatures(m: MessageView) -> bool {
    m.edns matches Some(e) && e.dnssec_ok
}

/// Why a request is not answered.
#[derive(Debug, Clone, Copy, PartialEq, Eq, Structural)]
pub enum SendFault {
    /// There is no question.
    NoQuestion,
    /// The request does not ask for signatures.
    NotSigned,
    /// No record answers the question.
    NoAnswers,
    /// The response cannot be put into bytes.
    Unwritable,
}

/// What is wrong with a request, if anything is.
pub open spec fn send_fault(m: MessageView, records: Seq<RecordView>) -> Option<SendFault> {
    if m.queries.len() == 0 {
        Some(SendFault::NoQuestion)
    } else if !asks_for_signatures(m) {
        Some(SendFault::NotSigned)
    } else if matching(records, m.queries[0]).len() == 0 {
        Some(SendFault::NoAnswers)
    } else if !message_ok(signed_response(m, records)) || message_bytes(
        signed_response(m, records),
    ).len() > MAX_MESSAGE {
        Some(SendFault::Unwritable)
    } else {
        None
    }
}

/// A server that holds signed records, and keeps the questions that were put to it.
#[derive(Debug)]
pub struct SignedResponses {
    pub records: Vec<Record>,
    pub queries: Vec<Query>,
}

fn is_answer(record: &Record, query: &Query) -> (r: bool)
    ensures
        r == answers_query(record@, query@),
{
    if !record.name.same_as(&query.name) {
        return false;
    }
    if record.record_type() == query.query_type {
        return true;
    }
    match &record.data {
        RData::Rrsig(rrsig) => rrsig.type_covered == query.query_type,
        _ => false,
    }
}

impl SignedResponses {
    /// A server with these records to which nothing was put yet.
    pub fn new(records: Vec<Record>) -> (r: SignedResponses)
        ensures
            r.records == records,
            query_views(r.queries@).len() == 0,
    {
        SignedResponses { records, queries: Vec::new() }
    }

    /// Copies of the records that answer a question, in their order.
    pub fn answers(&self, query: &Query) -> (r: Vec<Record>)
        ensures
            record_views(r@) == matching(record_views(self.records@), query@),
    {
        let ghost views = record_views(self.records@);
        let mut r: Vec<Record> = Vec::new();
        let mut i: usize = 0;
        proof {
            reveal(Seq::filter);
        }
        assert(record_views(r@) =~= matching(views.take(0), query@));
        while i < self.records.len()
            invariant
                i <= self.records.len(),
                views == record_views(self.records@),
                record_views(r@) == matching(views.take(i as int), query@),
            decreases self.records.len() - i,
        {
            let ghost before = record_views(r@);
            proof {
                reveal(Seq::filter);
                assert(views.take(i + 1).drop_last() =~= views.take(i as int));
                assert(views.take(i + 1).last() == self.records@[i as int]@);
            }
            if is_answer(&self.records[i], query) {
                let record = self.records[i].clone();
                r.push(record);
                assert(record_views(r@) =~= before.push(record@));
            }
            i += 1;
        }
        assert(views.take(i as int) =~= views);
        r
    }

    /// Answers a request, and keeps its question. The question is kept also where no record answers
    /// it.
    pub fn send(&mut self, request: &Message) -> (r: Result<Vec<u8>, SendFault>)
        ensures
            final(self).records == old(self).records,
            query_views(final(self).queries@) == if request@.queries.len() > 0
                && asks_for_signatures(request@) {
                query_views(old(self).queries@).push(request@.queries[0])
            } else {
                query_views(old(self).queries@)
            },
            match r {
                Ok(bytes) => send_fault(request@, record_views(old(self).records@)) is None
                    && bytes@ == message_bytes(
                    signed_response(request@, record_views(old(self).records@)),
                ),
                Err(fault) => send_fault(request@, record_views(old(self).records@)) == Some(fault),
            },
    {
        assert(request@.queries.len() == request.queries@.len());
        if request.queries.len() == 0 {
            return Err(SendFault::NoQuestion);
        }
        let signatures = match &request.edns {
            Some(e) => e.dnssec_ok,
            None => false,
        };
        if !signatures {
            return Err(SendFault::NotSigned);
        }
        let ghost before = query_views(self.queries@);
        let query = request.queries[0].clone();
        assert(query@ == request@.queries[0]);
        self.queries.push(query.clone());
        assert(query_views(self.queries@) =~= before.push(query@));
        let mut response = Message::new();
        response.header.id = request.header.id;
        response.header.message_type = MessageType::Response;
        response.header.authoritative = true;
        response.header.authentic_data = true;
        response.answers = self.answers(&query);
        response.add_query(query);
        assert(response@.queries =~= seq![request@.queries[0]]);
        assert(response@ == signed_response(request@, record_views(self.records@)));
        assert(response@.answers.len() == response.answers@.len());
        if response.answers.len() == 0 {
            return Err(SendFault::NoAnswers);
        }
        match response.to_vec() {
            Some(bytes) => Ok(bytes),
            None => Err(SendFault::Unwritable),
        }
    }
}

/// Every answer is one of the records that the server holds, and answers the question; and every
/// record that answers the question is among the answers.
pub proof fn law_answers_are_the_matching_records(
    records: Seq<RecordView>,
    q: QueryView,
    r: RecordView,
)
    ensures
        matching(records, q).contains(r) == (records.contains(r) && answers_query(r, q)),
    decreases records.len(),
{
    reveal(Seq::filter);
    let all = matching(records, q);
    if records.len() > 0 {
        let front = records.drop_last();
        let before = matching(front, q);
        law_answers_are_the_matching_records(front, q, r);
        assert(records =~= front.push(records.last()));
        if all.contains(r) {
            let i = choose|i: int| 0 <= i < all.len() && all[i] == r;
            if i < before.len() {
                assert(before[i] == r);
            } else {
                assert(records[records.len() - 1] == r);
            }
        }
        if records.contains(r) && answers_query(r, q) {
            let i = choose|i: int| 0 <= i < records.len() && records[i] == r;
            if i < front.len() {
                assert(front[i] == r);
                let j = choose|j: int| 0 <= j < before.len() && before[j] == r;
                assert(all[j] == r);
            } else {
                assert(all[all.len() - 1] == r);
            }
        }
        if front.contains(r) {
            let i = choose|i: int| 0 <= i < front.len() && front[i] == r;
            assert(records[i] == r);
        }
    }
}

} // verus!
