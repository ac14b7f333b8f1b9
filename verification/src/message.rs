//! Messages: a header, questions, three sections of records and the extension options.

use vstd::prelude::*;

use crate::name::{copy_bytes, same_name, Name};
use crate::record::{Record, RecordType, RecordView, CLASS_IN};

verus! {

/// Whether a message asks or answers.
#[derive(Debug, Clone, Copy, PartialEq, Eq, Structural)]
pub enum MessageType {
    Query,
    Response,
}

/// The operation code of a standard query.
pub const OP_QUERY: u8 = 0;

/// The response code of a name that does not exist.
pub const NX_DOMAIN: u8 = 3;

/// The payload that every requester takes, and the least that the extension options can state.
pub const MIN_PAYLOAD: u16 = 512;

/// A question.
#[derive(Debug)]
pub struct Query {
    pub name: Name,
    pub query_type: RecordType,
    pub query_class: u16,
}

pub struct QueryView {
    pub name: Seq<Seq<u8>>,
    pub query_type: RecordType,
    pub query_class: u16,
}

/// The extension options of a message.
#[derive(Debug, PartialEq)]
pub struct Edns {
    pub rcode_high: u8,
    pub version: u8,
    pub dnssec_ok: bool,
    /// The 15 flag bits that have no meaning yet.
    pub z: u16,
    pub max_payload: u16,
    pub options: Vec<u8>,
}

pub struct EdnsView {
    pub rcode_high: u8,
    pub version: u8,
    pub dnssec_ok: bool,
    pub z: u16,
    pub max_payload: u16,
    pub options: Seq<u8>,
}

/// What the first bytes of a message say, but for the numbers of entries.
#[derive(Debug, Clone, Copy, PartialEq, Eq, Structural)]
pub struct Header {
    pub id: u16,
    pub message_type: MessageType,
    pub op_code: u8,
    pub authoritative: bool,
    pub truncated: bool,
    pub recursion_desired: bool,
    pub recursion_available: bool,
    pub authentic_data: bool,
    pub checking_disabled: bool,
    pub response_code: u8,
}

/// A message.
#[derive(Debug, PartialEq)]
pub struct Message {
    pub header: Header,
    pub queries: Vec<Query>,
    pub answers: Vec<Record>,
    pub name_servers: Vec<Record>,
    pub additionals: Vec<Record>,
    pub edns: Option<Edns>,
}

pub struct MessageView {
    pub header: Header,
    pub queries: Seq<QueryView>,
    pub answers: Seq<RecordView>,
    pub name_servers: Seq<RecordView>,
    pub additionals: Seq<RecordView>,
    pub edns: Option<EdnsView>,
}

impl View for Query {
    type V = QueryView;

    open spec fn view(&self) -> QueryView {
        QueryView {
            name: self.name@,
            query_type: self.query_type,
            query_class: self.query_class,
        }
    }
}

impl View for Edns {
    type V = EdnsView;

    open spec fn view(&self) -> EdnsView {
        EdnsView {
            rcode_high: self.rcode_high,
            version: self.version,
            dnssec_ok: self.dnssec_ok,
            z: self.z,
            max_payload: self.max_payload,
            options: self.options@,
        }
    }
}

/// The views of the questions.
pub open spec fn query_views(queries: Seq<Query>) -> Seq<QueryView> {
    queries.map_values(|q: Query| q@)
}

/// The views of the records.
pub open spec fn record_views(records: Seq<Record>) -> Seq<RecordView> {
    records.map_values(|r: Record| r@)
}

/// The view of the extension options, where there are any.
pub open spec fn edns_view(edns: Option<Edns>) -> Option<EdnsView> {
    match edns {
        Some(e) => Some(e@),
        None => None,
    }
}

impl View for Message {
    type V = MessageView;

    open spec fn view(&self) -> MessageView {
        MessageView {
            header: self.header,
            queries: query_views(self.queries@),
            answers: record_views(self.answers@),
            name_servers: record_views(self.name_servers@),
            additionals: record_views(self.additionals@),
            edns: edns_view(self.edns),
        }
    }
}

/// Two questions for the same name, type and class.
pub open spec fn same_query(a: QueryView, b: QueryView) -> bool {
    &&& same_name(a.name, b.name)
    &&& a.query_type == b.query_type
    &&& a.query_class == b.query_class
}

/// The header of a message that is still to be filled in.
pub open spec fn empty_header() -> Header {
    Header {
        id: 0,
        message_type: MessageType::Query,
        op_code: OP_QUERY,
        authoritative: false,
        truncated: false,
        recursion_desired: false,
        recursion_available: false,
        authentic_data: false,
        checking_disabled: false,
        response_code: 0,
    }
}

/// A message with nothing but a header.
pub open spec fn bare_message(header: Header) -> MessageView {
    MessageView {
        header,
        queries: Seq::empty(),
        answers: Seq::empty(),
        name_servers: Seq::empty(),
        additionals: Seq::empty(),
        edns: None,
    }
}

/// The payload that the sender of the message takes.
pub open spec fn payload(edns: Option<EdnsView>) -> u16 {
    match edns {
        Some(e) => if e.max_payload < MIN_PAYLOAD {
            MIN_PAYLOAD
        } else {
            e.max_payload
        },
        None => MIN_PAYLOAD,
    }
}

impl Clone for Query {
    fn clone(&self) -> (r: Query)
        ensures
            r@ == self@,
    {
        Query {
            name: self.name.clone(),
            query_type: self.query_type,
            query_class: self.query_class,
        }
    }
}

impl Clone for Edns {
    fn clone(&self) -> (r: Edns)
        ensures
            r@ == self@,
    {
        Edns {
            rcode_high: self.rcode_high,
            version: self.version,
            dnssec_ok: self.dnssec_ok,
            z: self.z,
            max_payload: self.max_payload,
            options: copy_bytes(&self.options),
        }
    }
}

/// A copy of the questions.
pub fn copy_queries(queries: &Vec<Query>) -> (r: Vec<Query>)
    ensures
        query_views(r@) == query_views(queries@),
{
    let mut r: Vec<Query> = Vec::new();
    let mut i: usize = 0;
    while i < queries.len()
        invariant
            i <= queries.len(),
            r.len() == i,
            forall|j: int| 0 <= j < i ==> (#[trigger] r@[j])@ == queries@[j]@,
        decreases queries.len() - i,
    {
        r.push(queries[i].clone());
        i += 1;
    }
    assert(query_views(r@) =~= query_views(queries@));
    r
}

/// A copy of the records.
pub fn copy_records(records: &Vec<Record>) -> (r: Vec<Record>)
    ensures
        record_views(r@) == record_views(records@),
{
    let mut r: Vec<Record> = Vec::new();
    let mut i: usize = 0;
    while i < records.len()
        invariant
            i <= records.len(),
            r.len() == i,
            forall|j: int| 0 <= j < i ==> (#[trigger] r@[j])@ == records@[j]@,
        decreases records.len() - i,
    {
        r.push(records[i].clone());
        i += 1;
    }
    assert(record_views(r@) =~= record_views(records@));
    r
}

impl Clone for Message {
    fn clone(&self) -> (r: Message)
        ensures
            r@ == self@,
    {
        Message {
            header: self.header,
            queries: copy_queries(&self.queries),
            answers: copy_records(&self.answers),
            name_servers: copy_records(&self.name_servers),
            additionals: copy_records(&self.additionals),
            edns: match &self.edns {
                Some(e) => Some(e.clone()),
                None => None,
            },
        }
    }
}

impl Query {
    /// A question of the Internet class.
    pub fn query(name: Name, query_type: RecordType) -> (r: Query)
        ensures
            r@ == (QueryView { name: name@, query_type, query_class: CLASS_IN }),
    {
        Query { name, query_type, query_class: CLASS_IN }
    }

    /// Whether both ask the same.
    pub fn same_as(&self, other: &Query) -> (r: bool)
        ensures
            r == same_query(self@, other@),
    {
        self.name.same_as(&other.name) && self.query_type == other.query_type && self.query_class
            == other.query_class
    }
}

impl PartialEq for Query {
    fn eq(&self, other: &Query) -> (r: bool) {
        self.same_as(other)
    }
}

impl vstd::std_specs::cmp::PartialEqSpecImpl for Query {
    open spec fn obeys_eq_spec() -> bool {
        true
    }

    open spec fn eq_spec(&self, other: &Query) -> bool {
        same_query(self@, other@)
    }
}

impl Message {
    /// An empty standard query.
    pub fn new() -> (r: Message)
        ensures
            r@ == bare_message(empty_header()),
    {
        let r = Message {
            header: Header {
                id: 0,
                message_type: MessageType::Query,
                op_code: OP_QUERY,
                authoritative: false,
                truncated: false,
                recursion_desired: false,
                recursion_available: false,
                authentic_data: false,
                checking_disabled: false,
                response_code: 0,
            },
            queries: Vec::new(),
            answers: Vec::new(),
            name_servers: Vec::new(),
            additionals: Vec::new(),
            edns: None,
        };
        assert(r@.queries =~= Seq::<QueryView>::empty());
        assert(r@.answers =~= Seq::<RecordView>::empty());
        assert(r@.name_servers =~= Seq::<RecordView>::empty());
        assert(r@.additionals =~= Seq::<RecordView>::empty());
        r
    }

    /// Adds a question behind those that are there.
    pub fn add_query(&mut self, query: Query)
        ensures
            final(self)@ == (MessageView {
                queries: old(self)@.queries.push(query@),
                ..old(self)@
            }),
    {
        self.queries.push(query);
        assert(self@.queries =~= old(self)@.queries.push(query@));
    }

    /// Adds a record behind those of the answer section.
    pub fn add_answer(&mut self, record: Record)
        ensures
            final(self)@ == (MessageView {
                answers: old(self)@.answers.push(record@),
                ..old(self)@
            }),
    {
        self.answers.push(record);
        assert(self@.answers =~= old(self)@.answers.push(record@));
    }

    /// Adds a record behind those of the authority section.
    pub fn add_name_server(&mut self, record: Record)
        ensures
            final(self)@ == (MessageView {
                name_servers: old(self)@.name_servers.push(record@),
                ..old(self)@
            }),
    {
        self.name_servers.push(record);
        assert(self@.name_servers =~= old(self)@.name_servers.push(record@));
    }

    /// The largest datagram that the sender of this message takes.
    pub fn max_payload(&self) -> (r: u16)
        ensures
            r == payload(self@.edns),
    {
        match &self.edns {
            Some(e) => if e.max_payload < MIN_PAYLOAD {
                MIN_PAYLOAD
            } else {
                e.max_payload
            },
            None => MIN_PAYLOAD,
        }
    }

    /// Whether the message was cut to fit a datagram.
    pub fn truncated(&self) -> (r: bool)
        ensures
            r == self@.header.truncated,
    {
        self.header.truncated
    }
}

} // verus!
