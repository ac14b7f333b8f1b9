//! A local name server: what it answers, and how its worker goes through what it receives.

use vstd::prelude::*;
#[allow(unused_imports)]
use vstd::string::StringSliceAdditionalSpecFns;

use crate::config::{NameServerConfig, Protocol, SocketAddress};
use crate::local_names::{
    example_com, example_com_name, hostmaster_example_com, hostmaster_name, lemma_local_names,
    ns_example_com, ns_name, www_example_com, www_name,
};
use crate::message::{
    bare_message, empty_header, Header, Message, MessageType, MessageView, QueryView, NX_DOMAIN,
    OP_QUERY,
};
use crate::name::{ascii_name, same_name, Name};
use crate::record::{
    data_type, RData, RDataView, Record, RecordView, Soa, SoaView, CLASS_IN,
};
use crate::wire_fixture::{local_ipv4, ANSWER_TTL};
use crate::wire_format::{
    message_bytes, message_ok, queries_bytes, query_ok, read_message, MAX_MESSAGE,
};
use crate::wire_laws::law_message_is_read_back;
use crate::wire_read_laws::lemma_read_message_front;
use crate::wire_sizes::{
    lemma_answer_len, lemma_message_len, lemma_one_record_len, lemma_query_len, lemma_soa_len,
};

verus! {

/// The longest datagram that the worker takes, in bytes.
pub const MAX_DATAGRAM: usize = 4096;

/// How long the worker waits for a datagram before it looks whether to stop, in milliseconds.
pub const READ_TIMEOUT: u64 = 1000;

/// The response to a request, still without records: it repeats the identifier, the first question
/// and the wish for recursion, and speaks with authority.
pub open spec fn response_to(m: MessageView) -> MessageView {
    MessageView {
        queries: seq![m.queries[0]],
        ..bare_message(
            Header {
                id: m.header.id,
                message_type: MessageType::Response,
                authoritative: true,
                recursion_desired: m.header.recursion_desired,
                recursion_available: true,
                ..empty_header()
            },
        )
    }
}

/// The start of authority of `example.com.`, which lets resolvers keep the denial of a name.
pub open spec fn denial_record() -> RecordView {
    RecordView {
        name: example_com(),
        class: CLASS_IN,
        ttl: ANSWER_TTL,
        data: RDataView::Soa(
            SoaView {
                mname: ns_example_com(),
                rname: hostmaster_example_com(),
                serial: 1,
                refresh: 60,
                retry: 60,
                expire: 60,
                minimum: 60,
            },
        ),
    }
}

/// The response of a server that knows one address of `www.example.com.` and no other name.
pub open spec fn response_with(m: MessageView, answer: RDataView) -> MessageView {
    let plain = response_to(m);
    if same_name(m.queries[0].name, www_example_com()) {
        MessageView {
            answers: seq![
                RecordView {
                    name: m.queries[0].name,
                    class: CLASS_IN,
                    ttl: ANSWER_TTL,
                    data: answer,
                },
            ],
            ..plain
        }
    } else {
        MessageView {
            header: Header { response_code: NX_DOMAIN, ..plain.header },
            name_servers: seq![denial_record()],
            ..plain
        }
    }
}

/// An address.
pub open spec fn is_address(data: RDataView) -> bool {
    data is A || data is Aaaa
}

/// Whether a server with this address answers the request at all: it takes requests for the type of
/// the address only.
pub open spec fn takes(m: MessageView, answer: RDataView) -> bool {
    m.queries.len() > 0 && m.queries[0].query_type == data_type(answer)
}

/// Why the worker of a server gives up.
#[derive(Debug, Clone, Copy, PartialEq, Eq, Structural)]
pub enum WorkerFault {
    /// A datagram could not be received, for a reason other than that none came.
    ReceiveFailed,
    /// The bytes stand for no message.
    Unreadable,
    /// The message is a response.
    NotAQuery,
    /// The operation is not a standard query.
    NotStandard,
    /// There is no question, or there are several.
    NotOneQuestion,
    /// The question is not of the Internet class.
    OtherClass,
    /// The response cannot be put into bytes.
    Unwritable,
}

/// What came of waiting for a datagram.
#[derive(Debug)]
pub enum Received {
    Datagram(Vec<u8>),
    /// No datagram came in time.
    Nothing,
    /// Receiving failed.
    Failed,
}

/// What the worker does next.
#[derive(Debug, PartialEq)]
pub enum Turn {
    /// Wait for the next datagram, unless it is to stop.
    Listen,
    /// Send these bytes to where the datagram came from, then wait for the next.
    Reply(Vec<u8>),
    /// End, because it was told to.
    Stop,
    /// Give up.
    GiveUp(WorkerFault),
}

/// What is wrong with a message that the worker must answer, if anything is.
pub open spec fn query_fault(m: MessageView) -> Option<WorkerFault> {
    if m.header.message_type != MessageType::Query {
        Some(WorkerFault::NotAQuery)
    } else if m.header.op_code != OP_QUERY {
        Some(WorkerFault::NotStandard)
    } else if m.queries.len() != 1 {
        Some(WorkerFault::NotOneQuestion)
    } else if m.queries[0].query_class != CLASS_IN {
        Some(WorkerFault::OtherClass)
    } else {
        None
    }
}

/// What is wrong with a datagram, if anything is.
pub open spec fn datagram_fault(bytes: Seq<u8>) -> Option<WorkerFault> {
    match read_message(bytes) {
        None => Some(WorkerFault::Unreadable),
        Some(m) => query_fault(m),
    }
}

/// The names that were asked for, once something came of waiting for a datagram.
pub open spec fn names_after(
    names: Seq<Seq<Seq<u8>>>,
    received: Received,
    stopping: bool,
) -> Seq<Seq<Seq<u8>>> {
    match received {
        Received::Datagram(bytes) => if !stopping && datagram_fault(bytes@) is None {
            names.push(read_message(bytes@).unwrap().queries[0].name)
        } else {
            names
        },
        _ => names,
    }
}

/// What the worker does with a response.
pub open spec fn turn_for(response: MessageView, turn: Turn) -> bool {
    if message_ok(response) && message_bytes(response).len() <= MAX_MESSAGE {
        turn matches Turn::Reply(bytes) && bytes@ == message_bytes(response)
    } else {
        turn == Turn::GiveUp(WorkerFault::Unwritable)
    }
}

/// The views of the names.
pub open spec fn name_views(names: Seq<Name>) -> Seq<Seq<Seq<u8>>> {
    names.map_values(|n: Name| n@)
}

/// The worker of a server: it keeps the names that were asked for, in their order.
#[derive(Debug)]
pub struct Worker {
    pub names: Vec<Name>,
}

impl Worker {
    /// A worker that nobody asked yet.
    pub fn new() -> (r: Worker)
        ensures
            name_views(r.names@) == Seq::<Seq<Seq<u8>>>::empty(),
    {
        let r = Worker { names: Vec::new() };
        assert(name_views(r.names@) =~= Seq::<Seq<Seq<u8>>>::empty());
        r
    }

    /// Goes on with what came of waiting for a datagram. `stopping` tells whether the worker was
    /// told to stop by then; `responder` makes the response to a request.
    pub fn turn<F: Fn(&Message) -> Message>(
        &mut self,
        received: Received,
        stopping: bool,
        responder: &F,
    ) -> (r: Turn)
        requires
            received matches Received::Datagram(bytes) ==> !stopping && datagram_fault(bytes@) is None
                ==> forall|request: Message|
                Some(#[trigger] request@) == read_message(bytes@) ==> call_requires(
                    *responder,
                    (&request,),
                ),
        ensures
            name_views(final(self).names@) == names_after(
                name_views(old(self).names@),
                received,
                stopping,
            ),
            match received {
                Received::Nothing => r == Turn::Listen,
                Received::Failed => r == Turn::GiveUp(WorkerFault::ReceiveFailed),
                Received::Datagram(bytes) => if stopping {
                    r == Turn::Stop
                } else if datagram_fault(bytes@) is Some {
                    r == Turn::GiveUp(datagram_fault(bytes@).unwrap())
                } else {
                    exists|request: Message, response: Message|
                        Some(request@) == read_message(bytes@) && #[trigger] call_ensures(
                            *responder,
                            (&request,),
                            response,
                        ) && turn_for(response@, r)
                },
            },
    {
        let bytes = match received {
            Received::Datagram(bytes) => bytes,
            Received::Nothing => return Turn::Listen,
            Received::Failed => return Turn::GiveUp(WorkerFault::ReceiveFailed),
        };
        if stopping {
            return Turn::Stop;
        }
        let request = match Message::from_vec(bytes.as_slice()) {
            Some(m) => m,
            None => return Turn::GiveUp(WorkerFault::Unreadable),
        };
        if request.header.message_type != MessageType::Query {
            return Turn::GiveUp(WorkerFault::NotAQuery);
        }
        if request.header.op_code != OP_QUERY {
            return Turn::GiveUp(WorkerFault::NotStandard);
        }
        assert(request@.queries.len() == request.queries@.len());
        if request.queries.len() != 1 {
            return Turn::GiveUp(WorkerFault::NotOneQuestion);
        }
        if request.queries[0].query_class != CLASS_IN {
            return Turn::GiveUp(WorkerFault::OtherClass);
        }
        let ghost before = name_views(self.names@);
        let name = request.queries[0].name.clone();
        assert(name@ == request@.queries[0].name);
        self.names.push(name);
        assert(name_views(self.names@) =~= before.push(name@));
        let response = responder(&request);
        let r = match response.to_vec() {
            Some(bytes) => Turn::Reply(bytes),
            None => Turn::GiveUp(WorkerFault::Unwritable),
        };
        assert(turn_for(response@, r));
        r
    }
}

/// A local server.
#[derive(Debug)]
pub struct LocalDns {
    pub address: SocketAddress,
}

impl LocalDns {
    /// The address that a server knows unless it is told another.
    pub fn default_answer() -> (r: RData)
        ensures
            r@ == local_ipv4(),
            is_address(r@),
    {
        RData::a(93, 184, 215, 14)
    }

    /// The response to a request, still without records.
    pub fn response(request: &Message) -> (r: Message)
        requires
            request@.queries.len() > 0,
        ensures
            r@ == response_to(request@),
    {
        assert(request@.queries.len() == request.queries@.len());
        let mut response = Message::new();
        response.header.id = request.header.id;
        response.header.message_type = MessageType::Response;
        response.header.authoritative = true;
        response.header.recursion_desired = request.header.recursion_desired;
        response.header.recursion_available = true;
        response.add_query(request.queries[0].clone());
        assert(response@.queries =~= seq![request@.queries[0]]);
        response
    }

    /// Whether a server that knows this address takes the request.
    pub fn accepts(answer: &RData, request: &Message) -> (r: bool)
        ensures
            r == takes(request@, answer@),
    {
        assert(request@.queries.len() == request.queries@.len());
        request.queries.len() > 0 && request.queries[0].query_type == answer.record_type()
    }

    /// The response of a server that knows this address of `www.example.com.` and no other name.
    pub fn with_answer(answer: &RData, request: &Message) -> (r: Message)
        requires
            is_address(answer@),
            takes(request@, answer@),
        ensures
            r@ == response_with(request@, answer@),
    {
        assert(request@.queries.len() == request.queries@.len());
        let mut response = LocalDns::response(request);
        let name = &request.queries[0].name;
        assert(name@ == request@.queries[0].name);
        if name.same_as(&www_name()) {
            response.add_answer(Record::from_rdata(name.clone(), ANSWER_TTL, answer.clone()));
            assert(response@.answers =~= response_with(request@, answer@).answers);
        } else {
            response.header.response_code = NX_DOMAIN;
            response.add_name_server(
                Record::from_rdata(
                    example_com_name(),
                    ANSWER_TTL,
                    RData::Soa(
                        Soa {
                            mname: ns_name(),
                            rname: hostmaster_name(),
                            serial: 1,
                            refresh: 60,
                            retry: 60,
                            expire: 60,
                            minimum: 60,
                        },
                    ),
                ),
            );
            assert(response@.name_servers =~= seq![denial_record()]);
        }
        response
    }

    /// How the server is reached: by plain datagrams.
    pub fn name_servers<C>(&self) -> (r: Vec<NameServerConfig<C>>)
        ensures
            r@ == seq![
                NameServerConfig::<C> {
                    socket_addr: self.address,
                    protocol: Protocol::Udp,
                    tls_dns_name: None,
                    http_endpoint: None,
                    trust_negative_responses: true,
                    tls_config: None,
                    bind_addr: None,
                },
            ],
    {
        let mut r: Vec<NameServerConfig<C>> = Vec::new();
        r.push(NameServerConfig::new(self.address, Protocol::Udp));
        r
    }
}

/// The names that the texts spell, in their order. None where a text spells no name.
pub open spec fn spelled(texts: Seq<&str>) -> Option<Seq<Seq<Seq<u8>>>> {
    if forall|i: int|
        0 <= i < texts.len() ==> ascii_name((#[trigger] texts[i]).spec_bytes()) is Some {
        Some(texts.map_values(|text: &str| ascii_name(text.spec_bytes()).unwrap()))
    } else {
        None
    }
}

/// The same names one by one, in the same order.
pub open spec fn same_names(a: Seq<Seq<Seq<u8>>>, b: Seq<Seq<Seq<u8>>>) -> bool {
    &&& a.len() == b.len()
    &&& forall|i: int| 0 <= i < a.len() ==> same_name(#[trigger] a[i], b[i])
}

/// The names that the texts spell, in their order.
pub fn spell_names(texts: &Vec<&str>) -> (r: Option<Vec<Name>>)
    ensures
        match r {
            Some(names) => spelled(texts@) == Some(name_views(names@)),
            None => spelled(texts@) is None,
        },
{
    let mut names: Vec<Name> = Vec::new();
    let mut i: usize = 0;
    while i < texts.len()
        invariant
            i <= texts.len(),
            names.len() == i,
            forall|j: int|
                0 <= j < i ==> ascii_name((#[trigger] texts@[j]).spec_bytes()) == Some(names@[j]@),
        decreases texts.len() - i,
    {
        match Name::from_ascii(texts[i]) {
            Some(name) => {
                names.push(name);
            },
            None => {
                assert(ascii_name(texts@[i as int].spec_bytes()) is None);
                return None;
            },
        }
        i += 1;
    }
    assert(name_views(names@) =~= spelled(texts@).unwrap());
    Some(names)
}

/// Whether these are the same names in the same order.
pub fn equal_names(a: &Vec<Name>, b: &Vec<Name>) -> (r: bool)
    ensures
        r == same_names(name_views(a@), name_views(b@)),
{
    let ghost x = name_views(a@);
    let ghost y = name_views(b@);
    if a.len() != b.len() {
        return false;
    }
    let mut i: usize = 0;
    while i < a.len()
        invariant
            i <= a.len() == b.len(),
            x == name_views(a@),
            y == name_views(b@),
            forall|j: int| 0 <= j < i ==> same_name(#[trigger] x[j], y[j]),
        decreases a.len() - i,
    {
        if !a[i].same_as(&b[i]) {
            assert(!same_name(x[i as int], y[i as int]));
            return false;
        }
        i += 1;
    }
    true
}

/// Whether a server was asked for just these names, in this order. None where a text spells no
/// name.
pub fn assert_queries(names: &Vec<Name>, expected: &Vec<&str>) -> (r: Option<bool>)
    ensures
        match r {
            Some(b) => spelled(expected@) is Some && b == same_names(
                name_views(names@),
                spelled(expected@).unwrap(),
            ),
            None => spelled(expected@) is None,
        },
{
    match spell_names(expected) {
        Some(expected) => Some(equal_names(names, &expected)),
        None => None,
    }
}

/// The names that were asked for in a run of datagrams, none of which came after the worker was
/// told to stop.
pub open spec fn names_of_run(datagrams: Seq<Vec<u8>>) -> Seq<Seq<Seq<u8>>>
    decreases datagrams.len(),
{
    if datagrams.len() == 0 {
        Seq::empty()
    } else {
        names_after(
            names_of_run(datagrams.drop_last()),
            Received::Datagram(datagrams.last()),
            false,
        )
    }
}

/// A worker that finds nothing wrong with the datagrams keeps the name that each of them asks for,
/// in their order, also where a name comes again.
pub proof fn law_names_are_kept_in_order(datagrams: Seq<Vec<u8>>)
    requires
        forall|i: int|
            0 <= i < datagrams.len() ==> datagram_fault((#[trigger] datagrams[i])@) is None,
    ensures
        names_of_run(datagrams) == datagrams.map_values(
            |d: Vec<u8>| read_message(d@).unwrap().queries[0].name,
        ),
    decreases datagrams.len(),
{
    let f = |d: Vec<u8>| read_message(d@).unwrap().queries[0].name;
    if datagrams.len() > 0 {
        let front = datagrams.drop_last();
        assert forall|i: int| 0 <= i < front.len() implies datagram_fault(
            (#[trigger] front[i])@,
        ) is None by {
            assert(front[i] == datagrams[i]);
        }
        law_names_are_kept_in_order(front);
        assert(datagram_fault(datagrams[datagrams.len() - 1]@) is None);
        assert(datagrams.map_values(f) =~= front.map_values(f).push(f(datagrams.last())));
    } else {
        assert(datagrams.map_values(f) =~= Seq::empty());
    }
}

proof fn lemma_answered(m: MessageView, answer: RDataView)
    requires
        m.queries.len() > 0,
        query_ok(m.queries[0]),
        is_address(answer),
        same_name(m.queries[0].name, www_example_com()),
    ensures
        message_ok(response_with(m, answer)),
        message_bytes(response_with(m, answer)).len() <= MAX_MESSAGE,
{
    let r = response_with(m, answer);
    lemma_answer_len(r);
    lemma_one_record_len(r.answers[0]);
    assert(r.answers =~= seq![r.answers[0]]);
}

proof fn lemma_denied(m: MessageView, answer: RDataView)
    requires
        m.queries.len() > 0,
        query_ok(m.queries[0]),
        !same_name(m.queries[0].name, www_example_com()),
    ensures
        message_ok(response_with(m, answer)),
        message_bytes(response_with(m, answer)).len() <= MAX_MESSAGE,
{
    let r = response_with(m, answer);
    lemma_local_names();
    lemma_message_len(r);
    lemma_query_len(m.queries[0]);
    assert(r.queries.drop_last() =~= Seq::<QueryView>::empty());
    assert(queries_bytes(r.queries.drop_last()).len() == 0);
    lemma_soa_len(denial_record().data);
    lemma_one_record_len(denial_record());
}

/// A server that knows an address never gives up for want of a way to write its response down: to
/// every datagram that the worker finds nothing wrong with, the response can be put into bytes.
pub proof fn law_local_responses_are_written(bytes: Seq<u8>, answer: RDataView)
    requires
        datagram_fault(bytes) is None,
        is_address(answer),
    ensures
        message_ok(response_with(read_message(bytes).unwrap(), answer)),
        message_bytes(response_with(read_message(bytes).unwrap(), answer)).len() <= MAX_MESSAGE,
{
    lemma_read_message_front(bytes);
    let m = read_message(bytes).unwrap();
    assert(query_ok(m.queries[0]));
    if same_name(m.queries[0].name, www_example_com()) {
        lemma_answered(m, answer);
    } else {
        lemma_denied(m, answer);
    }
}

/// A client that asks a local server for an address is answered: the worker finds nothing wrong with
/// the bytes of its request, and the client reads the response that the server made for it.
pub proof fn law_local_round_trip(m: MessageView, answer: RDataView)
    requires
        message_ok(m),
        query_fault(m) is None,
        is_address(answer),
    ensures
        datagram_fault(message_bytes(m)) is None,
        read_message(message_bytes(response_with(m, answer))) == Some(response_with(m, answer)),
{
    law_message_is_read_back(m, Seq::empty());
    assert(message_bytes(m) + Seq::<u8>::empty() =~= message_bytes(m));
    law_local_responses_are_written(message_bytes(m), answer);
    let r = response_with(m, answer);
    law_message_is_read_back(r, Seq::empty());
    assert(message_bytes(r) + Seq::<u8>::empty() =~= message_bytes(r));
}

} // verus!
