//! What the operations that change something leave behind.

use std::sync::Arc;

use vstd::prelude::*;

use crate::body::{content, Body};
use crate::config::ResolverConfig;
use crate::local_dns::{name_views, Received, Turn, Worker, WorkerFault};
use crate::message::{query_views, record_views, Message, MessageType, Query};
use crate::name::Name;
use crate::record::Record;
use crate::signed_responses::{matching, SendFault, SignedResponses};
use crate::wire_format::{message_bytes, message_ok, read_message};
use crate::wire_laws::law_message_is_read_back;

verus! {

/// A question goes behind those that a message has, and everything else of it stays.
pub proof fn law_questions_are_added(m: &mut Message, q: Query, r: ())
    requires
        call_ensures(Message::add_query, (m, q), r),
    ensures
        final(m)@.queries == old(m)@.queries.push(q@),
        final(m)@.header == old(m)@.header,
        final(m)@.answers == old(m)@.answers,
        final(m)@.name_servers == old(m)@.name_servers,
        final(m)@.additionals == old(m)@.additionals,
        final(m)@.edns == old(m)@.edns,
{
}

/// An answer goes behind those that a message has, and everything else of it stays.
pub proof fn law_answers_are_added(m: &mut Message, record: Record, r: ())
    requires
        call_ensures(Message::add_answer, (m, record), r),
    ensures
        final(m)@.answers == old(m)@.answers.push(record@),
        final(m)@.header == old(m)@.header,
        final(m)@.queries == old(m)@.queries,
        final(m)@.name_servers == old(m)@.name_servers,
        final(m)@.additionals == old(m)@.additionals,
        final(m)@.edns == old(m)@.edns,
{
}

/// A record of authority goes behind those that a message has, and everything else of it stays.
pub proof fn law_authorities_are_added(m: &mut Message, record: Record, r: ())
    requires
        call_ensures(Message::add_name_server, (m, record), r),
    ensures
        final(m)@.name_servers == old(m)@.name_servers.push(record@),
        final(m)@.header == old(m)@.header,
        final(m)@.queries == old(m)@.queries,
        final(m)@.answers == old(m)@.answers,
        final(m)@.additionals == old(m)@.additionals,
        final(m)@.edns == old(m)@.edns,
{
}

/// A label goes next to the root.
pub proof fn law_labels_are_appended(name: &mut Name, label: Vec<u8>, r: ())
    requires
        call_ensures(Name::append_label, (name, label), r),
    ensures
        final(name)@ == old(name)@.push(label@),
{
}

/// A client for all servers is set, and nothing else changes.
pub proof fn law_clients_are_set<C>(config: &mut ResolverConfig<C>, client: Arc<C>, r: ())
    requires
        call_ensures(ResolverConfig::<C>::set_tls_client_config, (config, client), r),
    ensures
        final(config).group.client_config == Some(client),
        final(config).group.servers == old(config).group.servers,
        final(config).domain == old(config).domain,
        final(config).search == old(config).search,
{
}

/// A frame goes behind what has come of a body, all of it, as long as the body has at most 4096
/// bytes then. Else nothing changes.
pub proof fn law_frames_are_added(body: Body, frame: &mut bytes::Bytes, r: (Body, bool))
    requires
        call_ensures(Body::add_frame, (body, frame), r),
    ensures
        r.1 <==> body.received().len() + content(*old(frame)).len() <= 4096,
        r.1 ==> r.0.received() == body.received() + content(*old(frame)) && content(
            *final(frame),
        ).len() == 0,
        !r.1 ==> r.0.received() == body.received() && content(*final(frame)) == content(
            *old(frame),
        ),
{
}

/// What the worker of a local server does with what it receives: it goes on waiting where nothing
/// came, gives up where receiving failed, and ends where it was told to and something came. A
/// readable standard query for one question of the Internet class is answered with what the
/// responder makes of it, and its name is kept; on any other datagram the worker gives up.
pub proof fn law_what_a_worker_does<F: Fn(&Message) -> Message>(
    worker: &mut Worker,
    received: Received,
    stopping: bool,
    responder: F,
    r: Turn,
)
    requires
        call_ensures(Worker::turn::<F>, (worker, received, stopping, &responder), r),
    ensures
        ({
            let names = name_views(old(worker).names@);
            let after = name_views(final(worker).names@);
            match received {
                Received::Nothing => r == Turn::Listen && after == names,
                Received::Failed => r == Turn::GiveUp(WorkerFault::ReceiveFailed) && after == names,
                Received::Datagram(bytes) => if stopping {
                    r == Turn::Stop && after == names
                } else {
                    match read_message(bytes@) {
                        None => r == Turn::GiveUp(WorkerFault::Unreadable) && after == names,
                        Some(m) => if m.header.message_type == MessageType::Response {
                            r == Turn::GiveUp(WorkerFault::NotAQuery) && after == names
                        } else if m.header.op_code != 0 {
                            r == Turn::GiveUp(WorkerFault::NotStandard) && after == names
                        } else if m.queries.len() != 1 {
                            r == Turn::GiveUp(WorkerFault::NotOneQuestion) && after == names
                        } else if m.queries[0].query_class != 1 {
                            r == Turn::GiveUp(WorkerFault::OtherClass) && after == names
                        } else {
                            &&& after == names.push(m.queries[0].name)
                            &&& exists|request: Message, response: Message|
                                {
                                    &&& request@ == m
                                    &&& #[trigger] call_ensures(responder, (&request,), response)
                                    &&& if message_ok(response@) && message_bytes(
                                        response@,
                                    ).len() <= 65535 {
                                        r matches Turn::Reply(sent) && read_message(sent@) == Some(
                                            response@,
                                        )
                                    } else {
                                        r == Turn::GiveUp(WorkerFault::Unwritable)
                                    }
                                }
                        },
                    }
                },
            }
        }),
{
    if let Received::Datagram(bytes) = received {
        if !stopping && crate::local_dns::datagram_fault(bytes@) is None {
            let m = read_message(bytes@).unwrap();
            let (request, response) = choose|request: Message, response: Message|
                Some(request@) == read_message(bytes@) && #[trigger] call_ensures(
                    responder,
                    (&request,),
                    response,
                ) && crate::local_dns::turn_for(response@, r);
            assert(request@ == m);
            assert(call_ensures(responder, (&request,), response));
            if message_ok(response@) {
                law_message_is_read_back(response@, Seq::empty());
                assert(message_bytes(response@) + Seq::<u8>::empty() =~= message_bytes(response@));
            }
        }
    }
}

/// What a server of signed records does with a request: it keeps the question of every request that
/// has one and asks for signatures, and answers with the records that answer it. Its records stay.
pub proof fn law_what_a_signed_server_does(
    server: &mut SignedResponses,
    request: Message,
    r: Result<Vec<u8>, SendFault>,
)
    requires
        call_ensures(SignedResponses::send, (server, &request), r),
    ensures
        final(server).records == old(server).records,
        ({
            let m = request@;
            let records = record_views(old(server).records@);
            let kept = query_views(old(server).queries@);
            let after = query_views(final(server).queries@);
            if m.queries.len() == 0 {
                r == Err::<Vec<u8>, SendFault>(SendFault::NoQuestion) && after == kept
            } else if m.edns is None || !m.edns->Some_0.dnssec_ok {
                r == Err::<Vec<u8>, SendFault>(SendFault::NotSigned) && after == kept
            } else {
                &&& after == kept.push(m.queries[0])
                &&& matching(records, m.queries[0]).len() == 0 ==> r == Err::<Vec<u8>, SendFault>(
                    SendFault::NoAnswers,
                )
                &&& r matches Ok(bytes) ==> (read_message(bytes@) matches Some(response) && {
                    &&& response.header.id == m.header.id
                    &&& response.header.message_type == MessageType::Response
                    &&& response.header.response_code == 0 && response.header.op_code == 0
                    &&& response.header.authoritative && response.header.authentic_data
                    &&& !response.header.truncated
                    &&& response.queries == seq![m.queries[0]]
                    &&& response.answers == matching(records, m.queries[0])
                    &&& response.name_servers.len() == 0 && response.additionals.len() == 0
                    &&& response.edns is None
                })
                &&& r matches Err(fault) ==> fault == SendFault::NoAnswers || fault
                    == SendFault::Unwritable
            }
        }),
{
    let records = record_views(old(server).records@);
    if r is Ok {
        let response = crate::signed_responses::signed_response(request@, records);
        law_message_is_read_back(response, Seq::empty());
        assert(message_bytes(response) + Seq::<u8>::empty() =~= message_bytes(response));
    }
}

} // verus!
