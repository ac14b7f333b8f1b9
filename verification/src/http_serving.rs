//! A server of lookups over HTTP: which requests it takes, and how it counts those of one connection.

use vstd::prelude::*;
#[allow(unused_imports)]
use vstd::string::StringSliceAdditionalSpecFns;

use crate::lookups::{check_request, lookup_fault, lookup_reply, reply, COUNT};
use crate::replies::RequestFault;
use crate::text::{same_text, text_bytes};

verus! {

/// The path to which requests over HTTP go: `/dns-query`.
pub open spec fn query_path() -> Seq<u8> {
    "/dns-query".spec_bytes()
}

/// The type of what requests and responses over HTTP carry: `application/dns-message`.
pub open spec fn message_media_type() -> Seq<u8> {
    "application/dns-message".spec_bytes()
}

/// The path to which requests over HTTP go.
pub fn dns_query_path() -> (r: &'static str)
    ensures
        r.spec_bytes() == query_path(),
{
    "/dns-query"
}

/// The type of what requests and responses over HTTP carry.
pub fn dns_media_type() -> (r: &'static str)
    ensures
        r.spec_bytes() == message_media_type(),
{
    "application/dns-message"
}

/// What is wrong with a request over HTTP.
#[derive(Debug, Clone, Copy, PartialEq, Eq, Structural)]
pub enum HttpFault {
    /// It goes to another path.
    OtherPath,
    /// It goes to another server, or names none.
    OtherHost,
    /// It carries something else, or does not say what.
    OtherContent,
}

/// What is wrong with a request over HTTP to the server of this name, if anything is.
pub open spec fn http_fault(
    path: Seq<u8>,
    host: Option<Seq<u8>>,
    content_type: Option<Seq<u8>>,
    server_name: Seq<u8>,
) -> Option<HttpFault> {
    if path != query_path() {
        Some(HttpFault::OtherPath)
    } else if host != Some(server_name) {
        Some(HttpFault::OtherHost)
    } else if content_type != Some(message_media_type()) {
        Some(HttpFault::OtherContent)
    } else {
        None
    }
}

/// What is wrong with a request over HTTP to the server of this name, if anything is.
pub fn check_http(
    path: &str,
    host: Option<&str>,
    content_type: Option<&str>,
    server_name: &str,
) -> (r: Result<(), HttpFault>)
    ensures
        match r {
            Ok(_) => http_fault(
                path.spec_bytes(),
                text_bytes(host),
                text_bytes(content_type),
                server_name.spec_bytes(),
            ) is None,
            Err(fault) => http_fault(
                path.spec_bytes(),
                text_bytes(host),
                text_bytes(content_type),
                server_name.spec_bytes(),
            ) == Some(fault),
        },
{
    if !same_text(path, dns_query_path()) {
        return Err(HttpFault::OtherPath);
    }
    let right_host = match host {
        Some(host) => same_text(host, server_name),
        None => false,
    };
    if !right_host {
        return Err(HttpFault::OtherHost);
    }
    let right_content = match content_type {
        Some(content_type) => same_text(content_type, dns_media_type()),
        None => false,
    };
    if right_content {
        Ok(())
    } else {
        Err(HttpFault::OtherContent)
    }
}

/// How far a server of HTTP/2 has come with the requests of one connection, which it serves side
/// by side.
pub struct RequestCounts {
    pub accepted: nat,
    pub completed: nat,
}

/// What happens to a server of HTTP/2.
pub enum RequestEvent {
    /// A request came.
    Incoming,
    /// A request that had come was answered.
    Completed,
}

/// What an event comes to. None where it cannot happen: there are no more requests than lookups,
/// and only a request that came is answered.
pub open spec fn counts_after(counts: RequestCounts, event: RequestEvent) -> Option<RequestCounts> {
    match event {
        RequestEvent::Incoming => if counts.accepted < COUNT {
            Some(RequestCounts { accepted: counts.accepted + 1, ..counts })
        } else {
            None
        },
        RequestEvent::Completed => if counts.completed < counts.accepted {
            Some(RequestCounts { completed: counts.completed + 1, ..counts })
        } else {
            None
        },
    }
}

/// A server of HTTP/2 on one connection.
pub struct HttpsServing {
    accepted: usize,
    completed: usize,
}

impl HttpsServing {
    #[verifier::type_invariant]
    spec fn in_bounds(self) -> bool {
        self.completed <= self.accepted <= COUNT
    }

    /// How far the server has come.
    pub closed spec fn counts(&self) -> RequestCounts {
        RequestCounts { accepted: self.accepted as nat, completed: self.completed as nat }
    }

    /// A server to which no request has come yet.
    pub fn new() -> (r: HttpsServing)
        ensures
            r.counts() == (RequestCounts { accepted: 0, completed: 0 }),
    {
        HttpsServing { accepted: 0, completed: 0 }
    }

    /// Whether requests that came are still to be answered.
    pub fn is_busy(&self) -> (r: bool)
        ensures
            r == (self.counts().accepted != self.counts().completed),
    {
        self.accepted != self.completed
    }

    /// Takes a request that came. With it comes the number of its lookup, in the order in which
    /// requests come. None where all lookups have had their request.
    pub fn on_incoming(self) -> (r: Option<(HttpsServing, usize)>)
        ensures
            match r {
                Some((next, index)) => counts_after(self.counts(), RequestEvent::Incoming) == Some(
                    next.counts(),
                ) && index == self.counts().accepted,
                None => counts_after(self.counts(), RequestEvent::Incoming) is None,
            },
    {
        proof {
            use_type_invariant(&self);
        }
        if self.accepted < COUNT {
            Some(
                (
                    HttpsServing { accepted: self.accepted + 1, completed: self.completed },
                    self.accepted,
                ),
            )
        } else {
            None
        }
    }

    /// Notes that a request was answered.
    pub fn on_completed(self) -> (r: HttpsServing)
        requires
            self.counts().completed < self.counts().accepted,
        ensures
            counts_after(self.counts(), RequestEvent::Completed) == Some(r.counts()),
    {
        proof {
            use_type_invariant(&self);
        }
        HttpsServing { accepted: self.accepted, completed: self.completed + 1 }
    }

    /// Whether every lookup has had its request and every request its answer.
    pub fn is_complete(&self) -> (r: bool)
        ensures
            r == (self.counts().accepted == COUNT && self.counts().completed == COUNT),
    {
        self.accepted == COUNT && self.completed == COUNT
    }
}

/// Answers a request that came, as the lookup with its number asks for.
pub fn answer_request(bytes: &[u8], index: usize) -> (r: Result<Vec<u8>, RequestFault>)
    ensures
        match r {
            Ok(response) => lookup_fault(bytes@, index as nat) is None && response@ == lookup_reply(
                bytes@,
                index as nat,
            ),
            Err(fault) => lookup_fault(bytes@, index as nat) == Some(fault),
        },
{
    match check_request(bytes, index) {
        Ok(_) => Ok(reply(bytes, index)),
        Err(fault) => Err(fault),
    }
}

/// How far a server has come after these events, from its first on.
pub open spec fn counts_of_run(events: Seq<RequestEvent>) -> Option<RequestCounts>
    decreases events.len(),
{
    if events.len() == 0 {
        Some(RequestCounts { accepted: 0, completed: 0 })
    } else {
        match counts_of_run(events.drop_last()) {
            Some(counts) => counts_after(counts, events.last()),
            None => None,
        }
    }
}

/// How often an event comes among these.
pub open spec fn occurrences(events: Seq<RequestEvent>, event: RequestEvent) -> nat
    decreases events.len(),
{
    if events.len() == 0 {
        0
    } else {
        occurrences(events.drop_last(), event) + (if events.last() == event {
            1nat
        } else {
            0nat
        })
    }
}

/// Whatever the order in which requests come and are answered, the server counts every one, never
/// answers more than came, and takes no more than there are lookups. So where it has come to the
/// end, each lookup had one request, and each request was answered.
pub proof fn law_requests_are_counted(events: Seq<RequestEvent>)
    requires
        counts_of_run(events) is Some,
    ensures
        counts_of_run(events).unwrap().accepted == occurrences(events, RequestEvent::Incoming),
        counts_of_run(events).unwrap().completed == occurrences(events, RequestEvent::Completed),
        occurrences(events, RequestEvent::Completed) <= occurrences(events, RequestEvent::Incoming)
            <= COUNT,
    decreases events.len(),
{
    if events.len() > 0 {
        law_requests_are_counted(events.drop_last());
    }
}

} // verus!
