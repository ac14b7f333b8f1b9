//! What the kinds of errors are worth, and which of them end a request.

use vstd::prelude::*;

use crate::conn_loop::{absorbed, LoopState, ProgressView};
use crate::error::{specificity, ProtoError, ProtoErrorKind};
use crate::message::Message;

verus! {

/// Whether the error is a denial by a server that is trusted, or one that says whose word it is.
pub open spec fn final_denial(e: ProtoError) -> bool {
    e.kind matches ProtoErrorKind::NoRecordsFound { trusted, soa, ns } && (trusted || soa is Some
        || ns is Some)
}

/// What an error tells depends on its kind alone: a denial tells more than a failure of the
/// transport, whichever it is; that tells more than silence; and silence more than every other
/// error. Errors of one of these kinds tell as much as each other, and so do all others.
pub proof fn law_errors_are_ranked_by_kind(e: ProtoError, f: ProtoError)
    ensures
        specificity(e) > specificity(f) <==> {
            ||| e.kind is NoRecordsFound && !(f.kind is NoRecordsFound)
            ||| e.kind is Io && (f.kind is Timeout || f.kind is Busy || f.kind is NoConnections
                || f.kind is Message)
            ||| e.kind is Timeout && (f.kind is Busy || f.kind is NoConnections
                || f.kind is Message)
        },
{
}

/// An error ends a request if and only if it is a denial by a trusted server or one that says whose
/// word it is, and is then what the request comes to. Whatever else goes wrong, the other
/// connections are still asked: the transport failed in some way, no answer came, the server was
/// busy, there was no connection, or anything that is put in words.
pub proof fn law_only_a_final_denial_ends_a_request(s: LoopState, conn: usize, e: ProtoError)
    ensures
        absorbed(s, conn, Err(e)) is Done <==> final_denial(e),
        final_denial(e) ==> absorbed(s, conn, Err(e)) == ProgressView::Done(Err(e)),
        e.kind is Io || e.kind is Timeout || e.kind is Message || e.kind is Busy
            || e.kind is NoConnections ==> absorbed(s, conn, Err(e)) is Going,
{
}

/// A response ends a request, whatever came before it, and is what the request comes to.
pub proof fn law_a_response_ends_a_request(s: LoopState, conn: usize, response: Message)
    ensures
        absorbed(s, conn, Ok(response)) == ProgressView::Done(Ok(response)),
{
}

/// An error that does not end a request takes no connection from it and does not change its pauses.
/// A busy connection is set aside behind those that were busy before, and its error is forgotten;
/// any other connection is not asked again, and its error is kept where the one before was merely
/// that there was no connection, or was of a kind that tells less.
pub proof fn law_an_error_is_kept_or_forgotten(s: LoopState, conn: usize, e: ProtoError)
    requires
        !final_denial(e),
    ensures
        absorbed(s, conn, Err(e)) matches ProgressView::Going(t) && {
            &&& t.conns == s.conns
            &&& t.backoff == s.backoff
            &&& e.kind is Busy ==> t.busy == s.busy.push(conn) && t.err == s.err
            &&& !(e.kind is Busy) ==> t.busy == s.busy
            &&& !(e.kind is Busy) && s.err.kind is NoConnections ==> t.err == e
            &&& e.kind is NoRecordsFound && !(s.err.kind is NoRecordsFound) ==> t.err == e
            &&& e.kind is Io && (s.err.kind is Timeout || s.err.kind is Message || s.err.kind is Busy)
                ==> t.err == e
            &&& e.kind is Timeout && (s.err.kind is Message || s.err.kind is Busy) ==> t.err == e
            &&& e.kind is NoRecordsFound && s.err.kind is NoRecordsFound ==> t.err == s.err
            &&& e.kind is Io && (s.err.kind is NoRecordsFound || s.err.kind is Io) ==> t.err == s.err
            &&& e.kind is Timeout && (s.err.kind is NoRecordsFound || s.err.kind is Io
                || s.err.kind is Timeout) ==> t.err == s.err
            &&& (e.kind is Message || e.kind is NoConnections) && !(s.err.kind is NoConnections)
                ==> t.err == s.err
        },
{
}

} // verus!
