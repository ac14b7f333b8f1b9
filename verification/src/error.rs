//! The errors that a name server, or the way to it, answers with.

use vstd::prelude::*;

use crate::record::Record;

verus! {

/// What went wrong in the transport below a request.
#[derive(Debug, Clone, Copy, PartialEq, Eq, Structural)]
pub enum IoErrorKind {
    ConnectionRefused,
    Other,
}

/// The kinds of errors.
#[derive(Debug, PartialEq)]
pub enum ProtoErrorKind {
    /// There was no connection to send the request over.
    NoConnections,
    /// The server has too much to do at the moment.
    Busy,
    /// No answer came in time.
    Timeout,
    /// The transport failed.
    Io(IoErrorKind),
    /// The server answered that there are no such records.
    NoRecordsFound {
        /// Whether the server is trusted in what it denies.
        trusted: bool,
        /// The start of authority that came with the denial.
        soa: Option<Record>,
        /// The name servers to which the denial refers.
        ns: Option<Vec<Record>>,
    },
    /// Any other error, in words.
    Message(String),
}

/// An error from a name server or from the way to it.
#[derive(Debug, PartialEq)]
pub struct ProtoError {
    pub kind: ProtoErrorKind,
}

/// How much an error tells about the name that was asked for: an answer of a server tells more
/// than a failure of the transport, which tells more than silence.
pub open spec fn specificity(e: ProtoError) -> nat {
    match e.kind {
        ProtoErrorKind::NoRecordsFound { .. } => 3,
        ProtoErrorKind::Io(_) => 2,
        ProtoErrorKind::Timeout => 1,
        _ => 0,
    }
}

/// A denial that settles the question: it comes from a trusted server or names its source.
pub open spec fn settles(e: ProtoError) -> bool {
    match e.kind {
        ProtoErrorKind::NoRecordsFound { trusted, soa, ns } => trusted || soa is Some || ns is Some,
        _ => false,
    }
}

impl ProtoError {
    /// An error of the kind.
    pub fn new(kind: ProtoErrorKind) -> (r: ProtoError)
        ensures
            r.kind == kind,
    {
        ProtoError { kind }
    }

    /// Whether the server has too much to do.
    pub fn is_busy(&self) -> (r: bool)
        ensures
            r == (self.kind is Busy),
    {
        matches!(self.kind, ProtoErrorKind::Busy)
    }

    /// Whether there was no connection to use.
    pub fn is_no_connections(&self) -> (r: bool)
        ensures
            r == (self.kind is NoConnections),
    {
        matches!(self.kind, ProtoErrorKind::NoConnections)
    }

    /// Whether the transport failed.
    pub fn is_io(&self) -> (r: bool)
        ensures
            r == (self.kind is Io),
    {
        matches!(self.kind, ProtoErrorKind::Io(_))
    }

    /// Whether the error is a denial that settles the question.
    pub fn is_settled(&self) -> (r: bool)
        ensures
            r == settles(*self),
    {
        match &self.kind {
            ProtoErrorKind::NoRecordsFound { trusted, soa, ns } => *trusted || soa.is_some()
                || ns.is_some(),
            _ => false,
        }
    }

    fn rank(&self) -> (r: u8)
        ensures
            r == specificity(*self),
    {
        match &self.kind {
            ProtoErrorKind::NoRecordsFound { .. } => 3,
            ProtoErrorKind::Io(_) => 2,
            ProtoErrorKind::Timeout => 1,
            _ => 0,
        }
    }

    /// Compares how much the two errors tell.
    pub fn cmp_specificity(&self, other: &ProtoError) -> (r: std::cmp::Ordering)
        ensures
            (r == std::cmp::Ordering::Less) == (specificity(*self) < specificity(*other)),
            (r == std::cmp::Ordering::Equal) == (specificity(*self) == specificity(*other)),
            (r == std::cmp::Ordering::Greater) == (specificity(*self) > specificity(*other)),
    {
        let a: u8 = self.rank();
        let b: u8 = other.rank();
        if a < b {
            std::cmp::Ordering::Less
        } else if a == b {
            std::cmp::Ordering::Equal
        } else {
            std::cmp::Ordering::Greater
        }
    }
}

} // verus!
