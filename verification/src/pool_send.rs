//! A request to a pool, from its first datagram to its result.

use vstd::prelude::*;

use crate::config::ResolverOpts;
use crate::conn_loop::{
    absorbed, comes_next, ConnLoop, Progress, ProgressView, Round, RoundView,
};
use crate::error::ProtoError;
use crate::message::Message;
use crate::pool::{
    after_stream, better, send_result, sends, wants_stream, AfterDatagram, NameServerPool,
};

verus! {

/// A request on its way through a pool.
pub struct PoolSend {
    rounds: ConnLoop,
    udp: Option<Result<Message, ProtoError>>,
}

/// What is to be done next for a request.
pub enum SendStep {
    /// Ask these connections, all at once, and hand in each reply by `on_reply`. They are streams if
    /// the request has gone over to streams, and else they are reached by datagrams.
    Ask(PoolSend, Vec<usize>),
    /// Pause for so many milliseconds, then go on.
    Pause(PoolSend, u64),
    /// Hand in the other replies of the round, then go on.
    Going(PoolSend),
    /// Go over to streams by `send_over_streams`: this came by datagrams.
    TryStreams(Result<Message, ProtoError>),
    /// The request has come to this.
    Done(Result<Message, ProtoError>),
}

/// Whether the step is what the result of the rounds leads to. Of what came by datagrams, it may be
/// tried to better it over streams; of what came over streams, the better of both is the result.
pub open spec fn settles_to(
    options: ResolverOpts,
    has_streams: bool,
    udp: Option<Result<Message, ProtoError>>,
    result: Result<Message, ProtoError>,
    step: SendStep,
) -> bool {
    match udp {
        None => if wants_stream(options, result) && has_streams {
            step == SendStep::TryStreams(result)
        } else {
            step == SendStep::Done(result)
        },
        Some(udp) => step == SendStep::Done(better(udp, result)),
    }
}

/// Whether the request that goes on is the given one, but for its rounds.
pub open spec fn same_request(from: PoolSend, next: PoolSend) -> bool {
    &&& next.over_datagrams() == from.over_datagrams()
    &&& next.loop_of().same_setup(from.loop_of())
}

/// Whether the step is what a round leads to.
pub open spec fn round_leads_to(
    options: ResolverOpts,
    has_streams: bool,
    from: PoolSend,
    round: RoundView,
    step: SendStep,
) -> bool {
    match round {
        RoundView::Query(state, conns) => step matches SendStep::Ask(next, asked)
            && next.loop_of().state() == state && asked@ == conns && same_request(from, next),
        RoundView::Wait(state, millis) => step matches SendStep::Pause(next, pause)
            && next.loop_of().state() == state && pause == millis && same_request(from, next),
        RoundView::GiveUp(error) => settles_to(
            options,
            has_streams,
            from.over_datagrams(),
            Err(error),
            step,
        ),
    }
}

/// Whether the step is what a reply leads to.
pub open spec fn reply_leads_to(
    options: ResolverOpts,
    has_streams: bool,
    from: PoolSend,
    progress: ProgressView,
    step: SendStep,
) -> bool {
    match progress {
        ProgressView::Going(state) => step matches SendStep::Going(next) && next.loop_of().state()
            == state && same_request(from, next),
        ProgressView::Done(result) => settles_to(
            options,
            has_streams,
            from.over_datagrams(),
            result,
            step,
        ),
    }
}

impl PoolSend {
    /// The rounds of the connections that are asked now.
    pub closed spec fn loop_of(&self) -> ConnLoop {
        self.rounds
    }

    /// What came by datagrams, once the request has gone over to streams.
    pub closed spec fn over_datagrams(&self) -> Option<Result<Message, ProtoError>> {
        self.udp
    }

    /// Whether the request has gone over to streams.
    pub fn over_streams(&self) -> (r: bool)
        ensures
            r == (self.over_datagrams() is Some),
    {
        self.udp.is_some()
    }
}

impl<P, C> NameServerPool<P, C> {
    /// Puts a request to the servers that are reached by datagrams. `ranks` says of each how well it
    /// answered so far, the best with the lowest number.
    pub fn send(&self, ranks: &Vec<u64>) -> (r: PoolSend)
        requires
            ranks.len() == self.datagram().len(),
        ensures
            r.over_datagrams() is None,
            sends(self.opts(), ranks@, *self.counters().0, r.loop_of()),
    {
        let r = PoolSend { rounds: self.send_datagram(ranks), udp: None };
        assert(r.loop_of() == r.rounds);
        r
    }

    /// Puts a request to the servers that are reached over streams, after this came by datagrams.
    pub fn send_over_streams(&self, udp: Result<Message, ProtoError>, ranks: &Vec<u64>) -> (r:
        PoolSend)
        requires
            ranks.len() == self.stream().len(),
        ensures
            r.over_datagrams() == Some(udp),
            sends(self.opts(), ranks@, *self.counters().1, r.loop_of()),
    {
        let r = PoolSend { rounds: self.send_stream(ranks), udp: Some(udp) };
        assert(r.loop_of() == r.rounds);
        r
    }

    /// What the result of the rounds leads to.
    fn settle(
        &self,
        udp: Option<Result<Message, ProtoError>>,
        result: Result<Message, ProtoError>,
    ) -> (r: SendStep)
        ensures
            settles_to(self.opts(), self.stream().len() > 0, udp, result, r),
    {
        match udp {
            None => match self.after_datagram(result) {
                AfterDatagram::Done(result) => SendStep::Done(result),
                AfterDatagram::TryStream(udp) => SendStep::TryStreams(udp),
            },
            Some(udp) => SendStep::Done(after_stream(udp, result)),
        }
    }

    /// What is to be done next for a request all of whose connections have replied.
    pub fn next_step(&self, request: PoolSend) -> (r: SendStep)
        ensures
            exists|round: RoundView|
                #[trigger] comes_next(request.loop_of(), round) && round_leads_to(
                    self.opts(),
                    self.stream().len() > 0,
                    request,
                    round,
                    r,
                ),
    {
        let PoolSend { rounds, udp } = request;
        let round = rounds.next_round();
        let ghost view = round@;
        assert(comes_next(request.loop_of(), view));
        let r = match round {
            Round::Query(rounds, conns) => SendStep::Ask(PoolSend { rounds, udp }, conns),
            Round::Wait(rounds, millis) => SendStep::Pause(PoolSend { rounds, udp }, millis),
            Round::GiveUp(error) => self.settle(udp, Err(error)),
        };
        assert(round_leads_to(self.opts(), self.stream().len() > 0, request, view, r));
        r
    }

    /// Takes in the reply of a connection that was asked.
    pub fn on_reply(&self, request: PoolSend, conn: usize, reply: Result<Message, ProtoError>) -> (r:
        SendStep)
        ensures
            reply_leads_to(
                self.opts(),
                self.stream().len() > 0,
                request,
                absorbed(request.loop_of().state(), conn, reply),
                r,
            ),
    {
        let PoolSend { rounds, udp } = request;
        match rounds.on_reply(conn, reply) {
            Progress::Going(rounds) => SendStep::Going(PoolSend { rounds, udp }),
            Progress::Done(result) => self.settle(udp, result),
        }
    }
}

/// Whatever the rounds over datagrams and over streams come to, the request comes to the result that
/// the pool chooses from both: at once, or after the streams were tried.
pub proof fn law_requests_come_to_the_better_result(
    options: ResolverOpts,
    has_streams: bool,
    udp: Result<Message, ProtoError>,
    tcp: Result<Message, ProtoError>,
    first: SendStep,
    second: SendStep,
)
    requires
        settles_to(options, has_streams, None, udp, first),
        first matches SendStep::TryStreams(kept) ==> settles_to(
            options,
            has_streams,
            Some(kept),
            tcp,
            second,
        ),
    ensures
        match first {
            SendStep::TryStreams(_) => second == SendStep::Done(
                send_result(options, has_streams, udp, tcp),
            ),
            _ => first == SendStep::Done(send_result(options, has_streams, udp, tcp)),
        },
{
}

} // verus!
