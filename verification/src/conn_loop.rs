//! The rounds in which one request is put to the connections of a pool.
//!
//! A request goes to a few connections at a time. The first answer ends it. Connections that are
//! busy are asked again after a pause, and the pauses grow until they are long enough to give up.

use vstd::prelude::*;

use crate::conn_set::ConnSet;
use crate::error::{settles, specificity, ProtoError, ProtoErrorKind};
use crate::message::Message;

verus! {

/// The first pause before busy connections are asked again, in milliseconds.
pub const FIRST_BACKOFF: u64 = 20;

/// The pause that is too long to wait for, in milliseconds.
pub const BACKOFF_LIMIT: u64 = 300;

/// What a request still has before it.
pub struct LoopState {
    /// The connections that are still to be asked, in order.
    pub conns: Seq<usize>,
    /// The connections that were too busy to answer.
    pub busy: Seq<usize>,
    /// The error that tells the most so far.
    pub err: ProtoError,
    /// The next pause, in milliseconds.
    pub backoff: u64,
}

/// What is to be done next.
pub enum RoundView {
    /// Ask these connections, all at once, and hand in each reply.
    Query(LoopState, Seq<usize>),
    /// Pause for so many milliseconds, then go on.
    Wait(LoopState, u64),
    /// Nothing is left to try.
    GiveUp(ProtoError),
}

/// What a reply leads to.
pub enum ProgressView {
    /// The other replies of the round count as well.
    Going(LoopState),
    /// The request is answered.
    Done(Result<Message, ProtoError>),
}

/// A pause that occurs: the first one, doubled some times until it passes the limit.
pub open spec fn backoff_ok(backoff: u64) -> bool {
    backoff == 20 || backoff == 40 || backoff == 80 || backoff == 160 || backoff == 320
}

/// The state in which a request sets out.
pub open spec fn initial_state(conns: Seq<usize>, err: ProtoError) -> LoopState {
    LoopState { conns, busy: Seq::empty(), err, backoff: FIRST_BACKOFF }
}

/// The number of connections that are asked at once, at least one.
pub open spec fn width(num_concurrent_reqs: usize) -> nat {
    if num_concurrent_reqs > 1 {
        num_concurrent_reqs as nat
    } else {
        1
    }
}

/// The number of connections that the next round asks.
pub open spec fn batch(remaining: nat, num_concurrent_reqs: usize) -> nat {
    if remaining < width(num_concurrent_reqs) {
        remaining
    } else {
        width(num_concurrent_reqs)
    }
}

/// Positions that can be drawn one after the other from a list that shrinks by one each time.
pub open spec fn valid_draws(remaining: nat, draws: Seq<usize>) -> bool {
    forall|i: int| 0 <= i < draws.len() ==> (#[trigger] draws[i]) < remaining - i
}

/// What is drawn and what remains, when each draw takes out the connection at a position and puts
/// the last one in its place.
pub open spec fn drawn(conns: Seq<usize>, draws: Seq<usize>) -> (Seq<usize>, Seq<usize>)
    decreases draws.len(),
{
    if draws.len() == 0 {
        (Seq::empty(), conns)
    } else {
        let (picked, rest) = drawn(conns, draws.drop_last());
        let i = draws.last() as int;
        (picked.push(rest[i]), rest.update(i, rest.last()).drop_last())
    }
}

/// The next round, for the connections that were picked for it and those that remain.
pub open spec fn round_of(s: LoopState, picked: Seq<usize>, rest: Seq<usize>) -> RoundView {
    if picked.len() > 0 {
        RoundView::Query(LoopState { conns: rest, ..s }, picked)
    } else if s.busy.len() > 0 && s.backoff < BACKOFF_LIMIT {
        RoundView::Wait(
            LoopState {
                conns: rest + s.busy,
                busy: Seq::empty(),
                backoff: (2 * s.backoff) as u64,
                ..s
            },
            s.backoff,
        )
    } else {
        RoundView::GiveUp(s.err)
    }
}

/// The next round when connections are asked in order.
pub open spec fn round_in_order(s: LoopState, num_concurrent_reqs: usize) -> RoundView {
    let n = batch(s.conns.len(), num_concurrent_reqs) as int;
    round_of(s, s.conns.take(n), s.conns.skip(n))
}

/// The next round when the connections at these positions are drawn.
pub open spec fn round_drawn(s: LoopState, draws: Seq<usize>) -> RoundView {
    round_of(s, drawn(s.conns, draws).0, drawn(s.conns, draws).1)
}

/// What the reply of one connection leads to.
pub open spec fn absorbed(
    s: LoopState,
    conn: usize,
    reply: Result<Message, ProtoError>,
) -> ProgressView {
    match reply {
        Ok(response) => ProgressView::Done(Ok(response)),
        Err(e) => if settles(e) {
            ProgressView::Done(Err(e))
        } else if e.kind is Busy {
            ProgressView::Going(LoopState { busy: s.busy.push(conn), ..s })
        } else if s.err.kind is NoConnections || specificity(s.err) < specificity(e) {
            ProgressView::Going(LoopState { err: e, ..s })
        } else {
            ProgressView::Going(s)
        },
    }
}

/// What several replies lead to, in the order in which they come in.
pub open spec fn absorbed_all(
    s: LoopState,
    replies: Seq<(usize, Result<Message, ProtoError>)>,
) -> ProgressView
    decreases replies.len(),
{
    if replies.len() == 0 {
        ProgressView::Going(s)
    } else {
        match absorbed_all(s, replies.drop_last()) {
            ProgressView::Done(result) => ProgressView::Done(result),
            ProgressView::Going(t) => absorbed(t, replies.last().0, replies.last().1),
        }
    }
}

/// A request on its way through the connections of a pool.
pub struct ConnLoop {
    num_concurrent_reqs: usize,
    shuffle: bool,
    conns: Vec<usize>,
    busy: ConnSet,
    err: ProtoError,
    backoff: u64,
}

/// What is to be done next, and the request to go on with afterwards.
pub enum Round {
    /// Ask these connections, all at once, and hand in each reply by `on_reply`.
    Query(ConnLoop, Vec<usize>),
    /// Pause for so many milliseconds, then ask for the next round.
    Wait(ConnLoop, u64),
    /// Nothing is left to try.
    GiveUp(ProtoError),
}

/// What a reply leads to.
pub enum Progress {
    /// Hand in the other replies of the round, then ask for the next one.
    Going(ConnLoop),
    /// The request is answered, the other replies of the round are not needed.
    Done(Result<Message, ProtoError>),
}

impl Round {
    /// What the round is about.
    pub open spec fn view(&self) -> RoundView {
        match *self {
            Round::Query(next, conns) => RoundView::Query(next.state(), conns@),
            Round::Wait(next, millis) => RoundView::Wait(next.state(), millis),
            Round::GiveUp(err) => RoundView::GiveUp(err),
        }
    }

    /// Whether the request that goes on is set up as the given one.
    pub open spec fn keeps(&self, from: ConnLoop) -> bool {
        match *self {
            Round::Query(next, _) => next.same_setup(from),
            Round::Wait(next, _) => next.same_setup(from),
            Round::GiveUp(_) => true,
        }
    }
}

impl Progress {
    /// What the reply has led to.
    pub open spec fn view(&self) -> ProgressView {
        match *self {
            Progress::Going(next) => ProgressView::Going(next.state()),
            Progress::Done(result) => ProgressView::Done(result),
        }
    }
}

/// Whether the round is one that comes next for the request: the one in order, or one at random.
pub open spec fn comes_next(request: ConnLoop, round: RoundView) -> bool {
    if request.shuffles() {
        exists|draws: Seq<usize>|
            {
                &&& draws.len() == batch(request.state().conns.len(), request.concurrency())
                &&& valid_draws(request.state().conns.len(), draws)
                &&& round == #[trigger] round_drawn(request.state(), draws)
            }
    } else {
        round == round_in_order(request.state(), request.concurrency())
    }
}

/// `rand::Rng::gen_range` on `rand::thread_rng()`: some number below `bound`. Which one is left to
/// chance.
#[verifier::external_body]
fn random_below(bound: usize) -> (r: usize)
    requires
        0 < bound,
    ensures
        r < bound,
{
    rand::Rng::gen_range(&mut rand::thread_rng(), 0..bound)
}

/// Random positions to draw from a list that shrinks by one each time.
fn random_draws(remaining: usize, count: usize) -> (r: Vec<usize>)
    requires
        count <= remaining,
    ensures
        r.len() == count,
        valid_draws(remaining as nat, r@),
{
    let mut draws: Vec<usize> = Vec::new();
    let mut i: usize = 0;
    while i < count
        invariant
            i <= count <= remaining,
            draws.len() == i,
            valid_draws(remaining as nat, draws@),
        decreases count - i,
    {
        draws.push(random_below(remaining - i));
        i += 1;
    }
    draws
}

proof fn lemma_drawn_len(conns: Seq<usize>, draws: Seq<usize>)
    requires
        draws.len() <= conns.len(),
        valid_draws(conns.len(), draws),
    ensures
        drawn(conns, draws).0.len() == draws.len(),
        drawn(conns, draws).1.len() == conns.len() - draws.len(),
    decreases draws.len(),
{
    if draws.len() > 0 {
        assert(valid_draws(conns.len(), draws.drop_last()));
        lemma_drawn_len(conns, draws.drop_last());
        assert(draws[draws.len() - 1] < conns.len() - (draws.len() - 1));
    }
}

/// Takes the connections at the drawn positions out of the list.
fn draw(conns: &mut Vec<usize>, draws: &Vec<usize>) -> (picked: ConnSet)
    requires
        draws.len() <= old(conns).len(),
        valid_draws(old(conns)@.len(), draws@),
    ensures
        picked@ == drawn(old(conns)@, draws@).0,
        final(conns)@ == drawn(old(conns)@, draws@).1,
{
    let ghost all = conns@;
    let mut picked = ConnSet::new();
    let mut i: usize = 0;
    assert(draws@.take(0) =~= Seq::<usize>::empty());
    while i < draws.len()
        invariant
            i <= draws.len() <= all.len(),
            valid_draws(all.len(), draws@),
            picked@ == drawn(all, draws@.take(i as int)).0,
            conns@ == drawn(all, draws@.take(i as int)).1,
        decreases draws.len() - i,
    {
        proof {
            assert(valid_draws(all.len(), draws@.take(i as int)));
            lemma_drawn_len(all, draws@.take(i as int));
            assert(draws@.take(i + 1).drop_last() =~= draws@.take(i as int));
        }
        picked.push(conns.swap_remove(draws[i]));
        i += 1;
    }
    assert(draws@.take(i as int) =~= draws@);
    picked
}

/// Takes the first connections out of the list.
fn take_front(conns: &mut Vec<usize>, count: usize) -> (picked: ConnSet)
    requires
        count <= old(conns).len(),
    ensures
        picked@ == old(conns)@.take(count as int),
        final(conns)@ == old(conns)@.skip(count as int),
{
    let ghost all = conns@;
    let rest = conns.split_off(count);
    let mut picked = ConnSet::new();
    let mut i: usize = 0;
    while i < conns.len()
        invariant
            i <= conns.len(),
            conns@ == all.take(count as int),
            picked@ == conns@.take(i as int),
        decreases conns.len() - i,
    {
        picked.push(conns[i]);
        i += 1;
        assert(picked@ =~= conns@.take(i as int));
    }
    assert(picked@ =~= all.take(count as int));
    *conns = rest;
    assert(conns@ =~= all.skip(count as int));
    picked
}

impl ConnLoop {
    /// What the request still has before it.
    pub closed spec fn state(self) -> LoopState {
        LoopState {
            conns: self.conns@,
            busy: self.busy@,
            err: self.err,
            backoff: self.backoff,
        }
    }

    /// How many requests may be under way at once.
    pub closed spec fn concurrency(self) -> usize {
        self.num_concurrent_reqs
    }

    /// Whether connections are asked in random order.
    pub closed spec fn shuffles(self) -> bool {
        self.shuffle
    }

    /// Whether both requests pick their connections in the same way.
    pub open spec fn same_setup(self, other: ConnLoop) -> bool {
        &&& self.concurrency() == other.concurrency()
        &&& self.shuffles() == other.shuffles()
    }

    #[verifier::type_invariant]
    closed spec fn inv(self) -> bool {
        backoff_ok(self.backoff)
    }

    /// A request that is to be put to the connections, in this order.
    pub fn new(conns: Vec<usize>, num_concurrent_reqs: usize, shuffle: bool) -> (r: ConnLoop)
        ensures
            r.state().err.kind is NoConnections,
            r.state() == initial_state(conns@, r.state().err),
            r.concurrency() == num_concurrent_reqs,
            r.shuffles() == shuffle,
    {
        ConnLoop {
            num_concurrent_reqs,
            shuffle,
            conns,
            busy: ConnSet::new(),
            err: ProtoError::new(ProtoErrorKind::NoConnections),
            backoff: FIRST_BACKOFF,
        }
    }

    /// The number of connections that the next round asks.
    fn batch_size(&self) -> (r: usize)
        ensures
            r == batch(self.state().conns.len(), self.concurrency()),
    {
        let width: usize = if self.num_concurrent_reqs > 1 {
            self.num_concurrent_reqs
        } else {
            1
        };
        if self.conns.len() < width {
            self.conns.len()
        } else {
            width
        }
    }

    /// The round for the connections that were picked for it.
    fn round(self, conns: Vec<usize>, picked: ConnSet) -> (r: Round)
        ensures
            r@ == round_of(self.state(), picked@, conns@),
            r.keeps(self),
    {
        proof {
            use_type_invariant(&self);
        }
        let mut conns = conns;
        let ConnLoop { num_concurrent_reqs, shuffle, conns: _, busy, err, backoff } = self;
        let mut busy = busy;
        if !picked.is_empty() {
            let asked = picked.into_vec();
            Round::Query(
                ConnLoop { num_concurrent_reqs, shuffle, conns, busy, err, backoff },
                asked,
            )
        } else if !busy.is_empty() && backoff < BACKOFF_LIMIT {
            let mut waiting = busy.drain();
            conns.append(&mut waiting);
            Round::Wait(
                ConnLoop { num_concurrent_reqs, shuffle, conns, busy, err, backoff: backoff * 2 },
                backoff,
            )
        } else {
            Round::GiveUp(err)
        }
    }

    /// The next round: which connections to ask, how long to pause, or the error to give up with.
    ///
    /// A request that shuffles draws its connections at random.
    pub fn next_round(self) -> (r: Round)
        ensures
            backoff_ok(self.state().backoff),
            r.keeps(self),
            comes_next(self, r@),
    {
        proof {
            use_type_invariant(&self);
        }
        if self.shuffle {
            let draws = random_draws(self.conns.len(), self.batch_size());
            self.next_round_drawn(&draws)
        } else {
            self.next_round_in_order()
        }
    }

    /// The next round, with the connections asked in order.
    fn next_round_in_order(self) -> (r: Round)
        ensures
            r.keeps(self),
            r@ == round_in_order(self.state(), self.concurrency()),
    {
        proof {
            use_type_invariant(&self);
        }
        let mut this = self;
        let count: usize = this.batch_size();
        let mut conns: Vec<usize> = Vec::new();
        std::mem::swap(&mut conns, &mut this.conns);
        let picked = take_front(&mut conns, count);
        assert(round_of(this.state(), picked@, conns@) == round_of(self.state(), picked@, conns@));
        this.round(conns, picked)
    }

    /// The next round, with the connections at these positions drawn one after the other.
    pub fn next_round_drawn(self, draws: &Vec<usize>) -> (r: Round)
        requires
            draws.len() == batch(self.state().conns.len(), self.concurrency()),
            valid_draws(self.state().conns.len(), draws@),
        ensures
            r.keeps(self),
            r@ == round_drawn(self.state(), draws@),
    {
        proof {
            use_type_invariant(&self);
        }
        let mut this = self;
        let mut conns: Vec<usize> = Vec::new();
        std::mem::swap(&mut conns, &mut this.conns);
        let picked = draw(&mut conns, draws);
        assert(round_of(this.state(), picked@, conns@) == round_of(self.state(), picked@, conns@));
        this.round(conns, picked)
    }

    /// Takes in the reply of a connection that was asked.
    pub fn on_reply(self, conn: usize, reply: Result<Message, ProtoError>) -> (r: Progress)
        ensures
            backoff_ok(self.state().backoff),
            r@ == absorbed(self.state(), conn, reply),
            r matches Progress::Going(next) ==> next.same_setup(self),
    {
        proof {
            use_type_invariant(&self);
        }
        let e = match reply {
            Ok(response) => {
                return Progress::Done(Ok(response));
            },
            Err(e) => e,
        };
        if e.is_settled() {
            return Progress::Done(Err(e));
        }
        let ConnLoop { num_concurrent_reqs, shuffle, conns, busy, err, backoff } = self;
        let mut busy = busy;
        if e.is_busy() {
            busy.push(conn);
            Progress::Going(ConnLoop { num_concurrent_reqs, shuffle, conns, busy, err, backoff })
        } else if err.is_no_connections() {
            // The request sets out with this error, so any other tells more.
            Progress::Going(ConnLoop { num_concurrent_reqs, shuffle, conns, busy, err: e, backoff })
        } else {
            let err = match err.cmp_specificity(&e) {
                std::cmp::Ordering::Less => e,
                _ => err,
            };
            Progress::Going(ConnLoop { num_concurrent_reqs, shuffle, conns, busy, err, backoff })
        }
    }
}

} // verus!
