//! What holds of every request on its way through the connections of a pool.

use vstd::prelude::*;

use crate::conn_loop::{
    absorbed, absorbed_all, backoff_ok, batch, drawn, round_drawn, round_in_order, round_of,
    valid_draws, width, LoopState, ProgressView, RoundView, BACKOFF_LIMIT, FIRST_BACKOFF,
};
use crate::error::{settles, specificity, ProtoError};
use crate::message::Message;

verus! {

/// A reply that ends the request.
pub open spec fn ends(reply: Result<Message, ProtoError>) -> bool {
    match reply {
        Ok(_) => true,
        Err(e) => settles(e),
    }
}

/// A reply of a connection that is busy.
pub open spec fn is_busy(reply: Result<Message, ProtoError>) -> bool {
    reply matches Err(e) && e.kind is Busy
}

/// The connections whose replies say that they are busy, in the order of the replies.
pub open spec fn busy_conns(replies: Seq<(usize, Result<Message, ProtoError>)>) -> Seq<usize>
    decreases replies.len(),
{
    if replies.len() == 0 {
        Seq::empty()
    } else if is_busy(replies.last().1) {
        busy_conns(replies.drop_last()).push(replies.last().0)
    } else {
        busy_conns(replies.drop_last())
    }
}

/// The first reply that is an answer, or a denial that settles the question, is what the request
/// comes to. Without such a reply it goes on.
pub proof fn law_first_answer_wins(
    s: LoopState,
    replies: Seq<(usize, Result<Message, ProtoError>)>,
)
    ensures
        match absorbed_all(s, replies) {
            ProgressView::Done(result) => exists|i: int|
                {
                    &&& 0 <= i < replies.len()
                    &&& ends((#[trigger] replies[i]).1)
                    &&& result == replies[i].1
                    &&& forall|j: int| 0 <= j < i ==> !ends((#[trigger] replies[j]).1)
                },
            ProgressView::Going(_) => forall|j: int|
                0 <= j < replies.len() ==> !ends((#[trigger] replies[j]).1),
        },
    decreases replies.len(),
{
    if replies.len() > 0 {
        let before = replies.drop_last();
        law_first_answer_wins(s, before);
        match absorbed_all(s, before) {
            ProgressView::Done(result) => {
                let i = choose|i: int|
                    {
                        &&& 0 <= i < before.len()
                        &&& ends((#[trigger] before[i]).1)
                        &&& result == before[i].1
                        &&& forall|j: int| 0 <= j < i ==> !ends((#[trigger] before[j]).1)
                    };
                assert(replies[i] == before[i]);
                assert forall|j: int| 0 <= j < i implies !ends((#[trigger] replies[j]).1) by {
                    assert(replies[j] == before[j]);
                }
            },
            ProgressView::Going(t) => {
                let last = replies.len() - 1;
                assert forall|j: int| 0 <= j < last implies !ends((#[trigger] replies[j]).1) by {
                    assert(replies[j] == before[j]);
                }
                assert(replies[last] == replies.last());
            },
        }
    }
}

/// While the request goes on, the error kept for it tells at least as much as every error that came
/// in from a connection that was not busy. It is one of those, or the error of before; and where
/// all connections were busy it is the error of before.
pub proof fn law_error_tells_the_most(
    s: LoopState,
    replies: Seq<(usize, Result<Message, ProtoError>)>,
    t: LoopState,
)
    requires
        absorbed_all(s, replies) == ProgressView::Going(t),
    ensures
        specificity(s.err) <= specificity(t.err),
        forall|i: int|
            0 <= i < replies.len() && !is_busy((#[trigger] replies[i]).1) ==> specificity(
                replies[i].1->Err_0,
            ) <= specificity(t.err),
        t.err == s.err || exists|i: int|
            0 <= i < replies.len() && (#[trigger] replies[i]).1 == Err::<Message, ProtoError>(t.err)
                && !is_busy(replies[i].1),
        (forall|i: int| 0 <= i < replies.len() ==> is_busy((#[trigger] replies[i]).1)) ==> t.err
            == s.err,
    decreases replies.len(),
{
    if replies.len() > 0 {
        let before = replies.drop_last();
        let last = replies.len() - 1;
        assert(replies[last] == replies.last());
        match absorbed_all(s, before) {
            ProgressView::Done(_) => {
                assert(false);
            },
            ProgressView::Going(u) => {
                law_error_tells_the_most(s, before, u);
                assert forall|i: int|
                    0 <= i < replies.len() && !is_busy((#[trigger] replies[i]).1) implies specificity(
                    replies[i].1->Err_0,
                ) <= specificity(t.err) by {
                    if i < last {
                        assert(replies[i] == before[i]);
                    }
                }
                if t.err != s.err {
                    if t.err == u.err {
                        let i = choose|i: int|
                            0 <= i < before.len() && (#[trigger] before[i]).1 == Err::<
                                Message,
                                ProtoError,
                            >(u.err) && !is_busy(before[i].1);
                        assert(replies[i] == before[i]);
                    } else {
                        assert(replies[last].1 == Err::<Message, ProtoError>(t.err));
                    }
                }
                if forall|i: int| 0 <= i < replies.len() ==> is_busy((#[trigger] replies[i]).1) {
                    assert forall|i: int| 0 <= i < before.len() implies is_busy(
                        (#[trigger] before[i]).1,
                    ) by {
                        assert(before[i] == replies[i]);
                    }
                }
            },
        }
    }
}

/// While the request goes on, replies change neither the connections that are still to be asked
/// nor the next pause, and exactly the busy connections are set aside, in the order in which they
/// replied.
pub proof fn law_busy_connections_are_kept(
    s: LoopState,
    replies: Seq<(usize, Result<Message, ProtoError>)>,
    t: LoopState,
)
    requires
        absorbed_all(s, replies) == ProgressView::Going(t),
    ensures
        t.conns == s.conns,
        t.backoff == s.backoff,
        t.busy == s.busy + busy_conns(replies),
    decreases replies.len(),
{
    if replies.len() > 0 {
        match absorbed_all(s, replies.drop_last()) {
            ProgressView::Done(_) => {
                assert(false);
            },
            ProgressView::Going(u) => {
                law_busy_connections_are_kept(s, replies.drop_last(), u);
            },
        }
    }
    assert(t.busy =~= s.busy + busy_conns(replies));
}

/// Drawing connections takes each one from the list and leaves the others there.
pub proof fn lemma_drawn_multiset(conns: Seq<usize>, draws: Seq<usize>)
    requires
        draws.len() <= conns.len(),
        valid_draws(conns.len(), draws),
    ensures
        drawn(conns, draws).0.len() == draws.len(),
        drawn(conns, draws).1.len() == conns.len() - draws.len(),
        (drawn(conns, draws).0 + drawn(conns, draws).1).to_multiset() == conns.to_multiset(),
    decreases draws.len(),
{
    broadcast use vstd::seq_lib::group_to_multiset_ensures;

    let (picked, rest) = drawn(conns, draws);
    if draws.len() == 0 {
        assert(picked + rest =~= conns);
    } else {
        assert(valid_draws(conns.len(), draws.drop_last()));
        lemma_drawn_multiset(conns, draws.drop_last());
        let (picked0, rest0) = drawn(conns, draws.drop_last());
        let i = draws.last() as int;
        assert(draws[draws.len() - 1] < conns.len() - (draws.len() - 1));
        assert(0 <= i < rest0.len());
        vstd::seq_lib::lemma_multiset_commutative(picked0, rest0);
        vstd::seq_lib::lemma_multiset_commutative(picked, rest);
        assert(picked.to_multiset() =~= picked0.to_multiset().insert(rest0[i]));
        // The place of the taken one is filled from the end of the list.
        let last = rest0.len() - 1;
        if i == last {
            assert(rest =~= rest0.drop_last());
            assert(rest.push(rest0[i]) =~= rest0);
        } else {
            assert(rest =~= rest0.drop_last().update(i, rest0[last]));
            assert(rest.push(rest0[i]).to_multiset() =~= rest0.to_multiset()) by {
                lemma_swap_multiset(rest0, i, last);
                assert(rest.push(rest0[i]) =~= rest0.update(i, rest0[last]).update(last, rest0[i]));
            }
        }
        assert(rest0.to_multiset() =~= rest.to_multiset().insert(rest0[i]));
        assert((picked + rest).to_multiset() =~= (picked0 + rest0).to_multiset());
    }
}

/// Two connections that change places leave the list with the same connections.
proof fn lemma_swap_multiset(s: Seq<usize>, i: int, j: int)
    requires
        0 <= i < s.len(),
        0 <= j < s.len(),
        i != j,
    ensures
        s.update(i, s[j]).update(j, s[i]).to_multiset() == s.to_multiset(),
{
    broadcast use vstd::seq_lib::group_to_multiset_ensures;

    assert(s.update(i, s[j]).update(j, s[i]).to_multiset() =~= s.to_multiset());
}

/// No connection is lost and none multiplied: in a round those asked and those still to be
/// asked are together the ones that there were to ask, and a pause brings back those that were
/// busy. This is so in order and at random.
pub proof fn law_no_connection_is_lost(s: LoopState, num_concurrent_reqs: usize, draws: Seq<usize>)
    requires
        draws.len() == batch(s.conns.len(), num_concurrent_reqs),
        valid_draws(s.conns.len(), draws),
    ensures
        round_in_order(s, num_concurrent_reqs) matches RoundView::Query(t, asked) ==> {
            &&& asked + t.conns == s.conns
            &&& t.busy == s.busy
        },
        round_drawn(s, draws) matches RoundView::Query(t, asked) ==> {
            &&& (asked + t.conns).to_multiset() == s.conns.to_multiset()
            &&& t.busy == s.busy
        },
        round_in_order(s, num_concurrent_reqs) matches RoundView::Wait(t, _) ==> {
            &&& s.conns.len() == 0
            &&& t.conns == s.busy
            &&& t.busy.len() == 0
        },
        round_drawn(s, draws) matches RoundView::Wait(t, _) ==> {
            &&& s.conns.len() == 0
            &&& t.conns == s.busy
            &&& t.busy.len() == 0
        },
{
    lemma_drawn_multiset(s.conns, draws);
    let n = batch(s.conns.len(), num_concurrent_reqs) as int;
    assert(s.conns.take(n) + s.conns.skip(n) =~= s.conns);
    assert(s.conns.len() == 0 ==> s.conns.skip(n) + s.busy =~= s.busy);
    assert(drawn(s.conns, draws).1.len() == 0 ==> drawn(s.conns, draws).1 + s.busy =~= s.busy);
}

/// The number of pauses that may still come before the given one is too long.
pub open spec fn pauses_left(backoff: u64) -> nat {
    if backoff == 20 {
        4
    } else if backoff == 40 {
        3
    } else if backoff == 80 {
        2
    } else if backoff == 160 {
        1
    } else {
        0
    }
}

/// A request comes to an end: each round asks a connection and leaves fewer to ask, or it pauses
/// and leaves fewer pauses, or it gives up. It gives up exactly when no connection is left to ask
/// and either none is busy or the pause would be too long.
pub proof fn law_rounds_end(s: LoopState, num_concurrent_reqs: usize, draws: Seq<usize>)
    requires
        backoff_ok(s.backoff),
        draws.len() == batch(s.conns.len(), num_concurrent_reqs),
        valid_draws(s.conns.len(), draws),
    ensures
        forall|round: RoundView|
            #![trigger round is GiveUp]
            round == round_in_order(s, num_concurrent_reqs) || round == round_drawn(s, draws) ==> {
                &&& match round {
                    RoundView::Query(t, asked) => {
                        &&& 0 < asked.len() <= width(num_concurrent_reqs)
                        &&& t.conns.len() + asked.len() == s.conns.len()
                        &&& t.backoff == s.backoff
                    },
                    RoundView::Wait(t, _) => {
                        &&& backoff_ok(t.backoff)
                        &&& pauses_left(t.backoff) < pauses_left(s.backoff)
                    },
                    RoundView::GiveUp(err) => err == s.err,
                }
                &&& round is GiveUp <==> s.conns.len() == 0 && (s.busy.len() == 0 || s.backoff
                    >= BACKOFF_LIMIT)
            },
{
    lemma_drawn_multiset(s.conns, draws);
}

/// Whether a request can get from one state to the next, by a round or by a reply.
pub open spec fn follows(s: LoopState, t: LoopState) -> bool {
    ||| exists|picked: Seq<usize>, rest: Seq<usize>|
        #[trigger] round_of(s, picked, rest) == RoundView::Query(t, picked)
    ||| exists|picked: Seq<usize>, rest: Seq<usize>|
        #[trigger] round_of(s, picked, rest) == RoundView::Wait(t, s.backoff)
    ||| exists|conn: usize, reply: Result<Message, ProtoError>|
        #[trigger] absorbed(s, conn, reply) == ProgressView::Going(t)
}

/// The pause between two states that follow each other, in milliseconds. Only a round that pauses
/// changes the next pause.
pub open spec fn paused(s: LoopState, t: LoopState) -> int {
    if t.backoff == s.backoff {
        0
    } else {
        s.backoff as int
    }
}

/// All pauses of a request that went through these states.
pub open spec fn total_pause(run: Seq<LoopState>) -> int
    decreases run.len(),
{
    if run.len() < 2 {
        0
    } else {
        total_pause(run.drop_last()) + paused(run[run.len() - 2], run.last())
    }
}

/// However the replies come, the pauses of one request add up to at most `BACKOFF_LIMIT`
/// milliseconds: they double from the first one on, and one that has reached the limit is not
/// waited for.
pub proof fn law_total_pause_is_bounded(run: Seq<LoopState>)
    requires
        run.len() > 0,
        run[0].backoff == FIRST_BACKOFF,
        forall|i: int| 0 <= i < run.len() - 1 ==> follows(#[trigger] run[i], run[i + 1]),
    ensures
        backoff_ok(run.last().backoff),
        total_pause(run) == run.last().backoff - FIRST_BACKOFF,
        total_pause(run) <= BACKOFF_LIMIT,
    decreases run.len(),
{
    if run.len() > 1 {
        let before = run.drop_last();
        assert forall|i: int| 0 <= i < before.len() - 1 implies follows(
            #[trigger] before[i],
            before[i + 1],
        ) by {
            assert(before[i] == run[i] && before[i + 1] == run[i + 1]);
        }
        law_total_pause_is_bounded(before);
        let s = run[run.len() - 2];
        let t = run.last();
        assert(before.last() == s);
        assert(follows(s, t));
        assert(t.backoff == s.backoff || (s.backoff < BACKOFF_LIMIT && t.backoff == 2 * s.backoff));
    }
}

} // verus!
