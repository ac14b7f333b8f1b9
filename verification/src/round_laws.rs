//! Which connections a round asks, and when it pauses.

use vstd::prelude::*;

use crate::conn_laws::lemma_drawn_multiset;
use crate::conn_loop::{
    batch, comes_next, drawn, initial_state, round_drawn, round_in_order, valid_draws, ConnLoop,
    LoopState, RoundView,
};
use crate::error::ProtoError;

verus! {

/// A round asks as many connections as may be asked at once, but at least one, and no more than are
/// left. In order these are the next ones. All else stays as it was.
pub proof fn law_a_round_asks_the_next(s: LoopState, num_concurrent_reqs: usize, draws: Seq<usize>)
    requires
        s.conns.len() > 0,
        draws.len() == batch(s.conns.len(), num_concurrent_reqs),
        valid_draws(s.conns.len(), draws),
    ensures
        round_in_order(s, num_concurrent_reqs) matches RoundView::Query(t, asked) && {
            &&& asked.len() == vstd::math::min(
                s.conns.len() as int,
                vstd::math::max(1, num_concurrent_reqs as int),
            )
            &&& forall|i: int| 0 <= i < asked.len() ==> #[trigger] asked[i] == s.conns[i]
            &&& asked.len() + t.conns.len() == s.conns.len()
            &&& forall|i: int|
                0 <= i < t.conns.len() ==> #[trigger] t.conns[i] == s.conns[asked.len() + i]
            &&& t.busy == s.busy && t.err == s.err && t.backoff == s.backoff
        },
        round_drawn(s, draws) matches RoundView::Query(t, asked) && {
            &&& asked.len() == vstd::math::min(
                s.conns.len() as int,
                vstd::math::max(1, num_concurrent_reqs as int),
            )
            &&& t.busy == s.busy && t.err == s.err && t.backoff == s.backoff
        },
{
    lemma_drawn_multiset(s.conns, draws);
}

/// A pause comes exactly when no connection is left to ask, some are busy, and the pause is shorter
/// than 300 milliseconds; the busy connections are then asked again, in their order, and the next
/// pause is twice as long. Else a request without connections left gives up with the error that was
/// kept. This is so in order and at random.
pub proof fn law_a_pause_brings_the_busy_back(
    s: LoopState,
    num_concurrent_reqs: usize,
    round: RoundView,
)
    requires
        s.conns.len() == 0,
        s.backoff <= 320,
        round == round_in_order(s, num_concurrent_reqs) || round == round_drawn(s, Seq::empty()),
    ensures
        round is Wait <==> s.busy.len() > 0 && s.backoff < 300,
        round is GiveUp <==> s.busy.len() == 0 || s.backoff >= 300,
        round matches RoundView::Wait(t, millis) ==> {
            &&& millis == s.backoff
            &&& t.conns == s.busy
            &&& t.busy.len() == 0
            &&& t.err == s.err
            &&& t.backoff == 2 * s.backoff
        },
        round matches RoundView::GiveUp(err) ==> err == s.err,
{
    assert(s.conns =~= Seq::empty());
    assert(s.conns.skip(0) + s.busy =~= s.busy);
    assert(s.conns + s.busy =~= s.busy);
}

/// A request sets out with all its connections to ask, none busy, and a first pause of 20
/// milliseconds.
pub proof fn law_a_request_sets_out_with_all(conns: Seq<usize>, err: ProtoError)
    ensures
        initial_state(conns, err).conns == conns,
        initial_state(conns, err).busy.len() == 0,
        initial_state(conns, err).err == err,
        initial_state(conns, err).backoff == 20,
{
}

/// A request that shuffles may begin with any of its connections, and each further draw may take
/// any of those that are left.
pub proof fn law_any_connection_may_be_drawn(conns: Seq<usize>, draws: Seq<usize>, i: usize)
    requires
        draws.len() < conns.len(),
        valid_draws(conns.len(), draws),
        i < conns.len() - draws.len(),
    ensures
        valid_draws(conns.len(), draws.push(i)),
        drawn(conns, seq![i]).0 == seq![conns[i as int]],
        drawn(conns, draws.push(i)).0 == drawn(conns, draws).0.push(
            drawn(conns, draws).1[i as int],
        ),
        (drawn(conns, draws).0 + drawn(conns, draws).1).to_multiset() == conns.to_multiset(),
{
    lemma_drawn_multiset(conns, draws);
    assert(draws.push(i).drop_last() =~= draws);
    let one = seq![i];
    assert(one.drop_last() =~= Seq::<usize>::empty());
    assert(drawn(conns, one.drop_last()) == (Seq::<usize>::empty(), conns));
    assert(drawn(conns, one).0 =~= seq![conns[i as int]]);
}

/// A request asks in order if and only if it does not shuffle: then its next round is settled, and
/// it begins with the connection that is next.
pub proof fn law_order_is_kept_without_shuffling(request: ConnLoop, round: RoundView)
    requires
        comes_next(request, round),
        !request.shuffles(),
        request.state().conns.len() > 0,
    ensures
        round matches RoundView::Query(t, asked) && asked.len() > 0 && asked[0]
            == request.state().conns[0] && asked + t.conns == request.state().conns,
{
    let s = request.state();
    let n = batch(s.conns.len(), request.concurrency()) as int;
    assert(s.conns.take(n) + s.conns.skip(n) =~= s.conns);
}

} // verus!
