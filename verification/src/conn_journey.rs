//! Whole requests, from the first round to giving up, and what became of each connection.

use vstd::multiset::Multiset;
use vstd::prelude::*;

use crate::conn_laws::{is_busy, law_no_connection_is_lost};
use crate::conn_loop::{
    absorbed, batch, initial_state, round_drawn, round_in_order, valid_draws, LoopState,
    ProgressView, RoundView, FIRST_BACKOFF,
};
use crate::error::ProtoError;
use crate::message::Message;

verus! {

/// Where a request has come to.
pub struct Journey {
    /// What it still has before it.
    pub state: LoopState,
    /// The connections that were asked in this round and have not replied yet.
    pub pending: Multiset<usize>,
    /// The connections that replied with an error other than that they are busy.
    pub failed: Multiset<usize>,
}

/// What happens to a request that goes on.
pub enum Leg {
    /// These connections are asked.
    Asked(Seq<usize>),
    /// The request pauses.
    Paused,
    /// A connection replies.
    Replied(usize, Result<Message, ProtoError>),
}

/// A round that the request can come to, in order or at random.
pub open spec fn possible_round(s: LoopState, num_concurrent_reqs: usize, round: RoundView) -> bool {
    ||| round == round_in_order(s, num_concurrent_reqs)
    ||| exists|draws: Seq<usize>|
        {
            &&& draws.len() == batch(s.conns.len(), num_concurrent_reqs)
            &&& valid_draws(s.conns.len(), draws)
            &&& round == #[trigger] round_drawn(s, draws)
        }
}

/// Whether a request gets from one place to the next. There is a new round only when all
/// connections that were asked have replied, and only those reply.
pub open spec fn goes(j: Journey, num_concurrent_reqs: usize, leg: Leg, k: Journey) -> bool {
    match leg {
        Leg::Asked(asked) => {
            &&& j.pending.len() == 0
            &&& possible_round(j.state, num_concurrent_reqs, RoundView::Query(k.state, asked))
            &&& k.pending == asked.to_multiset()
            &&& k.failed == j.failed
        },
        Leg::Paused => {
            &&& j.pending.len() == 0
            &&& possible_round(
                j.state,
                num_concurrent_reqs,
                RoundView::Wait(k.state, j.state.backoff),
            )
            &&& k.pending == j.pending
            &&& k.failed == j.failed
        },
        Leg::Replied(conn, reply) => {
            &&& j.pending.count(conn) > 0
            &&& absorbed(j.state, conn, reply) == ProgressView::Going(k.state)
            &&& k.pending == j.pending.remove(conn)
            &&& k.failed == if is_busy(reply) {
                j.failed
            } else {
                j.failed.insert(conn)
            }
        },
    }
}

/// The place from which a request sets out.
pub open spec fn departure(conns: Seq<usize>, err: ProtoError) -> Journey {
    Journey {
        state: initial_state(conns, err),
        pending: Multiset::empty(),
        failed: Multiset::empty(),
    }
}

/// All connections: those to be asked, those that were asked, those that are busy, and those that
/// failed.
pub open spec fn all_conns(j: Journey) -> Multiset<usize> {
    j.state.conns.to_multiset().add(j.pending).add(j.state.busy.to_multiset()).add(j.failed)
}

/// Wherever a request goes, its connections stay the same ones.
proof fn lemma_leg(j: Journey, num_concurrent_reqs: usize, leg: Leg, k: Journey)
    requires
        goes(j, num_concurrent_reqs, leg, k),
    ensures
        all_conns(k) == all_conns(j),
{
    broadcast use vstd::seq_lib::group_to_multiset_ensures;

    match leg {
        Leg::Asked(asked) => {
            lemma_asked(j.state, num_concurrent_reqs, k.state, asked);
            assert(j.pending =~= Multiset::empty());
            assert(all_conns(k) =~= all_conns(j));
        },
        Leg::Paused => {
            lemma_paused(j.state, num_concurrent_reqs, k.state);
            assert(j.state.conns =~= Seq::empty());
            assert(k.state.busy =~= Seq::empty());
            assert(all_conns(k) =~= all_conns(j));
        },
        Leg::Replied(conn, reply) => {
            if is_busy(reply) {
                assert(k.state.busy.to_multiset() =~= j.state.busy.to_multiset().insert(conn));
            }
            assert(all_conns(k) =~= all_conns(j));
        },
    }
}

proof fn lemma_asked(s: LoopState, num_concurrent_reqs: usize, t: LoopState, asked: Seq<usize>)
    requires
        possible_round(s, num_concurrent_reqs, RoundView::Query(t, asked)),
    ensures
        asked.to_multiset().add(t.conns.to_multiset()) == s.conns.to_multiset(),
        t.busy == s.busy,
{
    let zeros = Seq::new(batch(s.conns.len(), num_concurrent_reqs), |i: int| 0usize);
    assert(valid_draws(s.conns.len(), zeros));
    law_no_connection_is_lost(s, num_concurrent_reqs, zeros);
    if RoundView::Query(t, asked) != round_in_order(s, num_concurrent_reqs) {
        let draws = choose|draws: Seq<usize>|
            {
                &&& draws.len() == batch(s.conns.len(), num_concurrent_reqs)
                &&& valid_draws(s.conns.len(), draws)
                &&& RoundView::Query(t, asked) == #[trigger] round_drawn(s, draws)
            };
        law_no_connection_is_lost(s, num_concurrent_reqs, draws);
    }
    vstd::seq_lib::lemma_multiset_commutative(asked, t.conns);
    assert((asked + t.conns).to_multiset() == s.conns.to_multiset());
}

proof fn lemma_paused(s: LoopState, num_concurrent_reqs: usize, t: LoopState)
    requires
        possible_round(s, num_concurrent_reqs, RoundView::Wait(t, s.backoff)),
    ensures
        s.conns.len() == 0,
        t.conns == s.busy,
        t.busy.len() == 0,
{
    let zeros = Seq::new(batch(s.conns.len(), num_concurrent_reqs), |i: int| 0usize);
    assert(valid_draws(s.conns.len(), zeros));
    law_no_connection_is_lost(s, num_concurrent_reqs, zeros);
    if RoundView::Wait(t, s.backoff) != round_in_order(s, num_concurrent_reqs) {
        let draws = choose|draws: Seq<usize>|
            {
                &&& draws.len() == batch(s.conns.len(), num_concurrent_reqs)
                &&& valid_draws(s.conns.len(), draws)
                &&& RoundView::Wait(t, s.backoff) == #[trigger] round_drawn(s, draws)
            };
        law_no_connection_is_lost(s, num_concurrent_reqs, draws);
    }
}

/// Whether a request goes through these places, by these legs.
pub open spec fn travels(places: Seq<Journey>, legs: Seq<Leg>, num_concurrent_reqs: usize) -> bool {
    &&& places.len() == legs.len() + 1
    &&& forall|i: int|
        0 <= i < legs.len() ==> goes(
            #[trigger] places[i],
            num_concurrent_reqs,
            legs[i],
            places[i + 1],
        )
}

proof fn lemma_travels(places: Seq<Journey>, legs: Seq<Leg>, num_concurrent_reqs: usize)
    requires
        travels(places, legs, num_concurrent_reqs),
    ensures
        all_conns(places.last()) == all_conns(places[0]),
    decreases legs.len(),
{
    if legs.len() > 0 {
        let before = places.drop_last();
        let fewer = legs.drop_last();
        assert forall|i: int| 0 <= i < fewer.len() implies goes(
            #[trigger] before[i],
            num_concurrent_reqs,
            fewer[i],
            before[i + 1],
        ) by {
            assert(before[i] == places[i] && before[i + 1] == places[i + 1]);
            assert(fewer[i] == legs[i]);
        }
        lemma_travels(before, fewer, num_concurrent_reqs);
        let n = legs.len() - 1;
        assert(goes(places[n], num_concurrent_reqs, legs[n], places[n + 1]));
        assert(before.last() == places[n]);
        lemma_leg(places[n], num_concurrent_reqs, legs[n], places[n + 1]);
    }
}

/// A request does not give up before it has asked every connection: when it does, each of them has
/// replied with an error, and those that did not fail were busy to the last. So one connection that
/// works is enough.
pub proof fn law_every_connection_is_asked(
    conns: Seq<usize>,
    err: ProtoError,
    places: Seq<Journey>,
    legs: Seq<Leg>,
    num_concurrent_reqs: usize,
    last_err: ProtoError,
)
    requires
        travels(places, legs, num_concurrent_reqs),
        places[0] == departure(conns, err),
        places.last().pending.len() == 0,
        possible_round(places.last().state, num_concurrent_reqs, RoundView::GiveUp(last_err)),
    ensures
        places.last().failed.add(places.last().state.busy.to_multiset()) == conns.to_multiset(),
{
    broadcast use vstd::seq_lib::group_to_multiset_ensures;

    lemma_travels(places, legs, num_concurrent_reqs);
    let j = places.last();
    lemma_given_up(j.state, num_concurrent_reqs, last_err);
    assert(j.state.conns =~= Seq::empty());
    assert(j.pending =~= Multiset::empty());
    assert(places[0].state.busy =~= Seq::empty());
    assert(all_conns(places[0]) =~= conns.to_multiset());
    assert(all_conns(j) =~= j.failed.add(j.state.busy.to_multiset()));
}

proof fn lemma_given_up(s: LoopState, num_concurrent_reqs: usize, err: ProtoError)
    requires
        possible_round(s, num_concurrent_reqs, RoundView::GiveUp(err)),
    ensures
        s.conns.len() == 0,
{
    if RoundView::GiveUp(err) != round_in_order(s, num_concurrent_reqs) {
        let draws = choose|draws: Seq<usize>|
            {
                &&& draws.len() == batch(s.conns.len(), num_concurrent_reqs)
                &&& valid_draws(s.conns.len(), draws)
                &&& RoundView::GiveUp(err) == #[trigger] round_drawn(s, draws)
            };
        crate::conn_laws::lemma_drawn_multiset(s.conns, draws);
    }
}

/// How often the legs ask a connection.
pub open spec fn times_asked(legs: Seq<Leg>, conn: usize) -> nat
    decreases legs.len(),
{
    if legs.len() == 0 {
        0
    } else {
        times_asked(legs.drop_last(), conn) + match legs.last() {
            Leg::Asked(asked) => asked.to_multiset().count(conn),
            _ => 0,
        }
    }
}

/// How often the request pauses on the legs.
pub open spec fn times_paused(legs: Seq<Leg>) -> nat
    decreases legs.len(),
{
    if legs.len() == 0 {
        0
    } else {
        times_paused(legs.drop_last()) + if legs.last() is Paused {
            1nat
        } else {
            0
        }
    }
}

/// Whether a connection replies on the leg that it is busy.
pub open spec fn replies_busy(leg: Leg, conn: usize) -> bool {
    leg matches Leg::Replied(from, reply) && from == conn && is_busy(reply)
}

/// The pause that comes next after so many pauses, each twice as long as the one before.
pub open spec fn backoff_after(pauses: nat) -> int
    decreases pauses,
{
    if pauses == 0 {
        FIRST_BACKOFF as int
    } else {
        2 * backoff_after((pauses - 1) as nat)
    }
}

/// The first legs of a request lead through the first places.
proof fn lemma_prefix(places: Seq<Journey>, legs: Seq<Leg>, num_concurrent_reqs: usize, n: int)
    requires
        travels(places, legs, num_concurrent_reqs),
        0 <= n <= legs.len(),
    ensures
        travels(places.take(n + 1), legs.take(n), num_concurrent_reqs),
        places.take(n + 1).last() == places[n],
{
    let before = places.take(n + 1);
    let fewer = legs.take(n);
    assert forall|i: int| 0 <= i < fewer.len() implies goes(
        #[trigger] before[i],
        num_concurrent_reqs,
        fewer[i],
        before[i + 1],
    ) by {
        assert(goes(places[i], num_concurrent_reqs, legs[i], places[i + 1]));
    }
}

/// In a list without duplicates each connection is at most once among all of them, wherever the
/// request has come to.
proof fn lemma_at_most_once(
    conns: Seq<usize>,
    err: ProtoError,
    places: Seq<Journey>,
    legs: Seq<Leg>,
    num_concurrent_reqs: usize,
    n: int,
    conn: usize,
)
    requires
        travels(places, legs, num_concurrent_reqs),
        places[0] == departure(conns, err),
        conns.no_duplicates(),
        0 <= n <= legs.len(),
    ensures
        all_conns(places[n]).count(conn) == conns.to_multiset().count(conn),
        all_conns(places[n]).count(conn) <= 1,
{
    broadcast use vstd::seq_lib::group_to_multiset_ensures;

    lemma_prefix(places, legs, num_concurrent_reqs, n);
    lemma_travels(places.take(n + 1), legs.take(n), num_concurrent_reqs);
    assert(places[0].state.busy =~= Seq::empty());
    assert(all_conns(places[0]) =~= conns.to_multiset());
    conns.lemma_multiset_has_no_duplicates();
}

/// What was asked is still pending, or has replied; and between two pauses nothing is asked twice.
proof fn lemma_times(
    conns: Seq<usize>,
    err: ProtoError,
    places: Seq<Journey>,
    legs: Seq<Leg>,
    num_concurrent_reqs: usize,
    conn: usize,
)
    requires
        travels(places, legs, num_concurrent_reqs),
        places[0] == departure(conns, err),
        conns.no_duplicates(),
    ensures
        places.last().state.backoff == backoff_after(times_paused(legs)),
        times_paused(legs) <= 4,
        times_asked(legs, conn) + places.last().state.conns.to_multiset().count(conn)
            <= times_paused(legs) + 1,
        (forall|i: int| 0 <= i < legs.len() ==> !replies_busy(#[trigger] legs[i], conn)) ==> {
            &&& places.last().state.busy.to_multiset().count(conn) == 0
            &&& times_asked(legs, conn) + places.last().state.conns.to_multiset().count(conn)
                == conns.to_multiset().count(conn)
        },
    decreases legs.len(),
{
    broadcast use vstd::seq_lib::group_to_multiset_ensures;

    reveal_with_fuel(backoff_after, 6);
    conns.lemma_multiset_has_no_duplicates();
    if legs.len() > 0 {
        let n = legs.len() - 1;
        let fewer = legs.drop_last();
        assert(legs.take(n) =~= fewer);
        assert(places.take(n + 1) =~= places.drop_last());
        lemma_prefix(places, legs, num_concurrent_reqs, n);
        lemma_times(conns, err, places.drop_last(), fewer, num_concurrent_reqs, conn);
        lemma_at_most_once(conns, err, places, legs, num_concurrent_reqs, n, conn);
        let j = places[n];
        let k = places[n + 1];
        assert(goes(j, num_concurrent_reqs, legs[n], k));
        assert(legs.last() == legs[n]);
        if forall|i: int| 0 <= i < legs.len() ==> !replies_busy(#[trigger] legs[i], conn) {
            assert forall|i: int| 0 <= i < fewer.len() implies !replies_busy(
                #[trigger] fewer[i],
                conn,
            ) by {
                assert(!replies_busy(legs[i], conn));
            }
            assert(!replies_busy(legs[n], conn));
        }
        match legs[n] {
            Leg::Asked(asked) => {
                lemma_asked(j.state, num_concurrent_reqs, k.state, asked);
                assert(j.state.conns.to_multiset().count(conn) == asked.to_multiset().count(conn)
                    + k.state.conns.to_multiset().count(conn));
            },
            Leg::Paused => {
                lemma_paused(j.state, num_concurrent_reqs, k.state);
                assert(k.state.busy =~= Seq::empty());
                assert(j.state.conns =~= Seq::empty());
            },
            Leg::Replied(from, reply) => {},
        }
    } else {
        assert(places.last() == places[0]);
        assert(places[0].state.busy =~= Seq::empty());
    }
}

/// A connection is asked at most once more than the request has paused. As it pauses four times at
/// most, no connection is asked more than five times.
pub proof fn law_a_connection_is_asked_five_times_at_most(
    conns: Seq<usize>,
    err: ProtoError,
    places: Seq<Journey>,
    legs: Seq<Leg>,
    num_concurrent_reqs: usize,
    conn: usize,
)
    requires
        travels(places, legs, num_concurrent_reqs),
        places[0] == departure(conns, err),
        conns.no_duplicates(),
    ensures
        times_asked(legs, conn) <= times_paused(legs) + 1,
        times_paused(legs) <= 4,
        times_asked(legs, conn) <= 5,
{
    lemma_times(conns, err, places, legs, num_concurrent_reqs, conn);
}

/// What has become of a connection since it was asked on a leg: if it is on the busy list it has
/// replied so, and if it is to be asked again the request has paused after that.
proof fn lemma_since_asked(
    conns: Seq<usize>,
    err: ProtoError,
    places: Seq<Journey>,
    legs: Seq<Leg>,
    num_concurrent_reqs: usize,
    conn: usize,
    first: int,
    n: int,
)
    requires
        travels(places, legs, num_concurrent_reqs),
        places[0] == departure(conns, err),
        conns.no_duplicates(),
        0 <= first < n <= legs.len(),
        legs[first] matches Leg::Asked(asked) && asked.contains(conn),
    ensures
        places[n].state.busy.contains(conn) ==> exists|b: int|
            first < b < n && replies_busy(#[trigger] legs[b], conn),
        places[n].state.conns.contains(conn) ==> busy_then_paused(legs, conn, first, n),
    decreases n,
{
    broadcast use vstd::seq_lib::group_to_multiset_ensures;

    let i = n - 1;
    let j = places[i];
    let k = places[n];
    assert(goes(places[i], num_concurrent_reqs, legs[i], places[i + 1]));
    lemma_at_most_once(conns, err, places, legs, num_concurrent_reqs, n, conn);
    if first == i {
        let asked = legs[first]->Asked_0;
        assert(asked.to_multiset().count(conn) > 0);
        assert(k.pending.count(conn) > 0);
        assert(k.state.busy.to_multiset().count(conn) == 0);
        assert(k.state.conns.to_multiset().count(conn) == 0);
    } else {
        lemma_since_asked(conns, err, places, legs, num_concurrent_reqs, conn, first, i);
        match legs[i] {
            Leg::Asked(asked) => {
                lemma_asked(j.state, num_concurrent_reqs, k.state, asked);
                assert(j.state.conns.to_multiset().count(conn) >= k.state.conns.to_multiset().count(
                    conn,
                ));
                if k.state.conns.contains(conn) {
                    assert(k.state.conns.to_multiset().count(conn) > 0);
                    assert(j.state.conns.contains(conn));
                    lemma_busy_then_paused_stays(legs, conn, first, i, n);
                }
            },
            Leg::Paused => {
                lemma_paused(j.state, num_concurrent_reqs, k.state);
                if k.state.conns.contains(conn) {
                    let b = choose|b: int| first < b < i && replies_busy(#[trigger] legs[b], conn);
                    assert(is_pause(legs[i]));
                    assert(first < b < i < n && replies_busy(legs[b], conn));
                }
            },
            Leg::Replied(from, reply) => {
                if k.state.busy.contains(conn) && !j.state.busy.contains(conn) {
                    assert(k.state.busy == j.state.busy.push(from));
                    assert(replies_busy(legs[i], conn));
                }
                if k.state.conns.contains(conn) {
                    assert(k.state.conns == j.state.conns);
                    lemma_busy_then_paused_stays(legs, conn, first, i, n);
                }
            },
        }
    }
}

/// Whether the request pauses on the leg.
pub open spec fn is_pause(leg: Leg) -> bool {
    leg is Paused
}

/// Whether, on the legs between two of them, a connection replies that it is busy and the request
/// pauses after that.
pub open spec fn busy_then_paused(legs: Seq<Leg>, conn: usize, after: int, before: int) -> bool {
    exists|b: int, p: int|
        after < b < p < before && replies_busy(#[trigger] legs[b], conn) && is_pause(
            #[trigger] legs[p],
        )
}

proof fn lemma_busy_then_paused_stays(
    legs: Seq<Leg>,
    conn: usize,
    after: int,
    before: int,
    later: int,
)
    requires
        busy_then_paused(legs, conn, after, before),
        before <= later,
    ensures
        busy_then_paused(legs, conn, after, later),
{
    let (b, p) = choose|b: int, p: int|
        after < b < p < before && replies_busy(#[trigger] legs[b], conn) && is_pause(
            #[trigger] legs[p],
        );
    assert(after < b < p < later && replies_busy(legs[b], conn) && is_pause(legs[p]));
}

/// A connection that was asked is asked again only after it has replied that it is busy, and the
/// request has paused after that.
pub proof fn law_only_busy_connections_are_asked_again(
    conns: Seq<usize>,
    err: ProtoError,
    places: Seq<Journey>,
    legs: Seq<Leg>,
    num_concurrent_reqs: usize,
    conn: usize,
    first: int,
    again: int,
)
    requires
        travels(places, legs, num_concurrent_reqs),
        places[0] == departure(conns, err),
        conns.no_duplicates(),
        0 <= first < again < legs.len(),
        legs[first] matches Leg::Asked(asked) && asked.contains(conn),
        legs[again] matches Leg::Asked(asked) && asked.contains(conn),
    ensures
        busy_then_paused(legs, conn, first, again),
{
    broadcast use vstd::seq_lib::group_to_multiset_ensures;

    let asked = legs[again]->Asked_0;
    let j = places[again];
    assert(goes(places[again], num_concurrent_reqs, legs[again], places[again + 1]));
    lemma_asked(j.state, num_concurrent_reqs, places[again + 1].state, asked);
    assert(asked.to_multiset().count(conn) > 0);
    assert(j.state.conns.to_multiset().count(conn) > 0);
    assert(j.state.conns.contains(conn));
    lemma_since_asked(conns, err, places, legs, num_concurrent_reqs, conn, first, again);
}

/// A connection that never replies that it is busy is asked exactly once: not at all while it is
/// still to be asked, once when it no longer is, and so once when the request gives up.
pub proof fn law_other_connections_are_asked_once(
    conns: Seq<usize>,
    err: ProtoError,
    places: Seq<Journey>,
    legs: Seq<Leg>,
    num_concurrent_reqs: usize,
    conn: usize,
)
    requires
        travels(places, legs, num_concurrent_reqs),
        places[0] == departure(conns, err),
        conns.no_duplicates(),
        conns.contains(conn),
        forall|i: int| 0 <= i < legs.len() ==> !replies_busy(#[trigger] legs[i], conn),
    ensures
        times_asked(legs, conn) == if places.last().state.conns.contains(conn) {
            0nat
        } else {
            1
        },
        forall|last_err: ProtoError| #[trigger]
            possible_round(
                places.last().state,
                num_concurrent_reqs,
                RoundView::GiveUp(last_err),
            ) ==> times_asked(legs, conn) == 1,
{
    broadcast use vstd::seq_lib::group_to_multiset_ensures;

    lemma_times(conns, err, places, legs, num_concurrent_reqs, conn);
    conns.lemma_multiset_has_no_duplicates();
    let s = places.last().state;
    assert(conns.to_multiset().count(conn) == 1);
    assert(s.conns.contains(conn) <==> s.conns.to_multiset().count(conn) > 0);
    assert forall|last_err: ProtoError| #[trigger]
        possible_round(s, num_concurrent_reqs, RoundView::GiveUp(last_err)) implies times_asked(
        legs,
        conn,
    ) == 1 by {
        lemma_given_up(s, num_concurrent_reqs, last_err);
    }
}

} // verus!
