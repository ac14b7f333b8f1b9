//! What holds of every pool of name servers and of every request to one.

use std::sync::atomic::AtomicUsize;

use vstd::prelude::*;

use crate::config::{datagram_protocol, NameServerConfig, ResolverOpts};
use crate::conn_loop::{
    comes_next, initial_state, round_drawn, round_in_order, width, ConnLoop, RoundView,
};
use crate::error::{specificity, ProtoError};
use crate::message::Message;
use crate::pool::{
    better, by_rank, counter_move, counter_said, datagram_configs, fresh_counter, in_order, ordered,
    rotated, send_result, sends, starts, stream_configs, wants_stream,
};

verus! {

/// The connection at each place of a list that begins with `start` counted round.
pub proof fn lemma_rotated_at(len: nat, start: usize, i: int)
    requires
        0 < len <= usize::MAX,
        0 <= i < len,
    ensures
        rotated(len, start).len() == len,
        rotated(len, start)[i] == (start + i) % len as int,
{
    let k = start as int % len as int;
    let n = len as int;
    assert(0 <= k < n) by (nonlinear_arith)
        requires
            n > 0,
            k == start as int % n,
    ;
    assert((start + i) % n == (k + i) % n) by {
        vstd::arithmetic::div_mod::lemma_add_mod_noop(start as int, i, n);
        vstd::arithmetic::div_mod::lemma_add_mod_noop(k, i, n);
        vstd::arithmetic::div_mod::lemma_mod_twice(start as int, n);
    }
    if k + i < n {
        vstd::arithmetic::div_mod::lemma_small_mod((k + i) as nat, len);
    } else {
        vstd::arithmetic::div_mod::lemma_mod_sub_multiples_vanish(k + i, n);
        vstd::arithmetic::div_mod::lemma_small_mod((k + i - n) as nat, len);
    }
}

/// A request that goes round begins where the one before left off: when the counter has moved by
/// `count`, the connection that would have been asked `count` places later comes first, and all
/// others follow in the same turn. This is so as long as the counter has not run over.
pub proof fn law_round_robin_goes_on(len: nat, start: usize, count: usize, i: int)
    requires
        0 < len <= usize::MAX,
        start + count <= usize::MAX,
        0 <= i < len,
    ensures
        rotated(len, (start + count) as usize)[i] == rotated(len, start)[(i + count) % len as int],
{
    let n = len as int;
    let j = (i + count) % n;
    assert(0 <= j < n) by (nonlinear_arith)
        requires
            n > 0,
            j == (i + count) % n,
    ;
    lemma_rotated_at(len, (start + count) as usize, i);
    lemma_rotated_at(len, start, j);
    vstd::arithmetic::div_mod::lemma_add_mod_noop_right(start as int, i + count, n);
}

/// What a counter says after so many requests, when it began at 0 and each of them moved it by
/// `count`. Past the largest number it goes on with 0.
pub open spec fn counter_after(count: usize, requests: nat) -> usize
    decreases requests,
{
    if requests == 0 {
        0
    } else {
        counter_after(count, (requests - 1) as nat).wrapping_add(count)
    }
}

/// A counter that began at 0 says how many requests there were, times what each of them moved it
/// by. This is so as long as it has not run over.
pub proof fn law_counter_counts(count: usize, requests: nat)
    requires
        requests * count <= usize::MAX,
    ensures
        counter_after(count, requests) == requests * count,
    decreases requests,
{
    if requests > 0 {
        let before = (requests - 1) as nat;
        assert(requests * count == before * count + count) by (nonlinear_arith)
            requires
                requests == before + 1,
        ;
        law_counter_counts(count, before);
    } else {
        assert(requests * count == 0) by (nonlinear_arith)
            requires
                requests == 0,
        ;
    }
}

/// Requests that go round share out the connections: with a counter that began at 0 and that every
/// request moved by as many connections as it asks at once, request `i`, counted from 0, begins
/// `i` times that many places after the first connection, counted round. This is so as long as the
/// counter has not run over.
pub proof fn law_round_robin_starts(
    options: ResolverOpts,
    ranks: Seq<u64>,
    count: usize,
    i: nat,
    order: Seq<usize>,
)
    requires
        ranks.len() <= usize::MAX,
        counter_move(options, ranks.len()) == Some(count),
        i * count <= usize::MAX,
        ordered(options, ranks, counter_after(count, i), order),
    ensures
        count == width(options.num_concurrent_reqs),
        order.len() == ranks.len(),
        order[0] == (i * count) % (ranks.len() as int),
        forall|k: int|
            0 <= k < order.len() ==> #[trigger] order[k] == (i * count + k) % (ranks.len() as int),
{
    law_counter_counts(count, i);
    assert forall|k: int| 0 <= k < ranks.len() implies #[trigger] order[k] == (i * count + k) % (
    ranks.len() as int) by {
        lemma_rotated_at(ranks.len(), counter_after(count, i), k);
    }
    lemma_rotated_at(ranks.len(), counter_after(count, i), 0);
}

/// The first round of a request whose connections are not shuffled asks the first connection of its
/// list first, and only that one where one is asked at a time.
pub proof fn law_first_round_asks_the_first(
    options: ResolverOpts,
    ranks: Seq<u64>,
    start: usize,
    request: ConnLoop,
    round: RoundView,
)
    requires
        0 < ranks.len() <= usize::MAX,
        !options.shuffle_dns_servers,
        starts(options, ranks, start, request),
        comes_next(request, round),
    ensures
        round matches RoundView::Query(_, asked) && asked.len() > 0 && asked[0]
            == request.state().conns[0] && (options.num_concurrent_reqs <= 1 ==> asked
            == request.state().conns.take(1)),
{
    law_every_connection_is_listed_once(options, ranks, start, request.state().conns);
}

/// The request that comes after `i` others goes to connection `i`, counted round, before any other,
/// where requests go round one connection at a time and are not shuffled: the first round asks that
/// connection alone. This is so as long as the counter, which began at 0 and that every request
/// moved by one, has not run over.
pub proof fn law_round_robin_asks_in_turn(
    options: ResolverOpts,
    ranks: Seq<u64>,
    i: nat,
    request: ConnLoop,
    round: RoundView,
)
    requires
        1 < ranks.len() <= usize::MAX,
        options.server_ordering_strategy is RoundRobin,
        options.num_concurrent_reqs <= 1,
        !options.shuffle_dns_servers,
        i <= usize::MAX,
        starts(options, ranks, counter_after(1, i), request),
        comes_next(request, round),
    ensures
        counter_move(options, ranks.len()) == Some(1usize),
        round matches RoundView::Query(_, asked) && asked == seq![
            (i as int % ranks.len() as int) as usize,
        ],
{
    law_round_robin_starts(options, ranks, 1, i, request.state().conns);
    law_first_round_asks_the_first(options, ranks, counter_after(1, i), request, round);
    vstd::arithmetic::div_mod::lemma_mod_bound(i as int, ranks.len() as int);
    assert(request.state().conns.take(1) =~= seq![request.state().conns[0]]);
}

/// Whether this is what a counter as `AtomicUsize::new` makes it from 0 gave to requests that came
/// one after the other, each of which moved it by `count`.
pub open spec fn said_in_turn(counter: AtomicUsize, count: usize, said: Seq<usize>) -> bool {
    &&& fresh_counter(counter)
    &&& forall|i: int|
        0 <= i < said.len() ==> {
            &&& counter_said(counter, count, #[trigger] said[i])
            &&& said[i] == counter_after(count, i as nat)
        }
}

/// Requests to a new pool and to its clones, which share its counter, take turns: where they go
/// round one connection at a time and are not shuffled, each is one that the pool sends, and request
/// `i`, counted from 0, goes to connection `i`, counted round, before any other. This is so as long
/// as the counter has not run over.
pub proof fn law_sends_take_turns(
    options: ResolverOpts,
    len: nat,
    counter: AtomicUsize,
    said: Seq<usize>,
    ranks: Seq<Seq<u64>>,
    requests: Seq<ConnLoop>,
    rounds: Seq<RoundView>,
)
    requires
        1 < len <= usize::MAX,
        options.server_ordering_strategy is RoundRobin,
        options.num_concurrent_reqs <= 1,
        !options.shuffle_dns_servers,
        said_in_turn(counter, 1, said),
        said.len() - 1 <= usize::MAX,
        ranks.len() == said.len(),
        requests.len() == said.len(),
        rounds.len() == said.len(),
        forall|i: int|
            0 <= i < said.len() ==> {
                &&& ranks[i].len() == len
                &&& starts(options, ranks[i], said[i], #[trigger] requests[i])
                &&& comes_next(requests[i], rounds[i])
            },
    ensures
        forall|i: int|
            0 <= i < said.len() ==> sends(options, ranks[i], counter, #[trigger] requests[i]),
        forall|i: int|
            0 <= i < said.len() ==> (#[trigger] rounds[i] matches RoundView::Query(_, asked)
                && asked == seq![(i % len as int) as usize]),
{
    assert forall|i: int| 0 <= i < said.len() implies sends(
        options,
        ranks[i],
        counter,
        #[trigger] requests[i],
    ) by {
        assert(starts(options, ranks[i], said[i], requests[i]));
        let count = counter_move(options, ranks[i].len()).unwrap();
        assert(count == 1);
        assert(counter_said(counter, count, said[i]));
    }
    assert forall|i: int| 0 <= i < said.len() implies (#[trigger] rounds[i] matches RoundView::Query(
        _,
        asked,
    ) && asked == seq![(i % len as int) as usize]) by {
        assert(starts(options, ranks[i], said[i], requests[i]));
        assert(counter_said(counter, 1, said[i]) && said[i] == counter_after(1, i as nat));
        law_round_robin_asks_in_turn(options, ranks[i], i as nat, requests[i], rounds[i]);
    }
}

/// Whether one of the lists begins with the connection.
pub open spec fn has_its_turn(orders: Seq<Seq<usize>>, conn: usize) -> bool {
    exists|k: int| 0 <= k < orders.len() && #[trigger] orders[k][0] == conn
}

/// Requests that go round one connection at a time are fair: of as many requests in a row as there
/// are connections, whichever of a counter's requests they begin with, each begins with another
/// connection, and each connection has its turn. This is so as long as the counter, which began at
/// 0 and that every request moved by one, has not run over.
pub proof fn law_round_robin_is_fair(
    options: ResolverOpts,
    ranks: Seq<u64>,
    first: nat,
    orders: Seq<Seq<usize>>,
)
    requires
        1 < ranks.len() <= usize::MAX,
        options.server_ordering_strategy is RoundRobin,
        options.num_concurrent_reqs <= 1,
        orders.len() == ranks.len(),
        first + ranks.len() - 1 <= usize::MAX,
        forall|k: int|
            0 <= k < orders.len() ==> ordered(
                options,
                ranks,
                counter_after(1, (first + k) as nat),
                #[trigger] orders[k],
            ),
    ensures
        counter_move(options, ranks.len()) == Some(1usize),
        forall|k: int|
            0 <= k < orders.len() ==> #[trigger] orders[k][0] == (first + k) % (ranks.len() as int),
        forall|j: int, k: int|
            0 <= j < k < orders.len() ==> #[trigger] orders[j][0] != #[trigger] orders[k][0],
        forall|n: usize| n < ranks.len() ==> #[trigger] has_its_turn(orders, n),
{
    let len = ranks.len() as int;
    assert forall|k: int| 0 <= k < orders.len() implies #[trigger] orders[k][0] == (first + k)
        % len by {
        law_round_robin_starts(options, ranks, 1, (first + k) as nat, orders[k]);
    }
    assert forall|j: int, k: int| 0 <= j < k < orders.len() implies #[trigger] orders[j][0]
        != #[trigger] orders[k][0] by {
        let a = first + j;
        let b = first + k;
        if a % len == b % len {
            vstd::arithmetic::div_mod::lemma_fundamental_div_mod(a, len);
            vstd::arithmetic::div_mod::lemma_fundamental_div_mod(b, len);
            let p = a / len;
            let q = b / len;
            assert(b - a == len * (q - p)) by (nonlinear_arith)
                requires
                    a == len * p + a % len,
                    b == len * q + b % len,
                    a % len == b % len,
            ;
            assert(false) by (nonlinear_arith)
                requires
                    0 < b - a < len,
                    b - a == len * (q - p),
            ;
        }
    }
    assert forall|n: usize| n < ranks.len() implies #[trigger] has_its_turn(orders, n) by {
        let k = (n - first) % len;
        vstd::arithmetic::div_mod::lemma_mod_bound(n - first, len);
        vstd::arithmetic::div_mod::lemma_add_mod_noop_right(first as int, n - first, len);
        vstd::arithmetic::div_mod::lemma_small_mod(n as nat, len as nat);
        assert(orders[k][0] == (first + k) % len);
    }
}

/// In whatever order the options ask for them, every connection of the pool is in the list exactly
/// once.
pub proof fn law_every_connection_is_listed_once(
    options: ResolverOpts,
    ranks: Seq<u64>,
    start: usize,
    order: Seq<usize>,
)
    requires
        ranks.len() <= usize::MAX,
        ordered(options, ranks, start, order),
    ensures
        order.len() == ranks.len(),
        order.no_duplicates(),
        forall|n: usize| n < ranks.len() <==> #[trigger] order.contains(n),
{
    broadcast use vstd::seq_lib::group_to_multiset_ensures;

    let all = in_order(ranks.len());
    if order != all && !by_rank(ranks, order) {
        let k = start as int % ranks.len() as int;
        assert(order == all.skip(k) + all.take(k));
        assert(0 <= k < ranks.len()) by (nonlinear_arith)
            requires
                ranks.len() > 0,
                k == start as int % ranks.len() as int,
        ;
        assert(all =~= all.take(k) + all.skip(k));
        vstd::seq_lib::lemma_multiset_commutative(all.take(k), all.skip(k));
        vstd::seq_lib::lemma_multiset_commutative(all.skip(k), all.take(k));
        assert(order.to_multiset() =~= all.to_multiset());
    }
    assert(order.to_multiset() == all.to_multiset());
    assert(order.len() == all.len()) by {
        assert(order.to_multiset().len() == order.len());
        assert(all.to_multiset().len() == all.len());
    }
    assert(all.no_duplicates());
    all.lemma_multiset_has_no_duplicates();
    order.lemma_multiset_has_no_duplicates_conv();
    assert forall|n: usize| n < ranks.len() <==> #[trigger] order.contains(n) by {
        assert(order.contains(n) <==> order.to_multiset().count(n) > 0);
        assert(all.contains(n) <==> all.to_multiset().count(n) > 0);
        if n < ranks.len() {
            assert(all[n as int] == n);
        }
    }
}

/// Every configured server is in exactly one of the two parts of a pool.
pub proof fn law_every_server_is_in_one_part<C>(configs: Seq<NameServerConfig<C>>)
    ensures
        (datagram_configs(configs) + stream_configs(configs)).to_multiset()
            == configs.to_multiset(),
        forall|i: int|
            0 <= i < datagram_configs(configs).len() ==> datagram_protocol(
                (#[trigger] datagram_configs(configs)[i]).protocol,
            ),
        forall|i: int|
            0 <= i < stream_configs(configs).len() ==> !datagram_protocol(
                (#[trigger] stream_configs(configs)[i]).protocol,
            ),
    decreases configs.len(),
{
    broadcast use vstd::seq_lib::group_to_multiset_ensures;

    reveal(Seq::filter);
    let d = datagram_configs(configs);
    let s = stream_configs(configs);
    vstd::seq_lib::lemma_multiset_commutative(d, s);
    if configs.len() == 0 {
        assert(d + s =~= configs);
    } else {
        let before = configs.drop_last();
        law_every_server_is_in_one_part(before);
        let d0 = datagram_configs(before);
        let s0 = stream_configs(before);
        vstd::seq_lib::lemma_multiset_commutative(d0, s0);
        assert(configs =~= before.push(configs.last()));
        if datagram_protocol(configs.last().protocol) {
            assert(d == d0.push(configs.last()) && s == s0);
        } else {
            assert(s == s0.push(configs.last()) && d == d0);
        }
        assert((d + s).to_multiset() =~= configs.to_multiset());
    }
}

/// A request comes to a response exactly when one came by datagrams, or the streams were tried and
/// one came from there; and an error is then one of those that came, and tells at least as much as
/// each of them.
pub proof fn law_a_response_is_not_lost(
    options: ResolverOpts,
    has_streams: bool,
    udp: Result<Message, ProtoError>,
    tcp: Result<Message, ProtoError>,
)
    ensures
        send_result(options, has_streams, udp, tcp) is Ok <==> udp is Ok || (wants_stream(
            options,
            udp,
        ) && has_streams && tcp is Ok),
        send_result(options, has_streams, udp, tcp) == udp || send_result(
            options,
            has_streams,
            udp,
            tcp,
        ) == tcp,
        send_result(options, has_streams, udp, tcp) matches Err(e) ==> {
            &&& specificity(udp->Err_0) <= specificity(e)
            &&& wants_stream(options, udp) && has_streams ==> specificity(tcp->Err_0)
                <= specificity(e)
        },
{
}

/// A complete response that came by datagrams is what the request comes to, whatever the streams
/// would say; a response that was cut is so only if the streams bring none.
pub proof fn law_complete_responses_stand(
    options: ResolverOpts,
    has_streams: bool,
    udp: Message,
    tcp: Result<Message, ProtoError>,
)
    ensures
        !udp@.header.truncated ==> send_result(options, has_streams, Ok(udp), tcp) == Ok::<
            Message,
            ProtoError,
        >(udp),
        udp@.header.truncated && tcp is Err ==> send_result(options, has_streams, Ok(udp), tcp)
            == Ok::<Message, ProtoError>(udp),
        udp@.header.truncated && has_streams && tcp is Ok ==> send_result(
            options,
            has_streams,
            Ok(udp),
            tcp,
        ) == tcp,
{
}

/// A pool without servers that are reached by datagrams goes to the streams at once: the first
/// round gives up with the want of any connection, and that is tried to better over streams.
pub proof fn law_no_datagram_servers(
    options: ResolverOpts,
    num_concurrent_reqs: usize,
    err: ProtoError,
    tcp: Result<Message, ProtoError>,
)
    requires
        err.kind is NoConnections,
    ensures
        round_in_order(initial_state(Seq::empty(), err), num_concurrent_reqs) == RoundView::GiveUp(
            err,
        ),
        round_drawn(initial_state(Seq::empty(), err), Seq::empty()) == RoundView::GiveUp(err),
        wants_stream(options, Err(err)),
        send_result(options, true, Err(err), tcp) == tcp,
{
}

} // verus!
