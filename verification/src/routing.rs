//! Routing over whole runs of events: every response reaches the request
//! that carries its identifier, exactly once, and nothing else is delivered.

use vstd::prelude::*;

use crate::dispatch::{next_step, Event, Step};
use crate::ids::{decimal, law_identifiers_never_repeat};
use crate::response::SurrealRawResponse;

verus! {

/// The identifier that an event registers, if it is a registration.
pub open spec fn registered_id<S>(event: Event<S>) -> Option<Seq<char>> {
    match event {
        Event::Registered(id, _) => Some(id@),
        _ => None,
    }
}

/// The identifier that an event answers, if it is a response.
pub open spec fn answered_id<S>(event: Event<S>) -> Option<Seq<char>> {
    match event {
        Event::Response(response) => Some(response.id@),
        _ => None,
    }
}

/// No identifier is registered twice, and no identifier is answered twice.
pub open spec fn distinct_ids<S>(events: Seq<Event<S>>) -> bool {
    &&& forall|i: int, j: int|
        0 <= i < events.len() && 0 <= j < events.len() && i != j && #[trigger] registered_id(events[i]) is Some
            ==> registered_id(events[i]) != #[trigger] registered_id(events[j])
    &&& forall|i: int, j: int|
        0 <= i < events.len() && 0 <= j < events.len() && i != j && #[trigger] answered_id(events[i]) is Some
            ==> answered_id(events[i]) != #[trigger] answered_id(events[j])
}

/// Event `i` registers the identifier that event `j` answers.
pub open spec fn matching<S>(events: Seq<Event<S>>, i: int, j: int) -> bool {
    &&& 0 <= i < events.len()
    &&& 0 <= j < events.len()
    &&& events[i] is Registered
    &&& events[j] is Response
    &&& events[i]->Registered_0@ == events[j]->Response_0.id@
}

/// Some event registers `k`.
pub open spec fn has_registration<S>(events: Seq<Event<S>>, k: Seq<char>) -> bool {
    exists|i: int| 0 <= i < events.len() && #[trigger] registered_id(events[i]) == Some(k)
}

/// Some event answers `k`.
pub open spec fn has_answer<S>(events: Seq<Event<S>>, k: Seq<char>) -> bool {
    exists|j: int| 0 <= j < events.len() && #[trigger] answered_id(events[j]) == Some(k)
}

/// The dispatcher after a run of events from its empty state, with the
/// deliveries made along the way, in order.
pub open spec fn run<S>(events: Seq<Event<S>>) -> (
    Map<Seq<char>, S>,
    Map<Seq<char>, SurrealRawResponse>,
    Seq<(S, SurrealRawResponse)>,
)
    decreases events.len(),
{
    if events.len() == 0 {
        (Map::empty(), Map::empty(), Seq::empty())
    } else {
        let (waiting, pending, delivered) = run(events.drop_last());
        let (w, p, step) = next_step(waiting, pending, events.last());
        match step {
            Step::Deliver(sink, response) => (w, p, delivered.push((sink, response))),
            _ => (w, p, delivered),
        }
    }
}

/// A sink waits exactly for the registered identifiers that were not answered.
spec fn inv_waiting<S>(events: Seq<Event<S>>, waiting: Map<Seq<char>, S>) -> bool {
    &&& forall|k: Seq<char>| #[trigger] waiting.contains_key(k) <==> has_registration(events, k) && !has_answer(events, k)
    &&& forall|i: int|
        0 <= i < events.len() && events[i] is Registered && #[trigger] waiting.contains_key(
            events[i]->Registered_0@,
        ) ==> waiting[events[i]->Registered_0@] == events[i]->Registered_1
}

/// A response waits exactly for the answered identifiers that were not registered.
spec fn inv_pending<S>(events: Seq<Event<S>>, pending: Map<Seq<char>, SurrealRawResponse>) -> bool {
    &&& forall|k: Seq<char>| #[trigger] pending.contains_key(k) <==> has_answer(events, k) && !has_registration(events, k)
    &&& forall|j: int|
        0 <= j < events.len() && events[j] is Response && #[trigger] pending.contains_key(
            events[j]->Response_0.id@,
        ) ==> pending[events[j]->Response_0.id@] == events[j]->Response_0
}

/// Every matching pair of a run was delivered.
pub open spec fn all_pairs_delivered<S>(events: Seq<Event<S>>, delivered: Seq<(S, SurrealRawResponse)>) -> bool {
    forall|i: int, j: int|
        #[trigger] matching(events, i, j) ==> delivered.contains((events[i]->Registered_1, events[j]->Response_0))
}

/// A delivery pairs the sink of a registration of the run with a response of
/// the run to the same identifier.
pub open spec fn is_matching_pair<S>(events: Seq<Event<S>>, delivery: (S, SurrealRawResponse)) -> bool {
    exists|i: int, j: int|
        #[trigger] matching(events, i, j) && delivery == (events[i]->Registered_1, events[j]->Response_0)
}

/// Every delivery of a run is a matching pair.
pub open spec fn only_pairs_delivered<S>(events: Seq<Event<S>>, delivered: Seq<(S, SurrealRawResponse)>) -> bool {
    forall|m: int| 0 <= m < delivered.len() ==> is_matching_pair(events, #[trigger] delivered[m])
}

/// No identifier is delivered twice.
pub open spec fn delivered_once<S>(delivered: Seq<(S, SurrealRawResponse)>) -> bool {
    forall|m: int, n: int|
        0 <= m < delivered.len() && 0 <= n < delivered.len() && m != n ==> #[trigger] delivered[m].1.id@
            != #[trigger] delivered[n].1.id@
}

/// What a run keeps: the two maps hold exactly what waits, every matching
/// pair was delivered, every delivery is a matching pair, and no identifier
/// was delivered twice.
spec fn run_inv<S>(
    events: Seq<Event<S>>,
    waiting: Map<Seq<char>, S>,
    pending: Map<Seq<char>, SurrealRawResponse>,
    delivered: Seq<(S, SurrealRawResponse)>,
) -> bool {
    &&& inv_waiting(events, waiting)
    &&& inv_pending(events, pending)
    &&& all_pairs_delivered(events, delivered)
    &&& only_pairs_delivered(events, delivered)
    &&& delivered_once(delivered)
}

proof fn lemma_prefix_distinct<S>(events: Seq<Event<S>>, event: Event<S>)
    requires
        distinct_ids(events.push(event)),
    ensures
        distinct_ids(events),
        registered_id(event) matches Some(k) ==> !has_registration(events, k),
        answered_id(event) matches Some(k) ==> !has_answer(events, k),
{
    let all = events.push(event);
    assert forall|i: int| 0 <= i < events.len() implies #[trigger] events[i] == all[i] by {}
    if registered_id(event) is Some {
        if has_registration(events, registered_id(event)->0) {
            let i = choose|i: int| 0 <= i < events.len() && #[trigger] registered_id(events[i]) == registered_id(event);
            assert(all[i] == events[i]);
            assert(all[events.len() as int] == event);
        }
    }
    if answered_id(event) is Some {
        if has_answer(events, answered_id(event)->0) {
            let j = choose|j: int| 0 <= j < events.len() && #[trigger] answered_id(events[j]) == answered_id(event);
            assert(all[j] == events[j]);
            assert(all[events.len() as int] == event);
        }
    }
}

proof fn lemma_extend_has<S>(events: Seq<Event<S>>, event: Event<S>, k: Seq<char>)
    ensures
        has_registration(events.push(event), k) <==> has_registration(events, k) || registered_id(event) == Some(k),
        has_answer(events.push(event), k) <==> has_answer(events, k) || answered_id(event) == Some(k),
{
    let all = events.push(event);
    if has_registration(all, k) {
        let i = choose|i: int| 0 <= i < all.len() && #[trigger] registered_id(all[i]) == Some(k);
        if i < events.len() {
            assert(all[i] == events[i]);
        }
    }
    if has_registration(events, k) {
        let i = choose|i: int| 0 <= i < events.len() && #[trigger] registered_id(events[i]) == Some(k);
        assert(all[i] == events[i]);
    }
    if registered_id(event) == Some(k) {
        assert(all[events.len() as int] == event);
    }
    if has_answer(all, k) {
        let j = choose|j: int| 0 <= j < all.len() && #[trigger] answered_id(all[j]) == Some(k);
        if j < events.len() {
            assert(all[j] == events[j]);
        }
    }
    if has_answer(events, k) {
        let j = choose|j: int| 0 <= j < events.len() && #[trigger] answered_id(events[j]) == Some(k);
        assert(all[j] == events[j]);
    }
    if answered_id(event) == Some(k) {
        assert(all[events.len() as int] == event);
    }
}

/// One more event keeps what a run keeps.
proof fn lemma_run_step<S>(events: Seq<Event<S>>, event: Event<S>)
    requires
        distinct_ids(events.push(event)),
        ({
            let (w, p, d) = run(events);
            run_inv(events, w, p, d)
        }),
    ensures
        ({
            let (w, p, d) = run(events.push(event));
            run_inv(events.push(event), w, p, d)
        }),
{
    let all = events.push(event);
    let n = events.len() as int;
    assert(all.drop_last() =~= events);
    assert(all.last() == event);
    lemma_prefix_distinct(events, event);
    let (w, p, d) = run(events);
    let (w2, p2, d2) = run(all);
    assert forall|i: int| 0 <= i < n implies #[trigger] all[i] == events[i] by {}
    assert(all[n] == event);
    assert forall|k: Seq<char>| true implies (has_registration(all, k) <==> has_registration(events, k)
        || registered_id(event) == Some(k)) && (has_answer(all, k) <==> has_answer(events, k)
        || answered_id(event) == Some(k)) by {
        lemma_extend_has(events, event, k);
    }
    // Pairs of the longer run that lie within the shorter one.
    assert forall|i: int, j: int| 0 <= i < n && 0 <= j < n implies #[trigger] matching(all, i, j) == matching(events, i, j) by {}
    // Old deliveries keep their witnesses.
    assert forall|m: int| 0 <= m < d.len() implies is_matching_pair(all, #[trigger] d[m]) by {
        let (i, j) = choose|i: int, j: int| #[trigger] matching(events, i, j) && d[m] == (events[i]->Registered_1, events[j]->Response_0);
        assert(matching(all, i, j));
    }
    // An old delivery's identifier is registered and answered in the shorter run.
    assert forall|m: int| 0 <= m < d.len() implies has_registration(events, #[trigger] d[m].1.id@) && has_answer(events, d[m].1.id@) by {
        let (i, j) = choose|i: int, j: int| #[trigger] matching(events, i, j) && d[m] == (events[i]->Registered_1, events[j]->Response_0);
        assert(registered_id(events[i]) == Some(d[m].1.id@));
        assert(answered_id(events[j]) == Some(d[m].1.id@));
    }
    match event {
        Event::Registered(id, sink) => {
            let k = id@;
            if p.contains_key(k) {
                let r = p[k];
                let j0 = choose|j: int| 0 <= j < n && #[trigger] answered_id(events[j]) == Some(k);
                assert(events[j0] is Response);
                assert(p.contains_key(events[j0]->Response_0.id@));
                assert(r == events[j0]->Response_0);
                assert(d2 == d.push((sink, r)));
                assert(w2 == w && p2 == p.remove(k));
                assert forall|i: int, j: int| #[trigger] matching(all, i, j) implies d2.contains((all[i]->Registered_1, all[j]->Response_0)) by {
                    if i < n && j < n {
                        assert(matching(events, i, j));
                        let m = choose|m: int| 0 <= m < d.len() && d[m] == (events[i]->Registered_1, events[j]->Response_0);
                        assert(d2[m] == d[m]);
                    } else {
                        assert(i == n && j < n);
                        assert(answered_id(events[j]) == Some(k));
                        assert(answered_id(events[j0]) == Some(k));
                        assert(j == j0);
                        assert(d2[d.len() as int] == (sink, r));
                    }
                }
                assert forall|m: int| #![trigger d2[m]] 0 <= m < d2.len() implies is_matching_pair(all, d2[m]) by {
                    if m < d.len() {
                        assert(d2[m] == d[m]);
                    } else {
                        assert(matching(all, n, j0));
                    }
                }
                assert forall|k2: Seq<char>| #[trigger] w2.contains_key(k2) <==> has_registration(all, k2) && !has_answer(all, k2) by {}
                assert forall|k2: Seq<char>| #[trigger] p2.contains_key(k2) <==> has_answer(all, k2) && !has_registration(all, k2) by {}
                assert forall|i: int| 0 <= i < all.len() && all[i] is Registered && #[trigger] w2.contains_key(all[i]->Registered_0@)
                    implies w2[all[i]->Registered_0@] == all[i]->Registered_1 by {
                    if i == n {
                        assert(!has_registration(events, k));
                    }
                }
                assert forall|j: int| 0 <= j < all.len() && all[j] is Response && #[trigger] p2.contains_key(all[j]->Response_0.id@)
                    implies p2[all[j]->Response_0.id@] == all[j]->Response_0 by {}
                assert forall|a: int, b: int| 0 <= a < d2.len() && 0 <= b < d2.len() && a != b implies #[trigger] d2[a].1.id@
                    != #[trigger] d2[b].1.id@ by {
                    if a < d.len() && b < d.len() {
                        assert(d2[a] == d[a] && d2[b] == d[b]);
                    } else if a < d.len() {
                        assert(d2[a] == d[a]);
                        assert(has_registration(events, d[a].1.id@));
                    } else {
                        assert(d2[b] == d[b]);
                        assert(has_registration(events, d[b].1.id@));
                    }
                }
            } else {
                assert(d2 == d && p2 == p && w2 == w.insert(k, sink));
                assert(!has_answer(events, k));
                assert forall|i: int, j: int| #[trigger] matching(all, i, j) implies d2.contains((all[i]->Registered_1, all[j]->Response_0)) by {
                    if i < n && j < n {
                        assert(matching(events, i, j));
                    } else {
                        assert(answered_id(events[j]) == Some(k));
                    }
                }
                assert forall|i: int| 0 <= i < all.len() && all[i] is Registered && #[trigger] w2.contains_key(all[i]->Registered_0@)
                    implies w2[all[i]->Registered_0@] == all[i]->Registered_1 by {
                    if i < n && all[i]->Registered_0@ == k {
                        assert(registered_id(events[i]) == Some(k));
                    }
                }
                assert forall|a: int, b: int| 0 <= a < d2.len() && 0 <= b < d2.len() && a != b implies #[trigger] d2[a].1.id@
                    != #[trigger] d2[b].1.id@ by {}
                assert forall|k2: Seq<char>| #[trigger] w2.contains_key(k2) <==> has_registration(all, k2) && !has_answer(all, k2) by {}
                assert forall|k2: Seq<char>| #[trigger] p2.contains_key(k2) <==> has_answer(all, k2) && !has_registration(all, k2) by {}
                assert forall|j: int| 0 <= j < all.len() && all[j] is Response && #[trigger] p2.contains_key(all[j]->Response_0.id@)
                    implies p2[all[j]->Response_0.id@] == all[j]->Response_0 by {}
                assert forall|m: int| #![trigger d2[m]] 0 <= m < d2.len() implies is_matching_pair(all, d2[m]) by {
                    assert(d2[m] == d[m]);
                }
            }
            assert(run_inv(all, w2, p2, d2));
        },
        Event::Response(response) => {
            let k = response.id@;
            if w.contains_key(k) {
                let sink = w[k];
                let i0 = choose|i: int| 0 <= i < n && #[trigger] registered_id(events[i]) == Some(k);
                assert(events[i0] is Registered);
                assert(w.contains_key(events[i0]->Registered_0@));
                assert(sink == events[i0]->Registered_1);
                assert(d2 == d.push((sink, response)));
                assert(w2 == w.remove(k) && p2 == p);
                assert forall|i: int, j: int| #[trigger] matching(all, i, j) implies d2.contains((all[i]->Registered_1, all[j]->Response_0)) by {
                    if i < n && j < n {
                        assert(matching(events, i, j));
                        let m = choose|m: int| 0 <= m < d.len() && d[m] == (events[i]->Registered_1, events[j]->Response_0);
                        assert(d2[m] == d[m]);
                    } else {
                        assert(j == n && i < n);
                        assert(registered_id(events[i]) == Some(k));
                        assert(registered_id(events[i0]) == Some(k));
                        assert(i == i0);
                        assert(d2[d.len() as int] == (sink, response));
                    }
                }
                assert forall|m: int| #![trigger d2[m]] 0 <= m < d2.len() implies is_matching_pair(all, d2[m]) by {
                    if m < d.len() {
                        assert(d2[m] == d[m]);
                    } else {
                        assert(matching(all, i0, n));
                    }
                }
                assert forall|a: int, b: int| 0 <= a < d2.len() && 0 <= b < d2.len() && a != b implies #[trigger] d2[a].1.id@
                    != #[trigger] d2[b].1.id@ by {
                    if a < d.len() && b < d.len() {
                        assert(d2[a] == d[a] && d2[b] == d[b]);
                    } else if a < d.len() {
                        assert(d2[a] == d[a]);
                        assert(has_answer(events, d[a].1.id@));
                    } else {
                        assert(d2[b] == d[b]);
                        assert(has_answer(events, d[b].1.id@));
                    }
                }
            } else {
                assert(d2 == d && w2 == w && p2 == p.insert(k, response));
                assert(!has_registration(events, k));
                assert forall|i: int, j: int| #[trigger] matching(all, i, j) implies d2.contains((all[i]->Registered_1, all[j]->Response_0)) by {
                    if i < n && j < n {
                        assert(matching(events, i, j));
                    } else {
                        assert(registered_id(events[i]) == Some(k));
                    }
                }
                assert forall|j: int| 0 <= j < all.len() && all[j] is Response && #[trigger] p2.contains_key(all[j]->Response_0.id@)
                    implies p2[all[j]->Response_0.id@] == all[j]->Response_0 by {
                    if j < n && all[j]->Response_0.id@ == k {
                        assert(answered_id(events[j]) == Some(k));
                    }
                }
                assert forall|a: int, b: int| 0 <= a < d2.len() && 0 <= b < d2.len() && a != b implies #[trigger] d2[a].1.id@
                    != #[trigger] d2[b].1.id@ by {}
            }
        },
        _ => {
            assert(w2 == w && p2 == p && d2 == d);
            assert forall|i: int, j: int| #[trigger] matching(all, i, j) implies d2.contains((all[i]->Registered_1, all[j]->Response_0)) by {
                assert(matching(events, i, j));
            }
            assert forall|a: int, b: int| 0 <= a < d2.len() && 0 <= b < d2.len() && a != b implies #[trigger] d2[a].1.id@
                != #[trigger] d2[b].1.id@ by {}
        },
    }
}

/// What a run keeps, by induction on its length.
proof fn lemma_run_inv<S>(events: Seq<Event<S>>)
    requires
        distinct_ids(events),
    ensures
        ({
            let (w, p, d) = run(events);
            run_inv(events, w, p, d)
        }),
    decreases events.len(),
{
    if events.len() == 0 {
        let (w, p, d) = run(events);
        assert(w == Map::<Seq<char>, S>::empty());
        assert(p == Map::<Seq<char>, SurrealRawResponse>::empty());
        assert(d == Seq::<(S, SurrealRawResponse)>::empty());
        assert forall|k: Seq<char>| !has_registration(events, k) && !has_answer(events, k) by {}
    } else {
        let prefix = events.drop_last();
        let last = events.last();
        assert(prefix.push(last) =~= events);
        lemma_prefix_distinct(prefix, last);
        lemma_run_inv(prefix);
        lemma_run_step(prefix, last);
    }
}

/// Over any run of events from a fresh dispatcher in which no identifier is
/// registered twice and none is answered twice, whatever the order of
/// registrations and responses:
/// - every response to a registered identifier is delivered to the sink
///   registered under it;
/// - every delivery is such a pair, so a response to an identifier that is
///   never registered reaches no sink, and no sink receives a response to
///   another identifier;
/// - no identifier is delivered twice;
/// - a sink still waits exactly for the registered identifiers not answered
///   yet, and a response still waits exactly for the answered identifiers not
///   registered yet.
pub proof fn law_every_response_reaches_its_request<S>(events: Seq<Event<S>>)
    requires
        distinct_ids(events),
    ensures
        all_pairs_delivered(events, run(events).2),
        only_pairs_delivered(events, run(events).2),
        delivered_once(run(events).2),
        forall|k: Seq<char>|
            #[trigger] run(events).0.contains_key(k) <==> has_registration(events, k) && !has_answer(events, k),
        forall|k: Seq<char>|
            #[trigger] run(events).1.contains_key(k) <==> has_answer(events, k) && !has_registration(events, k),
{
    lemma_run_inv(events);
}

/// Requests registered under identifiers that one counter handed out at
/// different counts (as `RequestIds::fresh` hands them out) never share an
/// identifier: the registration half of `distinct_ids` holds.
pub proof fn law_counter_identifiers_register_distinctly<S>(events: Seq<Event<S>>, counts: Seq<nat>)
    requires
        counts.len() == events.len(),
        forall|i: int| 0 <= i < events.len() && #[trigger] events[i] is Registered ==> events[i]->Registered_0@ == decimal(counts[i]),
        forall|i: int, j: int|
            0 <= i < events.len() && 0 <= j < events.len() && i != j && #[trigger] events[i] is Registered
                && #[trigger] events[j] is Registered ==> counts[i] != counts[j],
    ensures
        forall|i: int, j: int|
            0 <= i < events.len() && 0 <= j < events.len() && i != j && #[trigger] registered_id(events[i]) is Some
                ==> registered_id(events[i]) != #[trigger] registered_id(events[j]),
{
    assert forall|i: int, j: int|
        0 <= i < events.len() && 0 <= j < events.len() && i != j && #[trigger] registered_id(events[i]) is Some
            implies registered_id(events[i]) != #[trigger] registered_id(events[j]) by {
        if events[j] is Registered {
            assert(events[i] is Registered);
            law_identifiers_never_repeat(counts[i], counts[j]);
        }
    }
}

} // verus!
