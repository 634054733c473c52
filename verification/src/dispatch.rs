//! Routing of responses to the requests that wait for them.
//!
//! The client's background task owns a [`Dispatcher`]. Two things reach it: a
//! request, registered under its identifier together with the sink its
//! response must go to, and a response, read from the socket and tagged with
//! the identifier of the request it answers. The two can come in either
//! order, so the dispatcher keeps the sinks whose response has not arrived yet
//! and the responses whose request has not been registered yet, and pairs
//! them up as soon as both are there.

use vstd::prelude::*;

use crate::action::ClientAction;
use crate::response::SurrealRawResponse;
use crate::table::{entries_map, keys_distinct, Table};

verus! {

/// What happened, as seen by the background task.
pub enum Event<S> {
    /// A request was registered under this identifier, with the sink that its
    /// response goes to.
    Registered(String, S),
    /// The channel of registrations closed: the client was dropped.
    RegistrationsClosed,
    /// A response arrived on the socket.
    Response(SurrealRawResponse),
    /// The socket failed, or sent text that is not a response, and the error
    /// handler chose this action.
    Failed(ClientAction),
    /// The socket has no more messages.
    SocketClosed,
}

/// What the background task does next.
pub enum Step<S> {
    /// Wait for the next event.
    Continue,
    /// Hand the response to the sink, then wait for the next event.
    Deliver(S, SurrealRawResponse),
    /// The error handler shut the client down: tell every request that
    /// still waits (see [`Dispatcher::into_waiting`]) and every request not
    /// registered yet that the connection is closed, then end the task.
    ShutDown,
    /// End the task.
    Stop,
}

/// The routing state of one connection, modelled by two maps keyed by request
/// identifier: the sinks that wait for a response, and the responses that wait
/// for a sink.
pub open spec fn next_step<S>(
    waiting: Map<Seq<char>, S>,
    pending: Map<Seq<char>, SurrealRawResponse>,
    event: Event<S>,
) -> (Map<Seq<char>, S>, Map<Seq<char>, SurrealRawResponse>, Step<S>) {
    match event {
        Event::Registered(id, sink) => if pending.contains_key(id@) {
            (waiting, pending.remove(id@), Step::Deliver(sink, pending[id@]))
        } else {
            (waiting.insert(id@, sink), pending, Step::Continue)
        },
        Event::RegistrationsClosed => (waiting, pending, Step::Stop),
        Event::Response(response) => if waiting.contains_key(response.id@) {
            (waiting.remove(response.id@), pending, Step::Deliver(waiting[response.id@], response))
        } else {
            (waiting, pending.insert(response.id@, response), Step::Continue)
        },
        Event::Failed(action) => match action {
            ClientAction::IgnoreError => (waiting, pending, Step::Continue),
            ClientAction::Shutdown => (waiting, pending, Step::ShutDown),
        },
        Event::SocketClosed => (waiting, pending, Step::Stop),
    }
}

/// Every pending response is kept under the identifier that it carries.
pub open spec fn keyed_by_id(pending: Map<Seq<char>, SurrealRawResponse>) -> bool {
    forall|k: Seq<char>| #[trigger] pending.contains_key(k) ==> pending[k].id@ == k
}

/// No identifier has both a sink waiting for its response and a response
/// waiting for its sink, before or after any event.
pub proof fn law_never_both_waiting_and_pending<S>(
    waiting: Map<Seq<char>, S>,
    pending: Map<Seq<char>, SurrealRawResponse>,
    event: Event<S>,
)
    requires
        waiting.dom().disjoint(pending.dom()),
    ensures
        next_step(waiting, pending, event).0.dom().disjoint(next_step(waiting, pending, event).1.dom()),
{
}

/// A response is delivered only to the sink registered under the identifier
/// that the response carries.
pub proof fn law_delivery_matches_identifier<S>(
    waiting: Map<Seq<char>, S>,
    pending: Map<Seq<char>, SurrealRawResponse>,
    event: Event<S>,
)
    requires
        keyed_by_id(pending),
    ensures
        keyed_by_id(next_step(waiting, pending, event).1),
        next_step(waiting, pending, event).2 matches Step::Deliver(sink, response) ==> match event {
            Event::Registered(id, registered) => sink == registered && response.id@ == id@,
            Event::Response(arrived) => response == arrived && waiting.contains_key(arrived.id@)
                && sink == waiting[arrived.id@],
            _ => false,
        },
{
}

/// Whichever comes first, the registration of a request or the response to
/// it, the second of the two delivers the response to the request's sink, and
/// the dispatcher is left as it was before the first.
pub proof fn law_rendezvous_in_either_order<S>(
    waiting: Map<Seq<char>, S>,
    pending: Map<Seq<char>, SurrealRawResponse>,
    id: String,
    sink: S,
    response: SurrealRawResponse,
)
    requires
        response.id@ == id@,
        !waiting.contains_key(id@),
        !pending.contains_key(id@),
    ensures
        ({
            let (w1, p1, s1) = next_step(waiting, pending, Event::Registered(id, sink));
            let (w2, p2, s2) = next_step(w1, p1, Event::Response(response));
            &&& s1 == Step::<S>::Continue
            &&& s2 == Step::Deliver(sink, response)
            &&& w2 == waiting
            &&& p2 == pending
        }),
        ({
            let (w1, p1, s1) = next_step(waiting, pending, Event::Response(response));
            let (w2, p2, s2) = next_step(w1, p1, Event::Registered(id, sink));
            &&& s1 == Step::<S>::Continue
            &&& s2 == Step::Deliver(sink, response)
            &&& w2 == waiting
            &&& p2 == pending
        }),
{
    assert(waiting.insert(id@, sink).remove(id@) =~= waiting);
    assert(pending.insert(id@, response).remove(id@) =~= pending);
}

/// An error that the handler chose to ignore leaves everything as it was.
pub proof fn law_ignored_error_changes_nothing<S>(
    waiting: Map<Seq<char>, S>,
    pending: Map<Seq<char>, SurrealRawResponse>,
)
    ensures
        next_step(waiting, pending, Event::Failed(ClientAction::IgnoreError)) == (
        waiting,
        pending,
        Step::<S>::Continue,
    ),
{
}

/// Pairs responses with the sinks of the requests they answer.
pub struct Dispatcher<S> {
    waiting: Table<S>,
    pending: Table<SurrealRawResponse>,
}

impl<S> Dispatcher<S> {
    /// The sinks that wait for a response, by request identifier.
    pub closed spec fn waiting(&self) -> Map<Seq<char>, S> {
        self.waiting.map()
    }

    /// The responses that wait for their request to be registered, by identifier.
    pub closed spec fn pending(&self) -> Map<Seq<char>, SurrealRawResponse> {
        self.pending.map()
    }

    /// The dispatcher is well formed: its tables are, no identifier has both
    /// a waiting sink and a pending response, and every pending response is
    /// kept under its own identifier.
    #[verifier::type_invariant]
    closed spec fn wf(&self) -> bool {
        &&& self.waiting.wf()
        &&& self.pending.wf()
        &&& self.waiting.map().dom().disjoint(self.pending.map().dom())
        &&& keyed_by_id(self.pending.map())
    }

    /// A dispatcher with nothing waiting and nothing pending.
    pub fn new() -> (dispatcher: Self)
        ensures
            dispatcher.waiting() == Map::<Seq<char>, S>::empty(),
            dispatcher.pending() == Map::<Seq<char>, SurrealRawResponse>::empty(),
    {
        Dispatcher { waiting: Table::new(), pending: Table::new() }
    }

    /// The sinks that still wait for a response, with the identifiers they
    /// wait under: each waiting identifier once, with its sink.
    pub fn into_waiting(self) -> (waiting: Vec<(String, S)>)
        ensures
            keys_distinct(waiting@),
            entries_map(waiting@) == self.waiting(),
    {
        proof {
            use_type_invariant(&self);
        }
        let Dispatcher { waiting, pending: _ } = self;
        waiting.into_entries()
    }

    /// Takes one event into account and says what to do next.
    pub fn step(&mut self, event: Event<S>) -> (step: Step<S>)
        ensures
            ({
                let (waiting, pending, next) = next_step(old(self).waiting(), old(self).pending(), event);
                &&& final(self).waiting() == waiting
                &&& final(self).pending() == pending
                &&& step == next
            }),
    {
        proof {
            use_type_invariant(&*self);
        }
        let mut waiting = Table::new();
        let mut pending = Table::new();
        std::mem::swap(&mut waiting, &mut self.waiting);
        std::mem::swap(&mut pending, &mut self.pending);
        let step = match event {
            Event::Registered(id, sink) => {
                match pending.take(&id) {
                    Some(response) => Step::Deliver(sink, response),
                    None => {
                        waiting.put(id, sink);
                        Step::Continue
                    },
                }
            },
            Event::RegistrationsClosed => Step::Stop,
            Event::Response(response) => {
                match waiting.take(&response.id) {
                    Some(sink) => Step::Deliver(sink, response),
                    None => {
                        let id = response.id.clone();
                        pending.put(id, response);
                        Step::Continue
                    },
                }
            },
            Event::Failed(action) => match action {
                ClientAction::IgnoreError => Step::Continue,
                ClientAction::Shutdown => Step::ShutDown,
            },
            Event::SocketClosed => Step::Stop,
        };
        *self = Dispatcher { waiting, pending };
        step
    }
}

} // verus!
