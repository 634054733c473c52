//! The idle connections of a pool.

use vstd::prelude::*;

use std::collections::VecDeque;
use vstd::multiset::Multiset;

verus! {

/// The connections that a pool holds while nobody uses them, handed out
/// again in the order in which they came back.
pub struct IdleQueue<C> {
    idle: VecDeque<C>,
}

impl<C> IdleQueue<C> {
    /// The idle connections, the next one to hand out first.
    pub closed spec fn queue(&self) -> Seq<C> {
        self.idle@
    }

    /// A queue without connections.
    pub fn new() -> (queue: Self)
        ensures
            queue.queue() == Seq::<C>::empty(),
    {
        IdleQueue { idle: VecDeque::new() }
    }

    /// Takes the connection that has been idle longest, if there is one.
    pub fn take(&mut self) -> (connection: Option<C>)
        ensures
            old(self).queue().len() == 0 ==> connection is None && final(self).queue() == old(self).queue(),
            old(self).queue().len() > 0 ==> {
                &&& connection == Some(old(self).queue()[0])
                &&& final(self).queue() == old(self).queue().drop_first()
            },
    {
        let connection = self.idle.pop_front();
        proof {
            if old(self).queue().len() > 0 {
                assert(old(self).queue().subrange(1, old(self).queue().len() as int) =~= old(self).queue().drop_first());
            }
        }
        connection
    }

    /// Puts a connection that is no longer used at the back of the queue.
    pub fn give_back(&mut self, connection: C)
        ensures
            final(self).queue() == old(self).queue().push(connection),
    {
        self.idle.push_back(connection);
    }
}

/// Giving a connection back does not change which connection is handed out
/// next, unless none was idle: then it is the one given back. Connections are
/// therefore handed out in the order in which they came back.
pub proof fn law_first_back_first_out<C>(queue: Seq<C>, connection: C)
    ensures
        queue.len() == 0 ==> queue.push(connection)[0] == connection
            && queue.push(connection).drop_first() == Seq::<C>::empty(),
        queue.len() > 0 ==> queue.push(connection)[0] == queue[0]
            && queue.push(connection).drop_first() == queue.drop_first().push(connection),
{
    if queue.len() == 0 {
        assert(queue.push(connection).drop_first() =~= Seq::<C>::empty());
    } else {
        assert(queue.push(connection).drop_first() =~= queue.drop_first().push(connection));
    }
}

/// In a queue where no connection occurs twice, the connection handed out is
/// no longer idle, and giving back a connection that is not idle keeps every
/// connection in the queue at most once.
pub proof fn law_handed_out_is_no_longer_idle<C>(queue: Seq<C>, connection: C)
    requires
        queue.no_duplicates(),
    ensures
        queue.len() > 0 ==> !queue.drop_first().contains(queue[0]) && queue.drop_first().no_duplicates(),
        !queue.contains(connection) ==> queue.push(connection).no_duplicates(),
{
    if queue.len() > 0 {
        let rest = queue.drop_first();
        if rest.contains(queue[0]) {
            let k = choose|k: int| 0 <= k < rest.len() && rest[k] == queue[0];
            assert(queue[k + 1] == queue[0]);
        }
        assert forall|a: int, b: int| 0 <= a < rest.len() && 0 <= b < rest.len() && a != b implies rest[a] != rest[b] by {
            assert(rest[a] == queue[a + 1]);
            assert(rest[b] == queue[b + 1]);
        }
    }
    if !queue.contains(connection) {
        let more = queue.push(connection);
        assert forall|a: int, b: int| 0 <= a < more.len() && 0 <= b < more.len() && a != b implies more[a] != more[b] by {
            if a < queue.len() && b < queue.len() {
            } else if a < queue.len() {
                assert(more[a] == queue[a]);
            } else {
                assert(more[b] == queue[b]);
            }
        }
    }
}

/// What happens to a pool: a connection is taken from the idle queue (or,
/// when none is idle, a new one is built and handed out), or a handed-out
/// connection is given back.
pub enum PoolOp<C> {
    /// `get` took the connection that has been idle longest, if any.
    Take,
    /// `get` found no idle connection and handed out this new one.
    Build(C),
    /// A handle was dropped and gave this connection back.
    GiveBack(C),
}

/// The idle queue and the connections handed out, after one operation.
pub open spec fn pool_step<C>(queue: Seq<C>, held: Multiset<C>, op: PoolOp<C>) -> (Seq<C>, Multiset<C>) {
    match op {
        PoolOp::Take => if queue.len() > 0 {
            (queue.drop_first(), held.insert(queue[0]))
        } else {
            (queue, held)
        },
        PoolOp::Build(c) => (queue, held.insert(c)),
        PoolOp::GiveBack(c) => (queue.push(c), held.remove(c)),
    }
}

/// Each connection is idle at most once or handed out at most once, never both.
pub open spec fn pool_exclusive<C>(queue: Seq<C>, held: Multiset<C>) -> bool {
    &&& queue.no_duplicates()
    &&& forall|c: C| #[trigger] held.count(c) <= 1
    &&& forall|c: C| queue.contains(c) ==> #[trigger] held.count(c) == 0
}

/// An operation that the pool's owners can perform: a new connection is
/// neither idle nor handed out, and only a handed-out connection comes back.
pub open spec fn pool_op_allowed<C>(queue: Seq<C>, held: Multiset<C>, op: PoolOp<C>) -> bool {
    match op {
        PoolOp::Take => true,
        PoolOp::Build(c) => !queue.contains(c) && held.count(c) == 0,
        PoolOp::GiveBack(c) => held.count(c) >= 1,
    }
}

/// The state of a pool after a run of operations from an empty one.
pub open spec fn pool_run<C>(ops: Seq<PoolOp<C>>) -> (Seq<C>, Multiset<C>)
    decreases ops.len(),
{
    if ops.len() == 0 {
        (Seq::empty(), Multiset::empty())
    } else {
        let (queue, held) = pool_run(ops.drop_last());
        pool_step(queue, held, ops.last())
    }
}

/// Every operation of the run was allowed when it happened.
pub open spec fn pool_run_allowed<C>(ops: Seq<PoolOp<C>>) -> bool
    decreases ops.len(),
{
    if ops.len() == 0 {
        true
    } else {
        let (queue, held) = pool_run(ops.drop_last());
        pool_run_allowed(ops.drop_last()) && pool_op_allowed(queue, held, ops.last())
    }
}

/// One allowed operation keeps every connection idle at most once or handed
/// out at most once, never both.
pub proof fn law_pool_step_exclusive<C>(queue: Seq<C>, held: Multiset<C>, op: PoolOp<C>)
    requires
        pool_exclusive(queue, held),
        pool_op_allowed(queue, held, op),
    ensures
        ({
            let (q, h) = pool_step(queue, held, op);
            pool_exclusive(q, h)
        }),
{
    match op {
        PoolOp::Take => {
            if queue.len() > 0 {
                let c0 = queue[0];
                law_handed_out_is_no_longer_idle(queue, c0);
                let (q, h) = pool_step(queue, held, op);
                assert(queue.contains(c0));
                assert forall|c: C| q.contains(c) implies #[trigger] h.count(c) == 0 by {
                    let k = choose|k: int| 0 <= k < q.len() && q[k] == c;
                    assert(queue[k + 1] == c);
                    assert(queue.contains(c));
                }
                assert forall|c: C| #[trigger] h.count(c) <= 1 by {}
            }
        },
        PoolOp::Build(c) => {},
        PoolOp::GiveBack(c) => {
            law_handed_out_is_no_longer_idle(queue, c);
            let (q, h) = pool_step(queue, held, op);
            assert forall|x: C| q.contains(x) implies #[trigger] h.count(x) == 0 by {
                if x != c {
                    let k = choose|k: int| 0 <= k < q.len() && q[k] == x;
                    assert(k < queue.len());
                    assert(queue[k] == x);
                    assert(queue.contains(x));
                }
            }
            assert forall|x: C| #[trigger] h.count(x) <= 1 by {}
        },
    }
}

/// However the gets and drops of a pool interleave (the pool's lock puts
/// them one after the other), no connection is ever handed out twice at once,
/// none waits in the idle queue twice, and none is idle while handed out.
pub proof fn law_pool_never_shares_a_connection<C>(ops: Seq<PoolOp<C>>)
    requires
        pool_run_allowed(ops),
    ensures
        pool_exclusive(pool_run(ops).0, pool_run(ops).1),
    decreases ops.len(),
{
    if ops.len() == 0 {
        assert(Seq::<C>::empty().no_duplicates());
        assert forall|c: C| #[trigger] Multiset::<C>::empty().count(c) <= 1 by {}
    } else {
        law_pool_never_shares_a_connection(ops.drop_last());
        let (queue, held) = pool_run(ops.drop_last());
        law_pool_step_exclusive(queue, held, ops.last());
    }
}

} // verus!
