//! Interest registry: the single change-propagation idiom of the bar.
//!
//! Any consumer that has read a piece of changing data registers its
//! runtime-context handle here; when the data changes, the registry is
//! drained (taken and replaced empty) and every drained party is asked to
//! request a redraw. A party that wants to observe the next change must
//! re-register after being notified.

use vstd::prelude::*;

verus! {

/// A subscription list of runtime-context handles. Handles are weak:
/// holding one here never keeps a context alive, and delivering a wakeup
/// to a stale handle is harmless.
pub struct NotifierList {
    pub interested: Vec<u64>,
}

impl NotifierList {
    /// An empty registry: nobody is interested yet.
    pub fn new() -> (r: NotifierList)
        ensures
            r.interested@ == Seq::<u64>::empty(),
    {
        NotifierList { interested: Vec::new() }
    }

    /// Record interest of the context `ctx`. Registering twice is allowed;
    /// a duplicate wakeup is harmless.
    pub fn add(&mut self, ctx: u64)
        ensures
            final(self).interested@ == old(self).interested@.push(ctx),
    {
        self.interested.push(ctx);
    }

    /// Atomically remove all current registrants and hand them back so the
    /// caller can ask each one's context for an immediate redraw. After
    /// this call the registry is empty: a party is notified once per change
    /// and must re-register to observe the next one.
    pub fn notify_data(&mut self) -> (woken: Vec<u64>)
        ensures
            woken@ == old(self).interested@,
            final(self).interested@ == Seq::<u64>::empty(),
    {
        let mut drained = Vec::new();
        core::mem::swap(&mut drained, &mut self.interested);
        drained
    }
}

/// Replay of a batch of registrations on a registry state.
pub open spec fn spec_register_all(start: Seq<u64>, adds: Seq<u64>) -> Seq<u64>
    decreases adds.len(),
{
    if adds.len() == 0 {
        start
    } else {
        spec_register_all(start.push(adds[0]), adds.skip(1))
    }
}

/// Law: one notification per change. After `notify_data` the registry is
/// empty, so the parties woken by the next change are exactly the parties
/// that re-registered in between: a party that re-registers is notified
/// again, a party that does not is not.
pub proof fn lemma_notify_round(readds: Seq<u64>)
    ensures
        spec_register_all(Seq::<u64>::empty(), readds) == readds,
        forall|ctx: u64|
            spec_register_all(Seq::<u64>::empty(), readds).contains(ctx) <==> readds.contains(
                ctx,
            ),
{
    lemma_register_all_from(Seq::<u64>::empty(), readds);
    assert(Seq::<u64>::empty() + readds =~= readds);
}

/// Replaying registrations appends them in order.
proof fn lemma_register_all_from(start: Seq<u64>, adds: Seq<u64>)
    ensures
        spec_register_all(start, adds) == start + adds,
    decreases adds.len(),
{
    if adds.len() == 0 {
        assert(start + adds =~= start);
    } else {
        lemma_register_all_from(start.push(adds[0]), adds.skip(1));
        assert(start.push(adds[0]) + adds.skip(1) =~= start + adds);
    }
}

} // verus!
