use crate::combat::Creature;
use crate::events::EntityId;
use vstd::prelude::*;

verus! {

/// A one-shot countdown after which its entity is removed.
#[derive(Clone, Copy, Debug, PartialEq, Eq, Structural)]
pub struct DespawnTimer {
    pub elapsed_us: u64,
    pub duration_us: u64,
    pub finished: bool,
}

/// A timer after one tick of `delta_us`, and whether that tick finished it.
/// A finished timer stays as it is; otherwise the elapsed time grows, held at
/// the duration, and the timer finishes once it reaches the duration.
pub open spec fn ticked(t: DespawnTimer, delta_us: u64) -> (DespawnTimer, bool) {
    if t.finished {
        (t, false)
    } else {
        let reached = t.elapsed_us + delta_us >= t.duration_us;
        (
            DespawnTimer {
                elapsed_us: if reached {
                    t.duration_us
                } else {
                    (t.elapsed_us + delta_us) as u64
                },
                duration_us: t.duration_us,
                finished: reached,
            },
            reached,
        )
    }
}

impl DespawnTimer {
    /// A timer that runs out after `duration_us`.
    pub fn after(duration_us: u64) -> (r: DespawnTimer)
        ensures
            r == (DespawnTimer { elapsed_us: 0, duration_us, finished: false }),
    {
        DespawnTimer { elapsed_us: 0, duration_us, finished: false }
    }

    /// Advances the timer by `delta_us`; true exactly on the tick that finishes it.
    pub fn tick(&mut self, delta_us: u64) -> (just_finished: bool)
        ensures
            (*final(self), just_finished) == ticked(*old(self), delta_us),
    {
        if self.finished {
            return false;
        }
        let reached = delta_us >= self.duration_us || self.elapsed_us >= self.duration_us - delta_us;
        if reached {
            self.elapsed_us = self.duration_us;
        } else {
            self.elapsed_us = self.elapsed_us + delta_us;
        }
        self.finished = reached;
        reached
    }
}

/// Entities whose timers finish on a tick of `delta_us`, in order.
pub open spec fn expiring(timers: Seq<(EntityId, DespawnTimer)>, delta_us: u64) -> Seq<EntityId>
    decreases timers.len(),
{
    if timers.len() == 0 {
        Seq::<EntityId>::empty()
    } else {
        let rest = expiring(timers.drop_last(), delta_us);
        if ticked(timers.last().1, delta_us).1 {
            rest.push(timers.last().0)
        } else {
            rest
        }
    }
}

/// Entities whose health is at or below zero, in order.
pub open spec fn fallen(cs: Seq<Creature>) -> Seq<EntityId>
    decreases cs.len(),
{
    if cs.len() == 0 {
        Seq::<EntityId>::empty()
    } else {
        let rest = fallen(cs.drop_last());
        if cs.last().health <= 0 {
            rest.push(cs.last().entity)
        } else {
            rest
        }
    }
}

/// Ticks every despawn timer by the frame's elapsed time and returns the
/// entities to remove: those whose timer ran out on this tick.
pub fn despawn_system(timers: &mut Vec<(EntityId, DespawnTimer)>, delta_us: u64) -> (r: Vec<
    EntityId,
>)
    ensures
        final(timers)@.len() == old(timers)@.len(),
        forall|i: int|
            0 <= i < old(timers)@.len() ==> #[trigger] final(timers)@[i] == (
                old(timers)@[i].0,
                ticked(old(timers)@[i].1, delta_us).0,
            ),
        r@ == expiring(old(timers)@, delta_us),
{
    let ghost start = timers@;
    let mut out: Vec<EntityId> = Vec::new();
    let mut i: usize = 0;
    while i < timers.len()
        invariant
            i <= timers@.len(),
            timers@.len() == start.len(),
            forall|j: int|
                0 <= j < i ==> #[trigger] timers@[j] == (start[j].0, ticked(start[j].1, delta_us).0),
            forall|j: int| i <= j < timers@.len() ==> #[trigger] timers@[j] == start[j],
            out@ == expiring(start.take(i as int), delta_us),
        decreases timers@.len() - i,
    {
        let (e, t) = timers[i];
        let mut timer = t;
        let done = timer.tick(delta_us);
        timers.set(i, (e, timer));
        if done {
            out.push(e);
        }
        assert(start.take(i + 1).drop_last() =~= start.take(i as int));
        i = i + 1;
    }
    assert(start.take(start.len() as int) =~= start);
    out
}

/// Entities to remove because their health reached zero or below.
pub fn health_system(creatures: &Vec<Creature>) -> (r: Vec<EntityId>)
    ensures
        r@ == fallen(creatures@),
{
    let mut out: Vec<EntityId> = Vec::new();
    let mut i: usize = 0;
    while i < creatures.len()
        invariant
            i <= creatures@.len(),
            out@ == fallen(creatures@.take(i as int)),
        decreases creatures@.len() - i,
    {
        if creatures[i].health <= 0 {
            out.push(creatures[i].entity);
        }
        assert(creatures@.take(i + 1).drop_last() =~= creatures@.take(i as int));
        i = i + 1;
    }
    assert(creatures@.take(creatures@.len() as int) =~= creatures@);
    out
}

} // verus!
