//! Collision-to-trigger translator: filters the physics backend's raw
//! collision-start events down to entities tagged as triggers and emits a
//! directional (trigger, other) semantic event for each tagged side.
//!
//! Collision-stop events are ignored entirely: the pipeline has no notion of
//! trigger exit. When both colliding entities are tagged, two events fire in
//! the same frame, one per side.

use vstd::prelude::*;

use crate::world::{spec_is_trigger, EntityRecord, World};

verus! {

/// Marks an entity as a trigger source; presence-only, no payload.
#[derive(Clone, Copy, Debug)]
pub struct OnTrigger;

/// Semantic trigger event: the tagged trigger entity and the other entity
/// that collided with it.
#[derive(Clone, Copy, PartialEq, Eq, Structural, Debug)]
pub struct OnTriggerEvent {
    pub trigger: u64,
    pub other: u64,
}

/// Raw collision event from the physics backend, carrying the pair of
/// entities whose contact started or stopped.
#[derive(Clone, Copy, PartialEq, Eq, Structural, Debug)]
pub enum CollisionEvent {
    Started(u64, u64),
    Stopped(u64, u64),
}

/// The semantic events one raw collision event translates to: one per tagged
/// side of a started contact, first for the left entity, and none for a
/// stopped contact.
pub open spec fn spec_events_for(ev: CollisionEvent, s: Seq<EntityRecord>) -> Seq<OnTriggerEvent> {
    match ev {
        CollisionEvent::Started(e1, e2) => {
            let left = if spec_is_trigger(s, e1) {
                seq![OnTriggerEvent { trigger: e1, other: e2 }]
            } else {
                Seq::empty()
            };
            let right = if spec_is_trigger(s, e2) {
                seq![OnTriggerEvent { trigger: e2, other: e1 }]
            } else {
                Seq::empty()
            };
            left + right
        },
        CollisionEvent::Stopped(_, _) => Seq::empty(),
    }
}

/// The whole frame's raw collision events translated in order.
pub open spec fn spec_translate(events: Seq<CollisionEvent>, s: Seq<EntityRecord>) -> Seq<
    OnTriggerEvent,
>
    decreases events.len(),
{
    if events.len() == 0 {
        Seq::empty()
    } else {
        spec_translate(events.drop_last(), s) + spec_events_for(events.last(), s)
    }
}

/// Translate one frame of raw collision events into semantic trigger events.
pub fn trigger_react(world: &World, collision_events: &Vec<CollisionEvent>) -> (out: Vec<
    OnTriggerEvent,
>)
    ensures
        out@ == spec_translate(collision_events@, world.entities@),
{
    let ghost evs = collision_events@;
    let mut out: Vec<OnTriggerEvent> = Vec::new();
    let n: usize = collision_events.len();
    let mut i: usize = 0;
    while i < n
        invariant
            i <= n,
            n == evs.len(),
            evs == collision_events@,
            out@ == spec_translate(evs.take(i as int), world.entities@),
        decreases n - i,
    {
        let ghost out_before = out@;
        match collision_events[i] {
            CollisionEvent::Started(e1, e2) => {
                if world.has_on_trigger(e1) {
                    out.push(OnTriggerEvent { trigger: e1, other: e2 });
                }
                if world.has_on_trigger(e2) {
                    out.push(OnTriggerEvent { trigger: e2, other: e1 });
                }
            },
            CollisionEvent::Stopped(_, _) => {},
        }
        proof {
            assert(evs.take(i as int + 1).drop_last() =~= evs.take(i as int));
            assert(evs.take(i as int + 1).last() == evs[i as int]);
            assert(out@ =~= out_before + spec_events_for(evs[i as int], world.entities@));
        }
        i = i + 1;
    }
    proof {
        assert(evs.take(n as int) =~= evs);
    }
    out
}

/// Directional trigger event law: a started contact between two
/// trigger-tagged entities translates to exactly two semantic events this
/// frame, one per direction, each with the correct (trigger, other)
/// assignment.
pub proof fn lemma_directional_trigger(s: Seq<EntityRecord>, a: u64, b: u64)
    requires
        spec_is_trigger(s, a),
        spec_is_trigger(s, b),
    ensures
        spec_events_for(CollisionEvent::Started(a, b), s) == seq![
            OnTriggerEvent { trigger: a, other: b },
            OnTriggerEvent { trigger: b, other: a },
        ],
        spec_translate(seq![CollisionEvent::Started(a, b)], s) == seq![
            OnTriggerEvent { trigger: a, other: b },
            OnTriggerEvent { trigger: b, other: a },
        ],
{
    assert(spec_events_for(CollisionEvent::Started(a, b), s) =~= seq![
        OnTriggerEvent { trigger: a, other: b },
        OnTriggerEvent { trigger: b, other: a },
    ]);
    let evs = seq![CollisionEvent::Started(a, b)];
    assert(evs.drop_last() =~= Seq::<CollisionEvent>::empty());
    assert(spec_translate(evs.drop_last(), s) =~= Seq::<OnTriggerEvent>::empty());
    assert(evs.last() == CollisionEvent::Started(a, b));
    assert(spec_translate(evs, s) =~= seq![
        OnTriggerEvent { trigger: a, other: b },
        OnTriggerEvent { trigger: b, other: a },
    ]);
}

} // verus!
