//! World model for the trigger reaction pipeline: entity records carrying
//! the reaction tag components, and the three independent reaction handlers
//! (skin swap, grouped despawn, game-state transition).
//!
//! Entities are identified by an opaque stable handle, held here as a plain
//! integer id. Each handler queries only the semantic trigger event and its
//! own marker component on the trigger entity; handlers are mutually
//! independent and order-agnostic, and despawn is the only destructive
//! operation.

use vstd::prelude::*;

use crate::trigger::{OnTrigger, OnTriggerEvent};

verus! {

/// Applied to a trigger entity, names the skin key to put on whatever walks
/// into the trigger.
#[derive(Clone, Copy, PartialEq, Eq, Structural, Debug)]
pub struct SkinToApply {
    pub key: u64,
}

/// Applied to a trigger entity, names the despawn group to clear when the
/// trigger fires.
#[derive(Clone, Copy, PartialEq, Eq, Structural, Debug)]
pub struct Despawner(pub u64);

/// Membership of a despawn group: entities sharing the group id are
/// despawned together.
#[derive(Clone, Copy, PartialEq, Eq, Structural, Debug)]
pub struct DespawnId(pub u64);

/// Applied to a trigger entity, requests a transition back to the loading
/// screen when the trigger fires.
#[derive(Clone, Copy, PartialEq, Eq, Structural, Debug)]
pub struct TriggerGameOver;

/// Global game screens the host can be asked to transition to.
#[derive(Clone, Copy, PartialEq, Eq, Structural, Debug)]
pub enum Screen {
    Loading,
    Playing,
}

/// One spawned entity with the components the reaction pipeline reads:
/// every tag is optional, absence meaning the entity does not carry it.
/// `skin` is the render skin currently applied to the entity.
#[derive(Clone, Copy, Debug)]
pub struct EntityRecord {
    pub id: u64,
    pub on_trigger: Option<OnTrigger>,
    pub skin_to_apply: Option<SkinToApply>,
    pub despawner: Option<Despawner>,
    pub despawn_id: Option<DespawnId>,
    pub game_over: Option<TriggerGameOver>,
    pub skin: Option<u64>,
}

/// The entity store the reaction handlers read and write.
pub struct World {
    pub entities: Vec<EntityRecord>,
}

/// Index of the first entity with the given id, or -1 when none exists.
pub open spec fn spec_find_at(s: Seq<EntityRecord>, id: u64) -> int
    decreases s.len(),
{
    if s.len() == 0 {
        -1
    } else if s[0].id == id {
        0
    } else {
        let rest = spec_find_at(s.drop_first(), id);
        if rest < 0 {
            -1
        } else {
            rest + 1
        }
    }
}

/// Entity ids are pairwise distinct, as an ECS store guarantees of its
/// stable handles.
pub open spec fn spec_ids_unique(s: Seq<EntityRecord>) -> bool {
    forall|i: int, j: int| 0 <= i < j < s.len() ==> s[i].id != s[j].id
}

/// The entity with the given id carries the `OnTrigger` tag.
pub open spec fn spec_is_trigger(s: Seq<EntityRecord>, id: u64) -> bool {
    let at = spec_find_at(s, id);
    at >= 0 && s[at].on_trigger is Some
}

proof fn lemma_find_at_props(s: Seq<EntityRecord>, id: u64)
    ensures
        ({
            let at = spec_find_at(s, id);
            &&& at >= 0 ==> 0 <= at < s.len() && s[at].id == id
            &&& at >= 0 ==> forall|k: int| 0 <= k < at ==> s[k].id != id
            &&& at < 0 ==> forall|k: int| 0 <= k < s.len() ==> s[k].id != id
        }),
    decreases s.len(),
{
    if s.len() > 0 && s[0].id != id {
        let sub = s.drop_first();
        lemma_find_at_props(sub, id);
        let rest = spec_find_at(sub, id);
        if rest >= 0 {
            assert(sub[rest] == s[rest + 1]);
            assert forall|k: int| 0 <= k < rest + 1 implies s[k].id != id by {
                if k > 0 {
                    assert(sub[k - 1] == s[k]);
                    assert(sub[k - 1].id != id);
                }
            }
        } else {
            assert forall|k: int| 0 <= k < s.len() implies s[k].id != id by {
                if k > 0 {
                    assert(sub[k - 1] == s[k]);
                    assert(sub[k - 1].id != id);
                }
            }
        }
    }
}

impl World {
    /// An empty world.
    pub fn new() -> (w: World)
        ensures
            w.entities@ == Seq::<EntityRecord>::empty(),
    {
        World { entities: Vec::new() }
    }

    /// Add one entity record at the end of the store.
    pub fn spawn(&mut self, rec: EntityRecord)
        ensures
            final(self).entities@ == old(self).entities@.push(rec),
    {
        self.entities.push(rec);
    }

    /// Index of the first entity with the given id, if any.
    pub fn find_index(&self, id: u64) -> (r: Option<usize>)
        ensures
            ({
                let at = spec_find_at(self.entities@, id);
                match r {
                    Some(j) => at == j as int && j < self.entities@.len()
                        && self.entities@[j as int].id == id,
                    None => at < 0,
                }
            }),
    {
        let ghost s = self.entities@;
        let n: usize = self.entities.len();
        let mut i: usize = 0;
        while i < n
            invariant
                i <= n,
                n == s.len(),
                s == self.entities@,
                forall|k: int| 0 <= k < i ==> s[k].id != id,
            decreases n - i,
        {
            if self.entities[i].id == id {
                proof {
                    lemma_find_at_props(s, id);
                    let at = spec_find_at(s, id);
                    if at < 0 {
                        assert(s[i as int].id != id);
                    } else if at < i as int {
                        assert(s[at].id != id);
                    } else if at > i as int {
                        assert(s[i as int].id != id);
                    }
                }
                return Some(i);
            }
            i = i + 1;
        }
        proof {
            lemma_find_at_props(s, id);
            let at = spec_find_at(s, id);
            if at >= 0 {
                assert(s[at].id != id);
            }
        }
        None
    }

    /// Whether the entity with the given id carries the `OnTrigger` tag.
    pub fn has_on_trigger(&self, id: u64) -> (b: bool)
        ensures
            b == spec_is_trigger(self.entities@, id),
    {
        match self.find_index(id) {
            Some(j) => self.entities[j].on_trigger.is_some(),
            None => false,
        }
    }
}

/// The record with its render skin replaced by the given key.
pub open spec fn spec_with_skin(e: EntityRecord, key: u64) -> EntityRecord {
    EntityRecord {
        id: e.id,
        on_trigger: e.on_trigger,
        skin_to_apply: e.skin_to_apply,
        despawner: e.despawner,
        despawn_id: e.despawn_id,
        game_over: e.game_over,
        skin: Some(key),
    }
}

/// The store after the skin-change handler reacts to one trigger event: when
/// the trigger entity carries a skin request, the referenced skin is applied
/// to the other entity — the one that walked in — and to nothing else.
pub open spec fn spec_apply_skin(s: Seq<EntityRecord>, trigger: u64, other: u64) -> Seq<
    EntityRecord,
> {
    let ti = spec_find_at(s, trigger);
    if ti >= 0 {
        match s[ti].skin_to_apply {
            Some(req) => {
                let oi = spec_find_at(s, other);
                if oi >= 0 {
                    s.update(oi, spec_with_skin(s[oi], req.key))
                } else {
                    s
                }
            },
            None => s,
        }
    } else {
        s
    }
}

/// Skin-change handler: if the trigger entity carries a skin request, apply
/// the referenced skin to the other entity, never to the trigger itself.
/// Missing entities mean no update, never an error.
pub fn change_skin(world: &mut World, ev: &OnTriggerEvent)
    ensures
        final(world).entities@ == spec_apply_skin(old(world).entities@, ev.trigger, ev.other),
{
    match world.find_index(ev.trigger) {
        Some(ti) => {
            match world.entities[ti].skin_to_apply {
                Some(req) => {
                    match world.find_index(ev.other) {
                        Some(oi) => {
                            let mut rec = world.entities[oi];
                            rec.skin = Some(req.key);
                            world.entities.set(oi, rec);
                        },
                        None => {},
                    }
                },
                None => {},
            }
        },
        None => {},
    }
}

/// The entity belongs to the given despawn group.
pub open spec fn spec_in_group(e: EntityRecord, group: u64) -> bool {
    match e.despawn_id {
        Some(d) => d.0 == group,
        None => false,
    }
}

/// The store with every member of the given despawn group removed, the order
/// of the survivors kept.
pub open spec fn spec_retain_group(s: Seq<EntityRecord>, group: u64) -> Seq<EntityRecord> {
    s.filter(|e: EntityRecord| !spec_in_group(e, group))
}

/// The store after the grouped-despawn handler reacts to one trigger event:
/// when the trigger entity carries a despawner, every entity sharing its
/// group id is despawned together, the trigger itself included when so
/// tagged.
pub open spec fn spec_despawn_reaction(s: Seq<EntityRecord>, trigger: u64) -> Seq<EntityRecord> {
    let ti = spec_find_at(s, trigger);
    if ti >= 0 {
        match s[ti].despawner {
            Some(d) => spec_retain_group(s, d.0),
            None => s,
        }
    } else {
        s
    }
}

/// Grouped-despawn handler: if the trigger entity carries a despawner,
/// despawn every entity in the world sharing that group id, by a linear scan
/// over the store. Despawning an already-gone entity is a no-op, not an
/// error.
pub fn trigger_react_despawn(world: &mut World, ev: &OnTriggerEvent)
    ensures
        final(world).entities@ == spec_despawn_reaction(old(world).entities@, ev.trigger),
{
    let despawner = match world.find_index(ev.trigger) {
        Some(ti) => world.entities[ti].despawner,
        None => None,
    };
    match despawner {
        Some(d) => {
            let ghost s = world.entities@;
            let group: u64 = d.0;
            let mut kept: Vec<EntityRecord> = Vec::new();
            let n: usize = world.entities.len();
            let mut i: usize = 0;
            while i < n
                invariant
                    i <= n,
                    n == s.len(),
                    s == world.entities@,
                    kept@ == spec_retain_group(s.take(i as int), group),
                decreases n - i,
            {
                let e = world.entities[i];
                let keep = match e.despawn_id {
                    Some(did) => did.0 != group,
                    None => true,
                };
                if keep {
                    kept.push(e);
                }
                proof {
                    broadcast use vstd::prelude::Seq::lemma_filter_push;

                    assert(s.take(i as int + 1) =~= s.take(i as int).push(s[i as int]));
                }
                i = i + 1;
            }
            proof {
                assert(s.take(n as int) =~= s);
            }
            world.entities = kept;
        },
        None => {},
    }
}

proof fn lemma_retain_from(s: Seq<EntityRecord>, group: u64)
    ensures
        forall|i: int|
            0 <= i < spec_retain_group(s, group).len() ==> s.contains(
                #[trigger] spec_retain_group(s, group)[i],
            ),
    decreases s.len(),
{
    reveal(Seq::filter);
    let r = spec_retain_group(s, group);
    if s.len() > 0 {
        let t = s.drop_last();
        lemma_retain_from(t, group);
        let rt = spec_retain_group(t, group);
        assert forall|i: int| 0 <= i < r.len() implies s.contains(r[i]) by {
            if i < rt.len() {
                assert(r[i] == rt[i]);
                assert(t.contains(rt[i]));
                let j = choose|j: int| 0 <= j < t.len() && t[j] == rt[i];
                assert(s[j] == r[i]);
            } else {
                assert(r[i] == s.last());
                assert(s[s.len() - 1] == s.last());
            }
        }
    }
}

proof fn lemma_retain_idempotent(s: Seq<EntityRecord>, group: u64)
    ensures
        spec_retain_group(spec_retain_group(s, group), group) == spec_retain_group(s, group),
    decreases s.len(),
{
    broadcast use vstd::prelude::Seq::lemma_filter_push;

    reveal(Seq::filter);
    if s.len() > 0 {
        let t = s.drop_last();
        lemma_retain_idempotent(t, group);
        assert(s =~= t.push(s.last()));
    }
}

/// Idempotence of grouped despawn, on the group itself: clearing a despawn
/// group from a store that it was already cleared from changes nothing.
pub proof fn lemma_retain_group_idempotent(s: Seq<EntityRecord>, group: u64)
    ensures
        spec_retain_group(spec_retain_group(s, group), group) == spec_retain_group(s, group),
{
    lemma_retain_idempotent(s, group);
}

/// Idempotence of despawn: reacting twice in succession to the same trigger
/// event produces the same store as reacting once — the second reaction is a
/// no-op, whether the first one despawned the trigger entity itself or left
/// it standing.
pub proof fn lemma_despawn_idempotent(s: Seq<EntityRecord>, trigger: u64)
    requires
        spec_ids_unique(s),
    ensures
        spec_despawn_reaction(spec_despawn_reaction(s, trigger), trigger) == spec_despawn_reaction(
            s,
            trigger,
        ),
{
    broadcast use vstd::seq_lib::group_filter_ensures;

    let ti = spec_find_at(s, trigger);
    lemma_find_at_props(s, trigger);
    if ti >= 0 {
        match s[ti].despawner {
            Some(d) => {
                let g = d.0;
                let sp = spec_retain_group(s, g);
                lemma_retain_from(s, g);
                let ti2 = spec_find_at(sp, trigger);
                lemma_find_at_props(sp, trigger);
                if !spec_in_group(s[ti], g) {
                    // The trigger entity survives its own reaction.
                    assert(sp.contains(s[ti]));
                    let j = choose|j: int| 0 <= j < sp.len() && sp[j] == s[ti];
                    assert(sp[j].id == trigger);
                    assert(ti2 >= 0);
                    assert(s.contains(sp[ti2]));
                    let k = choose|k: int| 0 <= k < s.len() && s[k] == sp[ti2];
                    assert(s[k].id == trigger);
                    if k != ti {
                        assert(s[k].id != s[ti].id);
                    }
                    assert(sp[ti2] == s[ti]);
                    lemma_retain_idempotent(s, g);
                } else {
                    // The trigger entity despawned itself with its group.
                    if ti2 >= 0 {
                        assert(s.contains(sp[ti2]));
                        let k = choose|k: int| 0 <= k < s.len() && s[k] == sp[ti2];
                        assert(s[k].id == trigger);
                        if k != ti {
                            assert(s[k].id != s[ti].id);
                        }
                        assert(sp[ti2] == s[ti]);
                        assert(!spec_in_group(sp[ti2], g));
                    }
                }
            },
            None => {},
        }
    }
}

/// The trigger entity carries the game-over tag.
pub open spec fn spec_game_over_requested(s: Seq<EntityRecord>, trigger: u64) -> bool {
    let at = spec_find_at(s, trigger);
    at >= 0 && s[at].game_over is Some
}

/// Game-state handler: if the trigger entity carries the game-over tag,
/// request a transition back to the loading screen; the request is
/// fire-and-forget for the host loop to resolve.
pub fn trigger_game_over(world: &World, ev: &OnTriggerEvent) -> (r: Option<Screen>)
    ensures
        r == (if spec_game_over_requested(world.entities@, ev.trigger) {
            Some(Screen::Loading)
        } else {
            None::<Screen>
        }),
{
    match world.find_index(ev.trigger) {
        Some(ti) => {
            if world.entities[ti].game_over.is_some() {
                Some(Screen::Loading)
            } else {
                None
            }
        },
        None => None,
    }
}

} // verus!
