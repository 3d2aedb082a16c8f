use vstd::prelude::*;
use crate::bounded::{
    components_of, components_new, components_push, components_len, components_at,
    entities_of, entities_new, entities_push, entities_len, entities_at,
    startup_slots_of, startup_slots_new, startup_slots_push, startup_slots_len, startup_slots_at,
    update_slots_of, update_slots_new, update_slots_push, update_slots_len, update_slots_at,
};

verus! {

/// How many entities a world holds.
pub const ENTITY_CAPACITY: usize = 128;

/// How many components one entity holds.
pub const COMPONENT_CAPACITY: usize = 16;

/// How many systems run at startup.
pub const STARTUP_CAPACITY: usize = 4;

/// How many systems run on every update.
pub const UPDATE_CAPACITY: usize = 16;

/// The phase a system is registered for.
#[derive(Clone, Copy, Debug, PartialEq, Eq, Structural)]
pub enum Moment {
    Startup,
    Update,
}

/// A type that can be attached to an entity. Each such type answers with a
/// tag of its own, which is how a stored component tells its type; two types
/// that share a tag match each other's queries, so each type needs a distinct
/// one.
pub trait Component {
    spec fn spec_type_tag() -> u32;

    fn type_tag() -> (r: u32)
        ensures
            r == Self::spec_type_tag();
}

/// A component with its type erased: the tag of its type and an opaque payload.
#[derive(Clone, Copy, Debug, PartialEq, Eq, Structural)]
pub struct AnyComponent {
    pub tag: u32,
    pub payload: u64,
}

impl AnyComponent {
    pub fn new(tag: u32, payload: u64) -> (r: AnyComponent)
        ensures
            r.tag == tag,
            r.payload == payload,
    {
        AnyComponent { tag, payload }
    }

    /// Erases a value of type `C`, keeping the payload.
    pub fn of<C: Component>(payload: u64) -> (r: AnyComponent)
        ensures
            r.tag == C::spec_type_tag(),
            r.payload == payload,
    {
        AnyComponent { tag: C::type_tag(), payload }
    }

    /// Whether this component is of the type with tag `tag`.
    pub fn is(&self, tag: u32) -> (r: bool)
        ensures
            r == (self.tag == tag),
    {
        self.tag == tag
    }
}

/// Whether some component of `cs` has the tag `tag`.
pub open spec fn has_tag(cs: Seq<AnyComponent>, tag: u32) -> bool {
    exists|i: int| 0 <= i < cs.len() && (#[trigger] cs[i]).tag == tag
}

/// The components that an entity keeps of those offered: the first ones, up to
/// its capacity.
pub open spec fn kept(offered: Seq<AnyComponent>) -> Seq<AnyComponent> {
    if offered.len() <= COMPONENT_CAPACITY {
        offered
    } else {
        offered.take(COMPONENT_CAPACITY as int)
    }
}

pub struct Entity {
    id: u32,
    components: heapless::Vec<AnyComponent, 16>,
}

impl Entity {
    pub closed spec fn spec_id(&self) -> nat {
        self.id as nat
    }

    pub closed spec fn spec_components(&self) -> Seq<AnyComponent> {
        components_of(self.components)
    }

    pub fn id(&self) -> (r: u32)
        ensures
            r == self.spec_id(),
    {
        self.id
    }

    pub fn component_count(&self) -> (r: usize)
        ensures
            r == self.spec_components().len(),
            r <= COMPONENT_CAPACITY,
    {
        components_len(&self.components)
    }

    pub fn component(&self, i: usize) -> (r: &AnyComponent)
        requires
            i < self.spec_components().len(),
        ensures
            *r == self.spec_components()[i as int],
    {
        components_at(&self.components, i)
    }

    /// Whether one of the entity's components has the tag `tag`.
    pub fn has(&self, tag: u32) -> (r: bool)
        ensures
            r == has_tag(self.spec_components(), tag),
    {
        let n = components_len(&self.components);
        let mut i: usize = 0;
        while i < n
            invariant
                n == self.spec_components().len(),
                i <= n,
                forall|j: int| 0 <= j < i ==> (#[trigger] self.spec_components()[j]).tag != tag,
            decreases n - i,
        {
            if components_at(&self.components, i).is(tag) {
                return true;
            }
            i = i + 1;
        }
        false
    }
}

/// The world: a bounded store of entities and the systems registered for each
/// phase. Systems are named by the handle their owner gave them.
pub struct App {
    entities: heapless::Vec<Entity, 128>,
    count: u32,
    startup_systems: heapless::Vec<usize, 4>,
    update_systems: heapless::Vec<usize, 16>,
}

impl App {
    pub closed spec fn spec_entities(&self) -> Seq<Entity> {
        entities_of(self.entities)
    }

    pub closed spec fn spec_startup(&self) -> Seq<usize> {
        startup_slots_of(self.startup_systems)
    }

    pub closed spec fn spec_update(&self) -> Seq<usize> {
        update_slots_of(self.update_systems)
    }

    /// Entities are numbered from 1 in the order they were stored, and no
    /// store is over its capacity.
    pub closed spec fn wf(&self) -> bool {
        &&& self.count as int == self.spec_entities().len()
        &&& self.spec_entities().len() <= ENTITY_CAPACITY
        &&& self.spec_startup().len() <= STARTUP_CAPACITY
        &&& self.spec_update().len() <= UPDATE_CAPACITY
        &&& forall|i: int| 0 <= i < self.spec_entities().len()
            ==> (#[trigger] self.spec_entities()[i]).spec_id() == i + 1
        &&& forall|i: int| 0 <= i < self.spec_entities().len()
            ==> (#[trigger] self.spec_entities()[i]).spec_components().len() <= COMPONENT_CAPACITY
    }

    /// In every well-formed world the store is within its capacity and the
    /// entities carry the ids 1, 2, ... in store order. `new` makes such a
    /// world and `spawn` keeps it one, appending a single entity while there
    /// is room.
    pub proof fn lemma_ids_follow_spawn_order(&self)
        requires
            self.wf(),
        ensures
            self.spec_entities().len() <= ENTITY_CAPACITY,
            forall|i: int| 0 <= i < self.spec_entities().len()
                ==> (#[trigger] self.spec_entities()[i]).spec_id() == i + 1,
    {
    }

    pub fn new() -> (r: App)
        ensures
            r.wf(),
            r.spec_entities().len() == 0,
            r.spec_startup().len() == 0,
            r.spec_update().len() == 0,
    {
        App {
            entities: entities_new(),
            count: 0,
            startup_systems: startup_slots_new(),
            update_systems: update_slots_new(),
        }
    }

    /// Spawns an entity with the first components offered, up to the
    /// per-entity capacity. At capacity the world is left as it is.
    pub fn spawn(&mut self, components: &[AnyComponent])
        requires
            old(self).wf(),
        ensures
            final(self).wf(),
            final(self).spec_startup() == old(self).spec_startup(),
            final(self).spec_update() == old(self).spec_update(),
            old(self).spec_entities().len() < ENTITY_CAPACITY ==> {
                &&& final(self).spec_entities().len() == old(self).spec_entities().len() + 1
                &&& final(self).spec_entities().take(old(self).spec_entities().len() as int)
                    == old(self).spec_entities()
                &&& final(self).spec_entities().last().spec_id()
                    == old(self).spec_entities().len() + 1
                &&& final(self).spec_entities().last().spec_components() == kept(components@)
            },
            old(self).spec_entities().len() >= ENTITY_CAPACITY ==> final(self).spec_entities()
                == old(self).spec_entities(),
    {
        let mut taken = components_new();
        let n = components.len();
        let mut i: usize = 0;
        while i < n && i < COMPONENT_CAPACITY
            invariant
                n == components@.len(),
                i <= n,
                i <= COMPONENT_CAPACITY,
                components_of(taken) == components@.take(i as int),
            decreases n - i,
        {
            let pushed = components_push(&mut taken, components[i]);
            assert(components@.take(i as int + 1) == components@.take(i as int).push(components@[i as int]));
            i = i + 1;
        }
        assert(components_of(taken) == kept(components@));
        if entities_len(&self.entities) < ENTITY_CAPACITY {
            let entity = Entity { id: self.count + 1, components: taken };
            let ghost before = self.spec_entities();
            let pushed = entities_push(&mut self.entities, entity);
            self.count = self.count + 1;
            assert(self.spec_entities().take(before.len() as int) == before);
        }
    }

    pub fn entity_count(&self) -> (r: usize)
        requires
            self.wf(),
        ensures
            r == self.spec_entities().len(),
    {
        entities_len(&self.entities)
    }

    pub fn entity(&self, i: usize) -> (r: &Entity)
        requires
            i < self.spec_entities().len(),
        ensures
            *r == self.spec_entities()[i as int],
    {
        entities_at(&self.entities, i)
    }

    pub fn startup_count(&self) -> (r: usize)
        ensures
            r == self.spec_startup().len(),
    {
        startup_slots_len(&self.startup_systems)
    }

    pub fn startup_system(&self, i: usize) -> (r: usize)
        requires
            i < self.spec_startup().len(),
        ensures
            r == self.spec_startup()[i as int],
    {
        *startup_slots_at(&self.startup_systems, i)
    }

    pub fn update_count(&self) -> (r: usize)
        ensures
            r == self.spec_update().len(),
    {
        update_slots_len(&self.update_systems)
    }

    pub fn update_system(&self, i: usize) -> (r: usize)
        requires
            i < self.spec_update().len(),
        ensures
            r == self.spec_update()[i as int],
    {
        *update_slots_at(&self.update_systems, i)
    }

    /// Registers a system for `moment`; past the phase's capacity it is dropped.
    pub fn add_system(&mut self, moment: Moment, system: usize)
        requires
            old(self).wf(),
        ensures
            final(self).wf(),
            final(self).spec_entities() == old(self).spec_entities(),
            moment == Moment::Startup ==> {
                &&& final(self).spec_update() == old(self).spec_update()
                &&& old(self).spec_startup().len() < STARTUP_CAPACITY ==> final(self).spec_startup()
                    == old(self).spec_startup().push(system)
                &&& old(self).spec_startup().len() >= STARTUP_CAPACITY ==> final(self).spec_startup()
                    == old(self).spec_startup()
            },
            moment == Moment::Update ==> {
                &&& final(self).spec_startup() == old(self).spec_startup()
                &&& old(self).spec_update().len() < UPDATE_CAPACITY ==> final(self).spec_update()
                    == old(self).spec_update().push(system)
                &&& old(self).spec_update().len() >= UPDATE_CAPACITY ==> final(self).spec_update()
                    == old(self).spec_update()
            },
    {
        match moment {
            Moment::Startup => {
                let _ = startup_slots_push(&mut self.startup_systems, system);
            },
            Moment::Update => {
                let _ = update_slots_push(&mut self.update_systems, system);
            },
        }
    }
}

impl Default for App {
    fn default() -> (r: App)
        ensures
            r.wf(),
            r.spec_entities().len() == 0,
            r.spec_startup().len() == 0,
            r.spec_update().len() == 0,
    {
        App::new()
    }
}

} // verus!
