use vstd::prelude::*;
use crate::world::{AnyComponent, App, Component, Entity, has_tag, kept, COMPONENT_CAPACITY};

verus! {

/// A predicate on entities, decided by the components they hold.
pub trait QueryFilter {
    spec fn spec_matches(&self, e: Entity) -> bool;

    fn matches(&self, e: &Entity) -> (r: bool)
        ensures
            r == self.spec_matches(*e);
}

/// Entities that hold a component of the type with this tag.
#[derive(Clone, Copy, Debug, PartialEq, Eq, Structural)]
pub struct Query {
    pub tag: u32,
}

/// Entities that hold no component of the type with this tag.
#[derive(Clone, Copy, Debug, PartialEq, Eq, Structural)]
pub struct No {
    pub tag: u32,
}

impl Query {
    pub fn new(tag: u32) -> (r: Query)
        ensures
            r.tag == tag,
    {
        Query { tag }
    }

    /// The filter for the component type `C`.
    pub fn of<C: Component>() -> (r: Query)
        ensures
            r.tag == C::spec_type_tag(),
    {
        Query { tag: C::type_tag() }
    }
}

impl No {
    pub fn new(tag: u32) -> (r: No)
        ensures
            r.tag == tag,
    {
        No { tag }
    }

    /// The filter for the component type `C`.
    pub fn of<C: Component>() -> (r: No)
        ensures
            r.tag == C::spec_type_tag(),
    {
        No { tag: C::type_tag() }
    }
}

impl QueryFilter for Query {
    open spec fn spec_matches(&self, e: Entity) -> bool {
        has_tag(e.spec_components(), self.tag)
    }

    fn matches(&self, e: &Entity) -> (r: bool) {
        e.has(self.tag)
    }
}

impl QueryFilter for No {
    open spec fn spec_matches(&self, e: Entity) -> bool {
        !has_tag(e.spec_components(), self.tag)
    }

    fn matches(&self, e: &Entity) -> (r: bool) {
        !e.has(self.tag)
    }
}

/// The entities of `es` that `f` matches, in the order of `es`.
pub open spec fn selected<Q: QueryFilter>(es: Seq<Entity>, f: Q) -> Seq<Entity>
    decreases es.len(),
{
    if es.len() == 0 {
        Seq::empty()
    } else {
        let rest = selected(es.drop_last(), f);
        if f.spec_matches(es.last()) {
            rest.push(es.last())
        } else {
            rest
        }
    }
}

impl App {
    /// The entities that `filter` matches, in store order.
    pub fn query<Q: QueryFilter>(&self, filter: &Q) -> (r: Vec<&Entity>)
        requires
            self.wf(),
        ensures
            r@.len() == selected(self.spec_entities(), *filter).len(),
            forall|i: int| 0 <= i < r@.len() ==> *r@[i] == selected(self.spec_entities(), *filter)[i],
    {
        let ghost es = self.spec_entities();
        let n = self.entity_count();
        let mut r: Vec<&Entity> = Vec::new();
        let mut i: usize = 0;
        while i < n
            invariant
                n == es.len(),
                es == self.spec_entities(),
                i <= n,
                r@.len() == selected(es.take(i as int), *filter).len(),
                forall|j: int| 0 <= j < r@.len() ==> *r@[j] == selected(es.take(i as int), *filter)[j],
            decreases n - i,
        {
            let e = self.entity(i);
            assert(es.take(i as int + 1).drop_last() == es.take(i as int));
            if filter.matches(e) {
                r.push(e);
            }
            i = i + 1;
        }
        assert(es.take(n as int) == es);
        r
    }
}

/// An entity is selected exactly when it is in the store and the filter
/// matches it.
pub proof fn lemma_selected_contains<Q: QueryFilter>(es: Seq<Entity>, f: Q, e: Entity)
    ensures
        selected(es, f).contains(e) <==> (es.contains(e) && f.spec_matches(e)),
    decreases es.len(),
{
    if es.len() > 0 {
        let init = es.drop_last();
        lemma_selected_contains(init, f, e);
        assert(es == init.push(es.last()));
        assert(es.contains(e) <==> (init.contains(e) || e == es.last())) by {
            if es.contains(e) {
                let k = choose|k: int| 0 <= k < es.len() && es[k] == e;
                if k < es.len() - 1 {
                    assert(init[k] == e);
                }
            }
            if init.contains(e) {
                let k = choose|k: int| 0 <= k < init.len() && init[k] == e;
                assert(es[k] == e);
            }
            if e == es.last() {
                assert(es[es.len() - 1] == e);
            }
        }
        let rest = selected(init, f);
        if f.spec_matches(es.last()) {
            assert(rest.push(es.last()).contains(e) <==> (rest.contains(e) || e == es.last())) by {
                if rest.push(es.last()).contains(e) {
                    let k = choose|k: int| 0 <= k < rest.len() + 1 && rest.push(es.last())[k] == e;
                    if k < rest.len() {
                        assert(rest[k] == e);
                    }
                }
                if rest.contains(e) {
                    let k = choose|k: int| 0 <= k < rest.len() && rest[k] == e;
                    assert(rest.push(es.last())[k] == e);
                }
                if e == es.last() {
                    assert(rest.push(es.last())[rest.len() as int] == e);
                }
            }
        }
    }
}

proof fn lemma_split_lengths(es: Seq<Entity>, tag: u32)
    ensures
        selected(es, No { tag }).len() + selected(es, Query { tag }).len() == es.len(),
    decreases es.len(),
{
    if es.len() > 0 {
        lemma_split_lengths(es.drop_last(), tag);
    }
}

/// For every store and tag, the entities that `No` selects are the store's
/// entities less those that `Query` selects: each entity is in exactly one of
/// the two results, and their lengths add up to the store's.
pub proof fn lemma_no_is_complement(es: Seq<Entity>, tag: u32)
    ensures
        selected(es, No { tag }).len() + selected(es, Query { tag }).len() == es.len(),
        forall|e: Entity| #[trigger] selected(es, No { tag }).contains(e)
            <==> (es.contains(e) && !selected(es, Query { tag }).contains(e)),
{
    lemma_split_lengths(es, tag);
    assert forall|e: Entity| #[trigger] selected(es, No { tag }).contains(e)
        <==> (es.contains(e) && !selected(es, Query { tag }).contains(e)) by {
        lemma_selected_contains(es, No { tag }, e);
        lemma_selected_contains(es, Query { tag }, e);
    }
}

/// When more components are offered than an entity holds, a tag that none of
/// the first ones carries is absent from the entity: `Query` never matches it
/// and `No` always does.
pub proof fn lemma_dropped_components_never_match(e: Entity, offered: Seq<AnyComponent>, tag: u32)
    requires
        offered.len() > COMPONENT_CAPACITY,
        e.spec_components() == kept(offered),
        forall|j: int| 0 <= j < COMPONENT_CAPACITY ==> (#[trigger] offered[j]).tag != tag,
    ensures
        !(Query { tag }).spec_matches(e),
        (No { tag }).spec_matches(e),
{
    assert(!has_tag(e.spec_components(), tag)) by {
        if has_tag(e.spec_components(), tag) {
            let i = choose|i: int| 0 <= i < e.spec_components().len() && (#[trigger] e.spec_components()[i]).tag == tag;
            assert(offered[i].tag == tag);
        }
    }
}

} // verus!
