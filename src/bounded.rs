use vstd::prelude::*;
use crate::world::{AnyComponent, Entity};

verus! {

#[verifier::external_type_specification]
#[verifier::external_body]
#[verifier::reject_recursive_types(T)]
pub struct ExHeaplessVec<T, const N: usize>(heapless::Vec<T, N>);

/// What a bounded vector of components holds, in order.
pub uninterp spec fn components_of(v: heapless::Vec<AnyComponent, 16>) -> Seq<AnyComponent>;

/// Relies on heapless::Vec::new: a new vector is empty.
#[verifier::external_body]
pub(crate) fn components_new() -> (r: heapless::Vec<AnyComponent, 16>)
    ensures
        components_of(r) == Seq::<AnyComponent>::empty(),
{
    heapless::Vec::new()
}

/// Relies on heapless::Vec::push: the item is appended while fewer than 16 are
/// held; otherwise it is handed back and the vector is left as it was.
#[verifier::external_body]
pub(crate) fn components_push(v: &mut heapless::Vec<AnyComponent, 16>, x: AnyComponent) -> (pushed: bool)
    ensures
        pushed == (components_of(*old(v)).len() < 16),
        pushed ==> components_of(*final(v)) == components_of(*old(v)).push(x),
        !pushed ==> components_of(*final(v)) == components_of(*old(v)),
{
    v.push(x).is_ok()
}

/// Relies on the slice length of heapless::Vec, which never exceeds its capacity.
#[verifier::external_body]
pub(crate) fn components_len(v: &heapless::Vec<AnyComponent, 16>) -> (r: usize)
    ensures
        r == components_of(*v).len(),
        r <= 16,
{
    v.len()
}

/// Relies on indexing the slice of heapless::Vec, in bounds by `requires`.
#[verifier::external_body]
pub(crate) fn components_at(v: &heapless::Vec<AnyComponent, 16>, i: usize) -> (r: &AnyComponent)
    requires
        i < components_of(*v).len(),
    ensures
        *r == components_of(*v)[i as int],
{
    &v[i]
}

/// What a bounded vector of entitys holds, in order.
pub uninterp spec fn entities_of(v: heapless::Vec<Entity, 128>) -> Seq<Entity>;

/// Relies on heapless::Vec::new: a new vector is empty.
#[verifier::external_body]
pub(crate) fn entities_new() -> (r: heapless::Vec<Entity, 128>)
    ensures
        entities_of(r) == Seq::<Entity>::empty(),
{
    heapless::Vec::new()
}

/// Relies on heapless::Vec::push: the item is appended while fewer than 128 are
/// held; otherwise it is handed back and the vector is left as it was.
#[verifier::external_body]
pub(crate) fn entities_push(v: &mut heapless::Vec<Entity, 128>, x: Entity) -> (pushed: bool)
    ensures
        pushed == (entities_of(*old(v)).len() < 128),
        pushed ==> entities_of(*final(v)) == entities_of(*old(v)).push(x),
        !pushed ==> entities_of(*final(v)) == entities_of(*old(v)),
{
    v.push(x).is_ok()
}

/// Relies on the slice length of heapless::Vec, which never exceeds its capacity.
#[verifier::external_body]
pub(crate) fn entities_len(v: &heapless::Vec<Entity, 128>) -> (r: usize)
    ensures
        r == entities_of(*v).len(),
        r <= 128,
{
    v.len()
}

/// Relies on indexing the slice of heapless::Vec, in bounds by `requires`.
#[verifier::external_body]
pub(crate) fn entities_at(v: &heapless::Vec<Entity, 128>, i: usize) -> (r: &Entity)
    requires
        i < entities_of(*v).len(),
    ensures
        *r == entities_of(*v)[i as int],
{
    &v[i]
}

/// What a bounded vector of startup slots holds, in order.
pub uninterp spec fn startup_slots_of(v: heapless::Vec<usize, 4>) -> Seq<usize>;

/// Relies on heapless::Vec::new: a new vector is empty.
#[verifier::external_body]
pub(crate) fn startup_slots_new() -> (r: heapless::Vec<usize, 4>)
    ensures
        startup_slots_of(r) == Seq::<usize>::empty(),
{
    heapless::Vec::new()
}

/// Relies on heapless::Vec::push: the item is appended while fewer than 4 are
/// held; otherwise it is handed back and the vector is left as it was.
#[verifier::external_body]
pub(crate) fn startup_slots_push(v: &mut heapless::Vec<usize, 4>, x: usize) -> (pushed: bool)
    ensures
        pushed == (startup_slots_of(*old(v)).len() < 4),
        pushed ==> startup_slots_of(*final(v)) == startup_slots_of(*old(v)).push(x),
        !pushed ==> startup_slots_of(*final(v)) == startup_slots_of(*old(v)),
{
    v.push(x).is_ok()
}

/// Relies on the slice length of heapless::Vec, which never exceeds its capacity.
#[verifier::external_body]
pub(crate) fn startup_slots_len(v: &heapless::Vec<usize, 4>) -> (r: usize)
    ensures
        r == startup_slots_of(*v).len(),
        r <= 4,
{
    v.len()
}

/// Relies on indexing the slice of heapless::Vec, in bounds by `requires`.
#[verifier::external_body]
pub(crate) fn startup_slots_at(v: &heapless::Vec<usize, 4>, i: usize) -> (r: &usize)
    requires
        i < startup_slots_of(*v).len(),
    ensures
        *r == startup_slots_of(*v)[i as int],
{
    &v[i]
}

/// What a bounded vector of update slots holds, in order.
pub uninterp spec fn update_slots_of(v: heapless::Vec<usize, 16>) -> Seq<usize>;

/// Relies on heapless::Vec::new: a new vector is empty.
#[verifier::external_body]
pub(crate) fn update_slots_new() -> (r: heapless::Vec<usize, 16>)
    ensures
        update_slots_of(r) == Seq::<usize>::empty(),
{
    heapless::Vec::new()
}

/// Relies on heapless::Vec::push: the item is appended while fewer than 16 are
/// held; otherwise it is handed back and the vector is left as it was.
#[verifier::external_body]
pub(crate) fn update_slots_push(v: &mut heapless::Vec<usize, 16>, x: usize) -> (pushed: bool)
    ensures
        pushed == (update_slots_of(*old(v)).len() < 16),
        pushed ==> update_slots_of(*final(v)) == update_slots_of(*old(v)).push(x),
        !pushed ==> update_slots_of(*final(v)) == update_slots_of(*old(v)),
{
    v.push(x).is_ok()
}

/// Relies on the slice length of heapless::Vec, which never exceeds its capacity.
#[verifier::external_body]
pub(crate) fn update_slots_len(v: &heapless::Vec<usize, 16>) -> (r: usize)
    ensures
        r == update_slots_of(*v).len(),
        r <= 16,
{
    v.len()
}

/// Relies on indexing the slice of heapless::Vec, in bounds by `requires`.
#[verifier::external_body]
pub(crate) fn update_slots_at(v: &heapless::Vec<usize, 16>, i: usize) -> (r: &usize)
    requires
        i < update_slots_of(*v).len(),
    ensures
        *r == update_slots_of(*v)[i as int],
{
    &v[i]
}

} // verus!
