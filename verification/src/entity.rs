//! The handle by which the rendering side refers to a spawned object.

use bevy::ecs::entity::Entity;
use vstd::prelude::*;

verus! {

/// `bevy::ecs::entity::Entity`, an identifier the engine hands out for each spawned object.
/// The library stores and compares such handles and never looks inside one.
#[verifier::external_type_specification]
#[verifier::external_body]
pub struct ExEntity(Entity);

/// Calls `Entity`'s `==`, which compares the two identifiers bit for bit.
/// Trusted: the answer is `true` exactly when both handles are the same value.
#[verifier::external_body]
pub(crate) fn same_entity(a: Entity, b: Entity) -> (same: bool)
    ensures
        same == (a == b),
{
    a == b
}

} // verus!
