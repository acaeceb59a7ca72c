//! Resource tracking entities: a named, valued resource under a unique
//! identifier.  Not money -- any valued game element and the associations
//! between such elements.

use vstd::prelude::*;

verus! {

#[verifier::external_type_specification]
#[verifier::external_body]
pub struct ExUuid(uuid::Uuid);

/// Relies on `uuid::Uuid::new_v4`: a randomly generated identifier, so
/// nothing is promised of its value.
#[verifier::external_body]
fn fresh_uuid() -> uuid::Uuid {
    uuid::Uuid::new_v4()
}

/// A unique identifier for economic entities.
#[derive(Debug)]
pub struct EntityId(uuid::Uuid);

impl EntityId {
    /// Creates a new random identifier.
    pub fn new() -> EntityId {
        EntityId(fresh_uuid())
    }
}

/// A tracked resource: a name and a quantitative value under a unique id.
#[derive(Debug)]
pub struct EconomicEntity {
    /// Unique identifier for this economic entity
    pub id: EntityId,
    /// Name of the resource
    pub name: String,
    /// Quantitative value associated with this resource
    pub value: i32,
}

} // verus!
