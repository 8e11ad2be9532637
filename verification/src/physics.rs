//! The properties of colliders and how a collision between two of them is
//! resolved.
use vstd::prelude::*;

verus! {

/// The properties of a collider: a static collider is never moved by a
/// collision.
#[derive(Clone, Copy, Debug, PartialEq, Eq, Structural)]
pub struct ColliderProperties {
    is_static: bool,
}

impl ColliderProperties {
    /// Whether the collider is static.
    pub closed spec fn spec_is_static(&self) -> bool {
        self.is_static
    }

    /// Creates the properties of a static collider, or of one that moves.
    pub fn new(is_static: bool) -> (p: Self)
        ensures
            p.spec_is_static() == is_static,
    {
        Self { is_static }
    }

    /// The properties of a collider that moves.
    pub fn default() -> (p: Self)
        ensures
            !p.spec_is_static(),
    {
        Self { is_static: false }
    }

    /// Whether the collider is static.
    pub fn is_static(&self) -> (s: bool)
        ensures
            s == self.spec_is_static(),
    {
        self.is_static
    }
}

/// Which of two colliding objects is pushed out of the other.
#[derive(Clone, Copy, Debug, PartialEq, Eq, Structural)]
pub enum CollisionResponse {
    /// Both are static: the collision is not even looked at.
    Ignore,
    /// The first is static: the second is pushed out, against the depth of the collision.
    MoveSecond,
    /// The second is static: the first is pushed out, along the depth of the collision.
    MoveFirst,
    /// Neither is static: both are pushed, each in proportion to the mass of the other.
    MoveBoth,
}

/// Which of two colliding objects is pushed out of the other, from their properties.
pub open spec fn collision_response_of(first: ColliderProperties, second: ColliderProperties) -> CollisionResponse {
    if first.spec_is_static() && second.spec_is_static() {
        CollisionResponse::Ignore
    } else if first.spec_is_static() {
        CollisionResponse::MoveSecond
    } else if second.spec_is_static() {
        CollisionResponse::MoveFirst
    } else {
        CollisionResponse::MoveBoth
    }
}

/// Which of two colliding objects is pushed out of the other: a static
/// object is never pushed, and two static objects are not even checked.
pub fn collision_response(first: &ColliderProperties, second: &ColliderProperties) -> (r: CollisionResponse)
    ensures
        r == collision_response_of(*first, *second),
{
    if first.is_static && second.is_static {
        CollisionResponse::Ignore
    } else if first.is_static {
        CollisionResponse::MoveSecond
    } else if second.is_static {
        CollisionResponse::MoveFirst
    } else {
        CollisionResponse::MoveBoth
    }
}

/// A static collider is never moved by a collision, whichever side of it it is on.
pub proof fn law_static_never_moves(first: ColliderProperties, second: ColliderProperties)
    ensures
        first.spec_is_static() ==> collision_response_of(first, second) != CollisionResponse::MoveFirst
            && collision_response_of(first, second) != CollisionResponse::MoveBoth,
        second.spec_is_static() ==> collision_response_of(first, second) != CollisionResponse::MoveSecond
            && collision_response_of(first, second) != CollisionResponse::MoveBoth,
{
}

/// Swapping the two colliders swaps which one is moved.
pub proof fn law_response_symmetric(first: ColliderProperties, second: ColliderProperties)
    ensures
        collision_response_of(second, first) == match collision_response_of(first, second) {
            CollisionResponse::MoveFirst => CollisionResponse::MoveSecond,
            CollisionResponse::MoveSecond => CollisionResponse::MoveFirst,
            other => other,
        },
{
}

} // verus!
