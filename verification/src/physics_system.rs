//! A growable collection of point masses.

use crate::physics_object::PhysicsObject;
use vstd::prelude::*;

verus! {

/// A collection of [`PhysicsObject`] members, in insertion order.
#[derive(Debug)]
pub struct PhysicsSystem {
    members: Vec<PhysicsObject>,
}

impl View for PhysicsSystem {
    type V = Seq<PhysicsObject>;

    closed spec fn view(&self) -> Seq<PhysicsObject> {
        self.members@
    }
}

impl PhysicsSystem {
    /// An empty system.
    pub fn new() -> (r: PhysicsSystem)
        ensures
            r@ == Seq::<PhysicsObject>::empty(),
    {
        PhysicsSystem { members: Vec::new() }
    }

    /// Append a member, keeping every earlier one in place.
    pub fn add_member(&mut self, member: PhysicsObject)
        ensures
            final(self)@ == old(self)@.push(member),
    {
        self.members.push(member);
    }

    /// How many members the system holds.
    pub fn len(&self) -> (r: usize)
        ensures
            r == self@.len(),
    {
        self.members.len()
    }
}

} // verus!
