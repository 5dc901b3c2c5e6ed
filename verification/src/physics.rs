//! The list of entities that the physics of the engine would act on. The
//! engine has no physics as it stands; the list is kept for it.

use vstd::prelude::*;

verus! {

/// The entities under physics and the friction that acts on them.
#[derive(Debug)]
pub struct PhysicsEngine {
    pub game_objects: Vec<i32>,
    pub friction: i32,
}

impl PhysicsEngine {
    pub fn new(friction: i32) -> (r: Self)
        ensures
            r.game_objects@ == Seq::<i32>::empty(),
            r.friction == friction,
    {
        Self { game_objects: Vec::new(), friction }
    }

    /// A step of the physics. There are no forces as the engine stands, so
    /// nothing moves.
    pub fn tick(&mut self, dt: i32)
        ensures
            final(self).game_objects@ == old(self).game_objects@,
            final(self).friction == old(self).friction,
    {
    }

    pub fn add_object(&mut self, obj: i32)
        ensures
            final(self).game_objects@ == old(self).game_objects@.push(obj),
            final(self).friction == old(self).friction,
    {
        self.game_objects.push(obj);
    }
}

} // verus!
