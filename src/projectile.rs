use vstd::prelude::*;

use crate::scalar::Scalar;
use crate::tuple::Tuple;

verus! {

/// The surroundings of a projectile: constant gravity and wind.
pub struct Env<T> {
    pub gravity: Tuple<T>,
    pub wind: Tuple<T>,
}

/// A point moving with a velocity.
pub struct Projectile<T> {
    pub position: Tuple<T>,
    pub velocity: Tuple<T>,
}

/// Advances the projectile by one step: it moves by its velocity, and the
/// velocity then changes by gravity and wind.
pub fn tick<T: Scalar>(env: &Env<T>, proj: &mut Projectile<T>)
    ensures
        final(proj).position == old(proj).position.spec_add(old(proj).velocity),
        final(proj).velocity == old(proj).velocity.spec_add(env.gravity).spec_add(env.wind),
{
    proj.position = proj.position.add(proj.velocity);
    proj.velocity = proj.velocity.add(env.gravity).add(env.wind);
}

} // verus!
