//! The body store: ordered, stable storage of every particle in the run.
use vstd::prelude::*;
use crate::body::{Body, BodyModel};
use crate::vec3::Vec3;

verus! {

/// Why a body was rejected at creation time.
#[derive(Clone, Copy, Debug, PartialEq, Eq, Structural)]
pub enum SpawnError {
    /// Mass must be strictly positive: the tick divides by it.
    NonPositiveMass,
    /// A disc body cannot have a negative radius.
    NegativeRadius,
}

/// Holds every body of the run.  Bodies are created once at setup and the
/// population is closed afterwards: the pipeline mutates them in place and
/// an index handed out by [`BodyStore::spawn`] stays valid for the run.
pub struct BodyStore {
    pub bodies: Vec<Body>,
}

impl View for BodyStore {
    type V = Seq<BodyModel>;

    open spec fn view(&self) -> Seq<BodyModel> {
        self.bodies@.map_values(|b: Body| b@)
    }
}

/// The stored invariant: every mass strictly positive, every radius
/// non-negative.
pub open spec fn store_wf(s: Seq<BodyModel>) -> bool {
    forall|i: int| 0 <= i < s.len() ==> (#[trigger] s[i]).mass >= 1 && s[i].radius >= 0
}

impl BodyStore {
    /// An empty store.
    pub fn new() -> (r: BodyStore)
        ensures
            r@ == Seq::<BodyModel>::empty(),
            store_wf(r@),
    {
        let r = BodyStore { bodies: Vec::new() };
        proof {
            assert(r@ =~= Seq::<BodyModel>::empty());
        }
        r
    }

    /// Creates a body and returns its handle, an index that stays stable
    /// for the body's lifetime.  Rejects a non-positive mass and a negative
    /// radius at creation time, before either can poison a tick.
    pub fn spawn(
        &mut self,
        position: Vec3,
        mass: i64,
        charge: i64,
        radius: i64,
        velocity: Vec3,
        acceleration: Vec3,
    ) -> (r: Result<usize, SpawnError>)
        ensures
            mass >= 1 && radius >= 0 ==> {
                &&& r == Ok::<usize, SpawnError>(old(self)@.len() as usize)
                &&& final(self)@ == old(self)@.push(
                    BodyModel {
                        mass: mass as int,
                        charge: charge as int,
                        radius: radius as int,
                        position: position@,
                        velocity: velocity@,
                        acceleration: acceleration@,
                    },
                )
            },
            mass < 1 ==> r == Err::<usize, SpawnError>(SpawnError::NonPositiveMass)
                && final(self)@ == old(self)@,
            mass >= 1 && radius < 0 ==> r == Err::<usize, SpawnError>(SpawnError::NegativeRadius)
                && final(self)@ == old(self)@,
            store_wf(old(self)@) ==> store_wf(final(self)@),
    {
        if mass < 1 {
            return Err(SpawnError::NonPositiveMass);
        }
        if radius < 0 {
            return Err(SpawnError::NegativeRadius);
        }
        let idx = self.bodies.len();
        let body = Body { mass, charge, radius, position, velocity, acceleration };
        self.bodies.push(body);
        proof {
            assert(self@ =~= old(self)@.push(body@));
        }
        Ok(idx)
    }

    /// The number of bodies in the store.
    pub fn len(&self) -> (r: usize)
        ensures
            r == self@.len(),
    {
        self.bodies.len()
    }

    /// The current state of one body.
    pub fn body(&self, index: usize) -> (r: Body)
        requires
            index < self@.len(),
        ensures
            r@ == self@[index as int],
    {
        self.bodies[index]
    }

    /// The current position of one body, for drawing.
    pub fn position(&self, index: usize) -> (r: Vec3)
        requires
            index < self@.len(),
        ensures
            r@ == self@[index as int].position,
    {
        self.bodies[index].position
    }

    /// The current velocity of one body.
    pub fn velocity(&self, index: usize) -> (r: Vec3)
        requires
            index < self@.len(),
        ensures
            r@ == self@[index as int].velocity,
    {
        self.bodies[index].velocity
    }

    /// The radius of one body, for drawing.
    pub fn radius(&self, index: usize) -> (r: i64)
        requires
            index < self@.len(),
        ensures
            r == self@[index as int].radius,
    {
        self.bodies[index].radius
    }
}

} // verus!
