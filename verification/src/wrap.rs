//! The boundary wrapper: toroidal wraparound against the world extent.
//!
//! Each planar axis is treated independently: a body whose center passes
//! `+extent/2` plus its radius re-enters at `-extent/2` minus its radius,
//! and the other way round.  A body already inside the (radius-widened)
//! bounds is left untouched, so wrapping an already wrapped store again
//! changes nothing.
use vstd::prelude::*;
use crate::body::{with_position, BodyModel};
use crate::store::BodyStore;
use crate::vec3::{Vec3, V3};

verus! {

/// The mutable world extent: wrap bounds, in fixed-point units.
/// Both sides are strictly positive; the resize interface rejects a
/// degenerate extent before it can reach the wrapper.
#[derive(Clone, Copy, Debug, PartialEq, Eq, Structural)]
pub struct WorldExtent {
    pub width: i64,
    pub height: i64,
}

/// Why an extent was rejected.
#[derive(Clone, Copy, Debug, PartialEq, Eq, Structural)]
pub enum ExtentError {
    /// The width must be strictly positive.
    NonPositiveWidth,
    /// The height must be strictly positive.
    NonPositiveHeight,
}

/// A usable extent: both sides strictly positive.
pub open spec fn extent_wf(e: WorldExtent) -> bool {
    e.width >= 1 && e.height >= 1
}

impl WorldExtent {
    /// Builds an extent, rejecting a zero or negative side.
    pub fn new(width: i64, height: i64) -> (r: Result<WorldExtent, ExtentError>)
        ensures
            width >= 1 && height >= 1 ==> r == Ok::<WorldExtent, ExtentError>(
                WorldExtent { width, height },
            ),
            width < 1 ==> r == Err::<WorldExtent, ExtentError>(ExtentError::NonPositiveWidth),
            width >= 1 && height < 1 ==> r == Err::<WorldExtent, ExtentError>(
                ExtentError::NonPositiveHeight,
            ),
    {
        if width < 1 {
            Err(ExtentError::NonPositiveWidth)
        } else if height < 1 {
            Err(ExtentError::NonPositiveHeight)
        } else {
            Ok(WorldExtent { width, height })
        }
    }
}

/// One axis of the wrap: past `half + r` re-enter at `-(half + r)`, below
/// `-(half + r)` re-enter at `half + r`, otherwise stay.
pub open spec fn wrap_coord(x: int, half: int, r: int) -> int {
    let bound = half + r;
    if x > bound {
        -bound
    } else if x < -bound {
        bound
    } else {
        x
    }
}

/// One body after the wrap stage: both planar axes wrapped independently,
/// radius-aware; `z` is untouched.
pub open spec fn wrap_body(b: BodyModel, w: int, h: int) -> BodyModel {
    with_position(
        b,
        V3 {
            x: wrap_coord(b.position.x, w / 2, b.radius),
            y: wrap_coord(b.position.y, h / 2, b.radius),
            z: b.position.z,
        },
    )
}

/// The wrap pass over the whole store.
pub open spec fn wrap_model(s: Seq<BodyModel>, w: int, h: int) -> Seq<BodyModel> {
    Seq::new(s.len(), |i: int| wrap_body(s[i], w, h))
}

/// Wraps every body's position against the current extent.
pub fn wrap_positions(store: &mut BodyStore, extent: &WorldExtent)
    requires
        extent_wf(*extent),
    ensures
        final(store)@ == wrap_model(old(store)@, extent.width as int, extent.height as int),
{
    let ghost s0: Seq<BodyModel> = store@;
    let ghost w: int = extent.width as int;
    let ghost h: int = extent.height as int;
    let half_w: i64 = ((extent.width as u64) / 2) as i64;
    let half_h: i64 = ((extent.height as u64) / 2) as i64;
    let n: usize = store.bodies.len();
    let mut i: usize = 0;
    while i < n
        invariant
            n == store.bodies.len(),
            n == s0.len(),
            i <= n,
            half_w as int == w / 2,
            half_h as int == h / 2,
            forall|a: int| 0 <= a < i ==> #[trigger] store@[a] == wrap_body(s0[a], w, h),
            forall|a: int| i <= a < n ==> #[trigger] store@[a] == s0[a],
        decreases n - i,
    {
        let ghost pre: Seq<BodyModel> = store@;
        let mut b = store.bodies[i];
        proof {
            assert(b@ == pre[i as int]);
        }
        let bound_x: i128 = (half_w as i128) + (b.radius as i128);
        let bound_y: i128 = (half_h as i128) + (b.radius as i128);
        let mut px: i128 = b.position.x;
        let mut py: i128 = b.position.y;
        if px > bound_x {
            px = -bound_x;
        } else if px < -bound_x {
            px = bound_x;
        }
        if py > bound_y {
            py = -bound_y;
        } else if py < -bound_y {
            py = bound_y;
        }
        b.position = Vec3 { x: px, y: py, z: b.position.z };
        store.bodies[i] = b;
        proof {
            assert(store@[i as int] == b@);
            assert(b@ == wrap_body(s0[i as int], w, h));
            assert(forall|a: int| 0 <= a < n && a != i ==> #[trigger] store@[a] == pre[a]);
        }
        i = i + 1;
    }
}

} // verus!
