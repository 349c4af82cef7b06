//! The control of one light path: what the integrator does with a ray at a
//! given bounce depth, once it knows whether the ray met a surface.

use vstd::prelude::*;

verus! {

/// The depth from which a ray that meets a surface is no longer scattered:
/// such a path contributes no light.
pub const MAX_DEPTH: u32 = 50;

/// The next thing the integrator does for a ray.
#[derive(Clone, Copy, Debug, PartialEq, Eq, Structural)]
pub enum Shade {
    /// The ray escaped every surface: its color is the sky's.
    Sky,
    /// The ray met a surface too deep into the path: its color is black.
    Dark,
    /// Ask the surface's material to scatter the ray; the scattered ray, if
    /// any, is traced at depth `next`.
    Scatter { next: u32 },
}

/// What the integrator does at depth `depth`, given whether the ray hit.
pub open spec fn shade_spec(depth: u32, hit: bool) -> Shade {
    if !hit {
        Shade::Sky
    } else if depth < MAX_DEPTH {
        Shade::Scatter { next: (depth + 1) as u32 }
    } else {
        Shade::Dark
    }
}

/// Decides what follows for a ray traced at depth `depth`.
pub fn shade(depth: u32, hit: bool) -> (r: Shade)
    ensures
        r == shade_spec(depth, hit),
{
    if !hit {
        Shade::Sky
    } else if depth < MAX_DEPTH {
        Shade::Scatter { next: depth + 1 }
    } else {
        Shade::Dark
    }
}

/// A ray that meets a surface at depth `MAX_DEPTH` or more is black, whatever
/// the scene holds.
pub proof fn lemma_deep_hit_is_dark(depth: u32)
    requires
        depth >= MAX_DEPTH,
    ensures
        shade_spec(depth, true) == Shade::Dark,
{
}

/// Scattering goes one level deeper and never past `MAX_DEPTH`, so a path
/// started at depth 0 traces at most `MAX_DEPTH + 1` rays.
pub proof fn lemma_scatter_deepens(depth: u32)
    ensures
        shade_spec(depth, true) matches Shade::Scatter { next } ==> next == depth + 1
            && next <= MAX_DEPTH,
{
}

} // verus!
