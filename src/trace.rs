//! Decisions of the recursive path tracer.
//!
//! A traced ray is intersected with the scene; on a miss it carries the sky,
//! on a hit its material is consulted while bounces remain, and a scattered
//! ray is traced one bounce deeper. The radiance arithmetic is done by the
//! caller; this module decides which of those steps comes next, and proves
//! that every path ends within the depth bound.
use vstd::prelude::*;

verus! {

/// Number of scattering bounces after which a path contributes no light.
pub const MAX_DEPTH: u16 = 50;

/// What happens to a ray after it has been intersected with the scene.
#[derive(PartialEq, Eq, Structural, Clone, Copy, Debug)]
pub enum Action {
    /// Nothing was struck: the ray carries the sky gradient.
    Sky,
    /// The ray carries no light: it was absorbed or ran out of bounces.
    Black,
    /// A surface was struck and its material is to be asked for a scattered ray.
    Scatter,
}

/// The step that follows an intersection test at bounce `depth`.
pub open spec fn action_of(depth: int, hit: bool) -> Action {
    if !hit {
        Action::Sky
    } else if depth < MAX_DEPTH {
        Action::Scatter
    } else {
        Action::Black
    }
}

/// Decides what follows the intersection test of a ray at bounce `depth`:
/// the sky on a miss, the material while bounces remain, black otherwise.
pub fn after_intersect(depth: u16, hit: bool) -> (r: Action)
    ensures
        r == action_of(depth as int, hit),
{
    if !hit {
        Action::Sky
    } else if depth < MAX_DEPTH {
        Action::Scatter
    } else {
        Action::Black
    }
}

/// Decides what follows the material's answer at bounce `depth`: the depth
/// of the scattered ray, or `None` when the ray was absorbed and is black.
pub fn after_scatter(depth: u16, scattered: bool) -> (r: Option<u16>)
    requires
        depth < MAX_DEPTH,
    ensures
        scattered ==> r == Some((depth + 1) as u16),
        !scattered ==> r is None,
{
    if scattered {
        Some(depth + 1)
    } else {
        None
    }
}

/// How a path that starts at bounce `depth` ends, in a scene described by
/// `hit(d)` (the ray of bounce `d` strikes a surface) and `scatters(d)` (that
/// surface's material scatters it): the number of scattering bounces taken,
/// and the final step, `Sky` or `Black`.
pub open spec fn path_end(
    depth: int,
    hit: spec_fn(int) -> bool,
    scatters: spec_fn(int) -> bool,
) -> (int, Action)
    decreases MAX_DEPTH - depth,
{
    if action_of(depth, hit(depth)) == Action::Scatter && scatters(depth) && depth < MAX_DEPTH {
        let rest = path_end(depth + 1, hit, scatters);
        (rest.0 + 1, rest.1)
    } else if action_of(depth, hit(depth)) == Action::Scatter {
        (0, Action::Black)
    } else {
        (0, action_of(depth, hit(depth)))
    }
}

/// Every path ends, with the sky or with black, after at most as many
/// scattering bounces as remain below the depth bound.
pub proof fn lemma_path_is_bounded(
    depth: int,
    hit: spec_fn(int) -> bool,
    scatters: spec_fn(int) -> bool,
)
    requires
        0 <= depth <= MAX_DEPTH,
    ensures
        0 <= path_end(depth, hit, scatters).0 <= MAX_DEPTH - depth,
        path_end(depth, hit, scatters).1 == Action::Sky || path_end(depth, hit, scatters).1
            == Action::Black,
    decreases MAX_DEPTH - depth,
{
    if action_of(depth, hit(depth)) == Action::Scatter && scatters(depth) && depth < MAX_DEPTH {
        lemma_path_is_bounded(depth + 1, hit, scatters);
    }
}

/// A ray inside a closed cavity whose walls always scatter it bounces exactly
/// up to the depth bound and then carries no light.
pub proof fn lemma_closed_cavity_is_black(
    depth: int,
    hit: spec_fn(int) -> bool,
    scatters: spec_fn(int) -> bool,
)
    requires
        0 <= depth <= MAX_DEPTH,
        forall|d: int| #[trigger] hit(d),
        forall|d: int| #[trigger] scatters(d),
    ensures
        path_end(depth, hit, scatters) == (MAX_DEPTH - depth, Action::Black),
    decreases MAX_DEPTH - depth,
{
    assert(hit(depth));
    assert(scatters(depth));
    if depth < MAX_DEPTH {
        lemma_closed_cavity_is_black(depth + 1, hit, scatters);
    }
}

} // verus!
