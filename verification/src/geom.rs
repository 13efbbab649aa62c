//! Where a ray meets a closed surface.
//!
//! Quantities along a ray are carried as `i64` scalars: integers that stand
//! for real numbers under an encoding that keeps their order and their sign.
//! The arithmetic that produces them is the caller's; this module decides
//! which of them counts as the hit.
use vstd::prelude::*;

verus! {

/// The two parameters at which a ray's line passes through a closed surface
/// such as a sphere: the solutions of its intersection equation, the one
/// found with the negative square root first.
#[derive(Clone, Copy, Debug, PartialEq, Eq, Structural)]
pub struct Roots {
    pub near: i64,
    pub far: i64,
}

/// Whether a surface's intersection equation has real solutions, from its
/// discriminant: a negative one means that the ray's line misses the
/// surface.
pub fn has_roots(discriminant: i64) -> (solvable: bool)
    ensures
        solvable == (discriminant >= 0),
{
    discriminant >= 0
}

/// `t` lies in the closed window from `t_min` to `t_max`.
pub open spec fn within(t: i64, t_min: i64, t_max: i64) -> bool {
    t_min <= t <= t_max
}

impl Roots {
    /// The roots come in ascending order, as they do for every ray whose
    /// direction is not the zero vector.
    pub open spec fn ordered(self) -> bool {
        self.near <= self.far
    }

    /// `t` is one of the two roots.
    pub open spec fn has(self, t: i64) -> bool {
        t == self.near || t == self.far
    }

    /// The root that counts as the hit in a window: the near one when it lies
    /// in the window, else the far one when that does, else none.
    pub open spec fn spec_hit(self, t_min: i64, t_max: i64) -> Option<i64> {
        if within(self.near, t_min, t_max) {
            Some(self.near)
        } else if within(self.far, t_min, t_max) {
            Some(self.far)
        } else {
            None
        }
    }

    /// Picks the hit among the two roots for the window `[t_min, t_max]`.
    pub fn hit(&self, t_min: i64, t_max: i64) -> (t: Option<i64>)
        ensures
            t == self.spec_hit(t_min, t_max),
    {
        let mut root = self.near;
        if root < t_min || t_max < root {
            root = self.far;
            if root < t_min || t_max < root {
                return None;
            }
        }
        Some(root)
    }

    /// A hit is always one of the roots and always lies in the window.
    pub proof fn lemma_hit_in_window(self, t_min: i64, t_max: i64)
        ensures
            self.spec_hit(t_min, t_max) matches Some(t) ==> self.has(t) && within(
                t,
                t_min,
                t_max,
            ),
    {
    }

    /// No false hits: when neither root lies in the window there is no hit,
    /// whatever roots exist outside it; and a hit is refused only then.
    pub proof fn lemma_no_hit_outside_window(self, t_min: i64, t_max: i64)
        ensures
            self.spec_hit(t_min, t_max) is None <==> !within(self.near, t_min, t_max) && !within(
                self.far,
                t_min,
                t_max,
            ),
    {
    }

    /// With ordered roots the hit is the least root in the window.
    pub proof fn lemma_hit_is_least(self, t_min: i64, t_max: i64, other: i64)
        requires
            self.ordered(),
            self.has(other),
            within(other, t_min, t_max),
        ensures
            self.spec_hit(t_min, t_max) matches Some(t) && t <= other,
    {
    }
}

/// The hit of a surface that the ray's line may miss altogether: `None`
/// stands for an intersection equation without real solutions.
pub open spec fn spec_surface_hit(surface: Option<Roots>, t_min: i64, t_max: i64) -> Option<i64> {
    match surface {
        Some(roots) => roots.spec_hit(t_min, t_max),
        None => None,
    }
}

/// Picks the hit of one surface for the window `[t_min, t_max]`.
pub fn surface_hit(surface: &Option<Roots>, t_min: i64, t_max: i64) -> (t: Option<i64>)
    ensures
        t == spec_surface_hit(*surface, t_min, t_max),
{
    match surface {
        Some(roots) => roots.hit(t_min, t_max),
        None => None,
    }
}

} // verus!
