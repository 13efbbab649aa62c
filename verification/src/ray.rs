//! Hit records, the nearest-hit search over a scene, and the rule by which
//! the integrator follows a ray from bounce to bounce.
use crate::geom::spec_surface_hit;
use crate::geom::surface_hit;
use crate::geom::within;
use crate::geom::Roots;
use vstd::prelude::*;

verus! {

/// Which side of a surface a ray meets.
#[derive(Clone, Copy, Debug, PartialEq, Eq, Structural)]
pub enum NormalFace {
    /// The ray arrives from outside; the record keeps the outward normal.
    FrontOuter,
    /// The ray arrives from inside; the record keeps the outward normal negated.
    BackInner,
}

impl NormalFace {
    /// The face for `dot`, the dot product of the ray's direction with the
    /// surface's outward normal: front when they oppose each other.
    pub open spec fn spec_facing(dot: i64) -> NormalFace {
        if dot < 0 {
            NormalFace::FrontOuter
        } else {
            NormalFace::BackInner
        }
    }

    /// Decides the face from the dot product of direction and outward normal.
    pub fn facing(dot: i64) -> (face: NormalFace)
        ensures
            face == Self::spec_facing(dot),
    {
        if dot < 0 {
            NormalFace::FrontOuter
        } else {
            NormalFace::BackInner
        }
    }

    /// The recorded normal is the outward normal negated.
    pub open spec fn spec_flips(self) -> bool {
        self == NormalFace::BackInner
    }

    /// Whether the recorded normal is the outward normal negated.
    pub fn flips(&self) -> (flipped: bool)
        ensures
            flipped == self.spec_flips(),
    {
        match self {
            NormalFace::FrontOuter => false,
            NormalFace::BackInner => true,
        }
    }

    /// The dot product of the ray's direction with the recorded normal, given
    /// its dot product with the outward normal.
    pub open spec fn oriented_dot(self, dot: int) -> int {
        if self.spec_flips() {
            -dot
        } else {
            dot
        }
    }

    /// The recorded normal never points along the ray: its dot product with
    /// the ray's direction is at most zero, whatever the outward normal was.
    pub proof fn lemma_normal_faces_ray(dot: i64)
        ensures
            Self::spec_facing(dot).oriented_dot(dot as int) <= 0,
    {
    }
}

/// What the integrator reads of an intersection: the ray parameter, the face
/// that was met, and the place in the scene of the surface that was hit, by
/// which the caller finds its geometry and material again.
#[derive(Clone, Copy, Debug, PartialEq, Eq, Structural)]
pub struct HitRecord {
    pub t: i64,
    pub normal_face: NormalFace,
    pub surface: usize,
}

impl HitRecord {
    /// A record whose normal is taken to be the outward one.
    pub fn new(t: i64, surface: usize) -> (record: Self)
        ensures
            record == (HitRecord { t, normal_face: NormalFace::FrontOuter, surface }),
    {
        HitRecord { t, normal_face: NormalFace::FrontOuter, surface }
    }

    /// A record oriented against a ray, from `dot`, the dot product of the
    /// ray's direction with the outward normal at the hit.
    pub fn from_ray(dot: i64, t: i64, surface: usize) -> (record: Self)
        ensures
            record == (HitRecord { t, normal_face: NormalFace::spec_facing(dot), surface }),
    {
        let mut record = Self::new(t, surface);
        record.set_face_normal(dot);
        record
    }

    /// Orients the record against a ray, from `dot`, the dot product of the
    /// ray's direction with the outward normal at the hit.
    pub fn set_face_normal(&mut self, dot: i64)
        ensures
            *final(self) == (HitRecord {
                normal_face: NormalFace::spec_facing(dot),
                ..*old(self)
            }),
    {
        self.normal_face = NormalFace::facing(dot);
    }
}

/// The nearest hit of a scene: a linear scan that starts with the caller's
/// upper bound and tightens it to the parameter of each hit it accepts, so
/// that a later surface wins only by being at least as near. The result is
/// the place of the winning surface and the parameter of its hit.
pub open spec fn nearest(surfaces: Seq<Option<Roots>>, t_min: i64, t_max: i64) -> Option<
    (int, i64),
>
    decreases surfaces.len(),
{
    if surfaces.len() == 0 {
        None
    } else {
        let earlier = nearest(surfaces.drop_last(), t_min, t_max);
        match spec_surface_hit(surfaces.last(), t_min, closest(earlier, t_max)) {
            Some(t) => Some((surfaces.len() - 1, t)),
            None => earlier,
        }
    }
}

/// The upper bound that a scan works with after it has found `best`.
pub open spec fn closest(best: Option<(int, i64)>, t_max: i64) -> i64 {
    match best {
        Some((_, t)) => t,
        None => t_max,
    }
}

/// Every surface's roots come in ascending order.
pub open spec fn all_ordered(surfaces: Seq<Option<Roots>>) -> bool {
    forall|i: int|
        0 <= i < surfaces.len() ==> (#[trigger] surfaces[i] matches Some(roots)
            ==> roots.ordered())
}

/// `t` is a root of the surface at place `i` and lies in the window.
pub open spec fn crosses_at(
    surfaces: Seq<Option<Roots>>,
    i: int,
    t: i64,
    t_min: i64,
    t_max: i64,
) -> bool {
    &&& 0 <= i < surfaces.len()
    &&& surfaces[i] matches Some(roots)
    &&& roots.has(t)
    &&& within(t, t_min, t_max)
}

/// The nearest hit is a root of the surface it names and lies in the
/// caller's window.
pub proof fn lemma_nearest_in_window(surfaces: Seq<Option<Roots>>, t_min: i64, t_max: i64)
    ensures
        nearest(surfaces, t_min, t_max) matches Some((i, t)) ==> crosses_at(
            surfaces,
            i,
            t,
            t_min,
            t_max,
        ),
    decreases surfaces.len(),
{
    if surfaces.len() > 0 {
        lemma_nearest_in_window(surfaces.drop_last(), t_min, t_max);
    }
}

/// The search finds nothing exactly when no surface has a root in the window.
pub proof fn lemma_nearest_none(surfaces: Seq<Option<Roots>>, t_min: i64, t_max: i64)
    ensures
        nearest(surfaces, t_min, t_max) is None <==> forall|i: int, t: i64|
            !crosses_at(surfaces, i, t, t_min, t_max),
    decreases surfaces.len(),
{
    if surfaces.len() > 0 {
        let front = surfaces.drop_last();
        let last = surfaces.len() - 1;
        lemma_nearest_none(front, t_min, t_max);
        lemma_nearest_in_window(surfaces, t_min, t_max);
        if nearest(surfaces, t_min, t_max) is None {
            assert forall|i: int, t: i64| !crosses_at(surfaces, i, t, t_min, t_max) by {
                if i < last {
                    assert(crosses_at(surfaces, i, t, t_min, t_max) == crosses_at(
                        front,
                        i,
                        t,
                        t_min,
                        t_max,
                    ));
                }
            }
        }
    }
}

/// Nearest-hit selection: with ordered roots no surface has a root in the
/// window below the hit that the search returns, and a surface placed after
/// the winner has none at or below it.
pub proof fn lemma_nearest_is_minimum(
    surfaces: Seq<Option<Roots>>,
    t_min: i64,
    t_max: i64,
    j: int,
    root: i64,
)
    requires
        all_ordered(surfaces),
        crosses_at(surfaces, j, root, t_min, t_max),
    ensures
        nearest(surfaces, t_min, t_max) matches Some((i, t)) && t <= root && (i < j ==> t < root),
    decreases surfaces.len(),
{
    let front = surfaces.drop_last();
    let last = surfaces.len() - 1;
    assert(all_ordered(front)) by {
        assert forall|i: int| 0 <= i < front.len() implies (#[trigger] front[i] matches Some(roots)
            ==> roots.ordered()) by {
            assert(front[i] == surfaces[i]);
        }
    }
    if j < last {
        lemma_nearest_is_minimum(front, t_min, t_max, j, root);
    } else {
        lemma_nearest_in_window(front, t_min, t_max);
    }
}

/// Nearest-hit selection does not depend on insertion order: two scenes made
/// of the same surfaces, with ordered roots, give a hit at the same
/// parameter, or both give none.
pub proof fn lemma_nearest_order_independent(
    first: Seq<Option<Roots>>,
    second: Seq<Option<Roots>>,
    t_min: i64,
    t_max: i64,
)
    requires
        first.to_multiset() == second.to_multiset(),
        all_ordered(first),
    ensures
        closest_hit(first, t_min, t_max) == closest_hit(second, t_min, t_max),
{
    assert(all_ordered(second)) by {
        assert forall|i: int| 0 <= i < second.len() implies (#[trigger] second[i] matches Some(
            roots,
        ) ==> roots.ordered()) by {
            let k = lemma_same_surfaces(second, first, i);
            assert(first[k] == second[i]);
        }
    }
    lemma_nearest_not_above(first, second, t_min, t_max);
    lemma_nearest_not_above(second, first, t_min, t_max);
}

/// The parameter of the nearest hit, without the place of the surface.
pub open spec fn closest_hit(surfaces: Seq<Option<Roots>>, t_min: i64, t_max: i64) -> Option<
    i64,
> {
    match nearest(surfaces, t_min, t_max) {
        Some((_, t)) => Some(t),
        None => None,
    }
}

proof fn lemma_same_surfaces(a: Seq<Option<Roots>>, b: Seq<Option<Roots>>, i: int) -> (k: int)
    requires
        a.to_multiset() == b.to_multiset(),
        0 <= i < a.len(),
    ensures
        0 <= k < b.len(),
        b[k] == a[i],
{
    a.to_multiset_ensures();
    b.to_multiset_ensures();
    assert(a.contains(a[i]));
    assert(b.to_multiset().count(a[i]) > 0);
    assert(b.contains(a[i]));
    choose|k: int| 0 <= k < b.len() && b[k] == a[i]
}

proof fn lemma_nearest_not_above(
    a: Seq<Option<Roots>>,
    b: Seq<Option<Roots>>,
    t_min: i64,
    t_max: i64,
)
    requires
        a.to_multiset() == b.to_multiset(),
        all_ordered(b),
    ensures
        nearest(a, t_min, t_max) matches Some((_, t)) ==> (nearest(b, t_min, t_max) matches Some(
            (_, u),
        ) && u <= t),
{
    lemma_nearest_in_window(a, t_min, t_max);
    if let Some((i, t)) = nearest(a, t_min, t_max) {
        let k = lemma_same_surfaces(a, b, i);
        lemma_nearest_is_minimum(b, t_min, t_max, k, t);
    }
}

/// A scene as one ray meets it: for each surface, in scene order, the roots
/// of its intersection equation along the ray, or `None` where the equation
/// has no real solution.
#[derive(Clone, Debug)]
pub struct HitList(pub Vec<Option<Roots>>);

impl Default for HitList {
    fn default() -> (list: Self)
        ensures
            list.0@ == Seq::<Option<Roots>>::empty(),
    {
        HitList::new()
    }
}

impl HitList {
    /// A scene without surfaces.
    pub fn new() -> (list: Self)
        ensures
            list.0@ == Seq::<Option<Roots>>::empty(),
    {
        HitList(Vec::new())
    }

    /// The nearest hit of the scene in the window `[t_min, t_max]`, as a
    /// record whose face is still to be set, or `None` where no surface has
    /// a hit in the window.
    pub fn hit(&self, t_min: i64, t_max: i64) -> (found: Option<HitRecord>)
        ensures
            match found {
                Some(record) => nearest(self.0@, t_min, t_max) == Some(
                    (record.surface as int, record.t),
                ) && record.normal_face == NormalFace::FrontOuter,
                None => nearest(self.0@, t_min, t_max) is None,
            },
    {
        let mut closest_so_far = t_max;
        let mut found: Option<HitRecord> = None;
        let ghost mut best: Option<(int, i64)> = None;
        let mut i: usize = 0;
        proof {
            assert(self.0@.take(0) =~= Seq::<Option<Roots>>::empty());
        }
        while i < self.0.len()
            invariant
                0 <= i <= self.0@.len(),
                best == nearest(self.0@.take(i as int), t_min, t_max),
                closest_so_far == closest(best, t_max),
                match found {
                    Some(record) => best == Some((record.surface as int, record.t))
                        && record.normal_face == NormalFace::FrontOuter,
                    None => best is None,
                },
            decreases self.0@.len() - i,
        {
            proof {
                assert(self.0@.take(i + 1).drop_last() =~= self.0@.take(i as int));
            }
            if let Some(t) = surface_hit(&self.0[i], t_min, closest_so_far) {
                closest_so_far = t;
                found = Some(HitRecord::new(t, i));
                proof {
                    best = Some((i as int, t));
                }
            }
            i += 1;
        }
        proof {
            assert(self.0@.take(i as int) =~= self.0@);
        }
        found
    }
}

/// What a ray met in the scene.
#[derive(Clone, Copy, Debug, PartialEq, Eq, Structural)]
pub enum Encounter {
    /// No surface in the window.
    Miss,
    /// A surface whose material swallowed the ray.
    Absorbed,
    /// A surface whose material sent a new ray on.
    Scattered,
}

/// What a ray contributes, as far as one step of the integrator decides it.
#[derive(Clone, Copy, Debug, PartialEq, Eq, Structural)]
pub enum Shade {
    /// Nothing.
    Black,
    /// The background gradient along the ray's direction.
    Sky,
    /// The attenuation of the scatter times the colour of the scattered ray,
    /// traced with the remaining depth.
    Bounce { depth: u32 },
}

/// The integrator's rule for one ray with `depth` bounces left: an exhausted
/// ray is black whatever it met; otherwise a miss shows the sky, an absorbed
/// ray is black and a scattered one goes on with one bounce fewer.
pub open spec fn spec_color(depth: u32, met: Encounter) -> Shade {
    if depth == 0 {
        Shade::Black
    } else {
        match met {
            Encounter::Miss => Shade::Sky,
            Encounter::Absorbed => Shade::Black,
            Encounter::Scattered => Shade::Bounce { depth: (depth - 1) as u32 },
        }
    }
}

/// A ray with no bounces left needs no look at the scene.
pub fn exhausted(depth: u32) -> (done: bool)
    ensures
        done == (depth == 0),
        done ==> forall|met: Encounter| spec_color(depth, met) == Shade::Black,
{
    depth == 0
}

/// Decides what a ray with `depth` bounces left contributes, given what it
/// met in the scene.
pub fn color(depth: u32, met: Encounter) -> (shade: Shade)
    ensures
        shade == spec_color(depth, met),
{
    if depth == 0 {
        return Shade::Black;
    }
    match met {
        Encounter::Miss => Shade::Sky,
        Encounter::Absorbed => Shade::Black,
        Encounter::Scattered => Shade::Bounce { depth: depth - 1 },
    }
}

/// Depth termination: at depth zero the colour is black regardless of what
/// the scene holds.
pub proof fn lemma_depth_zero_is_black(met: Encounter)
    ensures
        spec_color(0, met) == Shade::Black,
{
}

/// The colour that a chain of encounters ends in: the shade of the first
/// step that does not bounce. `path` holds what the successive rays meet; a
/// path that runs out counts as a miss.
pub open spec fn spec_trace(depth: u32, path: Seq<Encounter>) -> Shade
    decreases depth,
{
    let met = if path.len() > 0 {
        path.first()
    } else {
        Encounter::Miss
    };
    match spec_color(depth, met) {
        Shade::Bounce { depth: rest } => spec_trace(rest, path.drop_first()),
        shade => shade,
    }
}

/// The number of rays that are looked up in the scene along a chain of
/// encounters.
pub open spec fn spec_lookups(depth: u32, path: Seq<Encounter>) -> nat
    decreases depth,
{
    if depth == 0 {
        0
    } else {
        let met = if path.len() > 0 {
            path.first()
        } else {
            Encounter::Miss
        };
        match spec_color(depth, met) {
            Shade::Bounce { depth: rest } => 1 + spec_lookups(rest, path.drop_first()),
            _ => 1,
        }
    }
}

/// The recursion is bounded by the depth it starts with: a trace never looks
/// up more rays than that, and it always ends in black or in the sky.
pub proof fn lemma_trace_is_bounded(depth: u32, path: Seq<Encounter>)
    ensures
        spec_lookups(depth, path) <= depth,
        spec_trace(depth, path) == Shade::Black || spec_trace(depth, path) == Shade::Sky,
    decreases depth,
{
    if depth > 0 {
        lemma_trace_is_bounded((depth - 1) as u32, path.drop_first());
    }
}

} // verus!
