use vstd::prelude::*;
use crate::color::Color;
use crate::cube::{entry_of, hit_of, ray_intersect};
use crate::intersect::{Intersect, Target};
use crate::scalar::{Scalar, INFINITY};

verus! {

/// The deepest ray that is still followed. The primary ray has depth 0 and
/// each refraction adds one.
pub const MAX_DEPTH: u32 = 3;

/// The color of a ray that meets nothing.
pub open spec fn sky() -> Color {
    Color { r: 68, g: 142, b: 228 }
}

/// The color of the sky.
#[verifier::when_used_as_spec(sky)]
pub fn sky_color() -> (c: Color)
    ensures
        c == sky(),
{
    Color { r: 68, g: 142, b: 228 }
}

/// What a ray does next.
#[derive(Clone, Copy, Debug, PartialEq, Eq, Structural)]
pub enum Trace {
    /// Nothing more is followed: the ray has the color of the sky.
    Sky { color: Color },
    /// The ray bends where it hits the box `object`, and goes on at `depth`.
    Refract { object: usize, hit: Intersect, depth: u32 },
    /// The box `object` is lit where the ray hits it.
    Shade { object: usize, hit: Intersect },
}

/// Whether `hits[i]` is the nearest hit: it lies ahead of the ray's origin,
/// no hit ahead is nearer, and every hit ahead that comes before it in the
/// sequence is farther.
pub open spec fn is_nearest(hits: Seq<Intersect>, i: int) -> bool {
    &&& 0 <= i < hits.len()
    &&& hits[i].in_reach()
    &&& forall|j: int|
        0 <= j < hits.len() && hits[j].in_reach() ==> hits[i].distance.key()
            <= hits[j].distance.key()
    &&& forall|j: int|
        0 <= j < i && hits[j].in_reach() ==> hits[i].distance.key() < hits[j].distance.key()
}

/// The index of the nearest hit, where there is one.
pub open spec fn nearest_of(hits: Seq<Intersect>) -> Option<int> {
    if exists|i: int| is_nearest(hits, i) {
        Some(choose|i: int| is_nearest(hits, i))
    } else {
        None
    }
}

/// Whether `hits[i]` is the first box in the sequence that stands between a
/// surface and a light at distance `light`: hit at a distance from zero up
/// that is less than `light`.
pub open spec fn is_first_occluder(hits: Seq<Intersect>, light: Scalar, i: int) -> bool {
    &&& 0 <= i < hits.len()
    &&& hits[i].before(light)
    &&& forall|j: int| 0 <= j < i ==> !hits[j].before(light)
}

/// What a ray of the given depth does, when testing it against the boxes
/// of the scene gave `hits`, in scene order.
pub open spec fn trace_of(hits: Seq<Intersect>, depth: u32) -> Trace {
    if depth > MAX_DEPTH {
        Trace::Sky { color: sky() }
    } else {
        match nearest_of(hits) {
            None => Trace::Sky { color: sky() },
            Some(i) => if hits[i].bends() {
                Trace::Refract { object: i as usize, hit: hits[i], depth: (depth + 1) as u32 }
            } else {
                Trace::Shade { object: i as usize, hit: hits[i] }
            },
        }
    }
}

/// What testing the ray against each box gives.
pub open spec fn hits_of(targets: Seq<Target>) -> Seq<Intersect> {
    Seq::new(targets.len(), |k: int| hit_of(targets[k]))
}

/// Whether a ray of this depth is still followed. Beyond it the ray is sky,
/// whatever the scene holds, so no box need be tested.
pub fn within_budget(depth: u32) -> (followed: bool)
    ensures
        followed == (depth <= MAX_DEPTH),
{
    depth <= MAX_DEPTH
}

/// Finds the nearest hit ahead of the ray's origin. Among equally near
/// hits the first one wins.
pub fn nearest(hits: &Vec<Intersect>) -> (found: Option<usize>)
    ensures
        found matches Some(i) ==> is_nearest(hits@, i as int) && nearest_of(hits@) == Some(
            i as int,
        ),
        found is None ==> nearest_of(hits@) is None,
        found is None <==> forall|j: int| 0 <= j < hits.len() ==> !hits[j].in_reach(),
{
    let mut best: Option<usize> = None;
    let mut zbuffer = Scalar::Num(INFINITY);
    let mut k: usize = 0;
    while k < hits.len()
        invariant
            k <= hits.len(),
            zbuffer is Num,
            zbuffer.key() <= INFINITY,
            best is None ==> zbuffer == Scalar::Num(INFINITY) && forall|j: int|
                0 <= j < k ==> !hits[j].in_reach(),
            best matches Some(b) ==> {
                &&& b < k
                &&& hits[b as int].in_reach()
                &&& zbuffer == hits[b as int].distance
                &&& forall|j: int|
                    0 <= j < k && hits[j].in_reach() ==> zbuffer.key() <= hits[j].distance.key()
                &&& forall|j: int|
                    0 <= j < b && hits[j].in_reach() ==> zbuffer.key() < hits[j].distance.key()
            },
        decreases hits.len() - k,
    {
        let hit = hits[k];
        if hit.before(zbuffer) {
            zbuffer = hit.distance;
            best = Some(k);
        }
        k = k + 1;
    }
    proof {
        match best {
            Some(b) => {
                lemma_nearest_is_named(hits@, b as int);
            },
            None => {
                assert forall|i: int| !is_nearest(hits@, i) by {
                    if 0 <= i < hits.len() {
                        assert(!hits[i].in_reach());
                    }
                }
            },
        }
    }
    best
}

/// Tests the ray against every box.
pub fn intersect_all(targets: &Vec<Target>) -> (hits: Vec<Intersect>)
    ensures
        hits@ == hits_of(targets@),
{
    let mut hits: Vec<Intersect> = Vec::new();
    let mut k: usize = 0;
    while k < targets.len()
        invariant
            k <= targets.len(),
            hits@.len() == k,
            forall|j: int| 0 <= j < k ==> hits@[j] == hit_of(targets@[j]),
        decreases targets.len() - k,
    {
        hits.push(ray_intersect(&targets[k]));
        k = k + 1;
    }
    hits
}

/// Finds the box that shadows a surface from a light `light_distance`
/// away: the first one in scene order that the shadow ray hits between the
/// surface and the light, at a distance from zero up that is less than
/// `light_distance`. No box after it is tested, and a box behind the
/// surface casts no shadow.
pub fn cast_shadow(targets: &Vec<Target>, light_distance: Scalar) -> (found: Option<
    (usize, Intersect),
>)
    ensures
        found matches Some((i, hit)) ==> {
            &&& is_first_occluder(hits_of(targets@), light_distance, i as int)
            &&& hit == hit_of(targets@[i as int])
            &&& hit.distance is Num
            &&& 0 <= hit.distance.key()
            &&& hit.distance.lt(light_distance)
        },
        found is None <==> forall|j: int|
            0 <= j < targets.len() ==> !(#[trigger] hit_of(targets@[j])).before(light_distance),
{
    let mut k: usize = 0;
    while k < targets.len()
        invariant
            k <= targets.len(),
            forall|j: int| 0 <= j < k ==> !(#[trigger] hit_of(targets@[j])).before(light_distance),
        decreases targets.len() - k,
    {
        let hit = ray_intersect(&targets[k]);
        if hit.before(light_distance) {
            assert forall|j: int| 0 <= j < k implies !hits_of(targets@)[j].before(
                light_distance,
            ) by {
                assert(hits_of(targets@)[j] == hit_of(targets@[j]));
            }
            return Some((k, hit));
        }
        k = k + 1;
    }
    None
}

/// Decides what a ray does: beyond `MAX_DEPTH` it is sky; else it is tested
/// against every box, and it bends at the nearest one it hits or lights it,
/// as that box's material says, or is sky where it hits none.
pub fn cast_ray(targets: &Vec<Target>, depth: u32) -> (trace: Trace)
    ensures
        trace == trace_of(hits_of(targets@), depth),
{
    if !within_budget(depth) {
        return Trace::Sky { color: sky_color() };
    }
    let hits = intersect_all(targets);
    match nearest(&hits) {
        None => Trace::Sky { color: sky_color() },
        Some(i) => {
            let hit = hits[i];
            if hit.bends() {
                Trace::Refract { object: i, hit, depth: depth + 1 }
            } else {
                Trace::Shade { object: i, hit }
            }
        },
    }
}

/// At most one hit is the nearest.
pub proof fn lemma_nearest_is_unique(hits: Seq<Intersect>, i: int, j: int)
    requires
        is_nearest(hits, i),
        is_nearest(hits, j),
    ensures
        i == j,
{
    if i < j {
        assert(hits[j].distance.key() < hits[i].distance.key());
    } else if j < i {
        assert(hits[i].distance.key() < hits[j].distance.key());
    }
}

/// A hit that is the nearest is the one that `nearest_of` names.
pub proof fn lemma_nearest_is_named(hits: Seq<Intersect>, i: int)
    requires
        is_nearest(hits, i),
    ensures
        nearest_of(hits) == Some(i),
{
    lemma_nearest_is_unique(hits, i, choose|j: int| is_nearest(hits, j));
}

/// Where some box is hit ahead of the ray's origin, one hit is the nearest.
pub proof fn lemma_nearest_exists(hits: Seq<Intersect>, k: int)
    requires
        0 <= k < hits.len(),
        hits[k].in_reach(),
    ensures
        nearest_of(hits) is Some,
        is_nearest(hits, nearest_of(hits).unwrap()),
{
    let i = lemma_nearest_among(hits, hits.len() as int);
    assert(hits.take(hits.len() as int) =~= hits);
}

/// The nearest hit among the first `n`, where one of them lies ahead of
/// the ray's origin.
proof fn lemma_nearest_among(hits: Seq<Intersect>, n: int) -> (i: int)
    requires
        0 <= n <= hits.len(),
        exists|k: int| 0 <= k < n && hits[k].in_reach(),
    ensures
        is_nearest(hits.take(n), i),
    decreases n,
{
    let last = n - 1;
    if exists|k: int| 0 <= k < last && hits[k].in_reach() {
        let best = lemma_nearest_among(hits, last);
        if hits[last].in_reach() && hits[last].distance.key() < hits[best].distance.key() {
            last
        } else {
            best
        }
    } else {
        last
    }
}

/// A ray that passes every box by is sky, and nothing is followed further.
pub proof fn lemma_ray_past_every_box_is_sky(targets: Seq<Target>, depth: u32)
    requires
        forall|k: int| 0 <= k < targets.len() ==> entry_of(#[trigger] targets[k].crossings) is None,
    ensures
        trace_of(hits_of(targets), depth) == (Trace::Sky { color: sky() }),
{
    let hits = hits_of(targets);
    assert forall|i: int| !is_nearest(hits, i) by {
        if 0 <= i < hits.len() {
            assert(entry_of(targets[i].crossings) is None);
        }
    }
}

/// A ray deeper than `MAX_DEPTH` is sky, whatever the scene holds.
pub proof fn lemma_beyond_depth_is_sky(hits: Seq<Intersect>, depth: u32)
    requires
        depth > MAX_DEPTH,
    ensures
        trace_of(hits, depth) == (Trace::Sky { color: sky() }),
{
}

/// A ray within the depth that hits a box ahead of its origin is not sky:
/// it bends at the nearest box or lights it, as that box's material says.
pub proof fn lemma_hit_is_followed(hits: Seq<Intersect>, depth: u32, k: int)
    requires
        depth <= MAX_DEPTH,
        0 <= k < hits.len(),
        hits[k].in_reach(),
    ensures
        !(trace_of(hits, depth) is Sky),
        nearest_of(hits) matches Some(i) && is_nearest(hits, i) && hits[i].distance.key()
            <= hits[k].distance.key() && (if hits[i].bends() {
            trace_of(hits, depth) == (Trace::Refract {
                object: i as usize,
                hit: hits[i],
                depth: (depth + 1) as u32,
            })
        } else {
            trace_of(hits, depth) == (Trace::Shade { object: i as usize, hit: hits[i] })
        }),
{
    lemma_nearest_exists(hits, k);
}

/// A ray that is followed is followed at the nearest hit, and a refracted
/// ray is one level deeper than the ray that it comes from and never
/// deeper than `MAX_DEPTH + 1`, where every ray is sky: a chain of
/// refractions ends.
pub proof fn lemma_refraction_descends(hits: Seq<Intersect>, depth: u32)
    requires
        hits.len() <= usize::MAX,
    ensures
        trace_of(hits, depth) matches Trace::Refract { object, hit, depth: next } ==> {
            &&& is_nearest(hits, object as int)
            &&& hit == hits[object as int]
            &&& next == depth + 1
            &&& next <= MAX_DEPTH + 1
        },
        trace_of(hits, depth) matches Trace::Shade { object, hit } ==> {
            &&& is_nearest(hits, object as int)
            &&& hit == hits[object as int]
        },
{
}

/// A hit recorded behind the ray's origin, at a distance below zero, is
/// passed over: it is not the nearest hit and stands before no light.
pub proof fn lemma_hit_behind_is_passed_over(hits: Seq<Intersect>, i: int, light: Scalar)
    requires
        0 <= i < hits.len(),
        hits[i].distance.lt(Scalar::Num(0)),
    ensures
        !is_nearest(hits, i),
        !is_first_occluder(hits, light, i),
        nearest_of(hits) != Some(i),
{
}

/// Of two equally near hits, the one that comes later in the scene is not
/// the nearest.
pub proof fn lemma_first_of_equals_wins(hits: Seq<Intersect>, i: int, j: int)
    requires
        0 <= i < j < hits.len(),
        hits[i].in_reach(),
        hits[i].distance == hits[j].distance,
    ensures
        !is_nearest(hits, j),
{
}

} // verus!
