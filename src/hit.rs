//! Choice of the hit that a ray reports.
//!
//! A position along a ray is given by an order key of its parameter `t`: a
//! smaller key is a nearer point. A surface meets the ray in at most two
//! roots; a query accepts only keys strictly between a lower and an upper
//! bound. A surface reports its first root inside the bounds, and a scene
//! reports the nearest hit of all its surfaces, scanning them in order and
//! narrowing the upper bound to the nearest hit found so far.
use vstd::prelude::*;

verus! {

/// Where a surface meets a ray: two order keys, nearest first.
#[derive(PartialEq, Eq, Structural, Clone, Copy, Debug)]
pub struct Roots {
    pub near: u32,
    pub far: u32,
}

/// Whether key `k` lies strictly between `lo` and `hi`.
pub open spec fn within(k: int, lo: int, hi: int) -> bool {
    lo < k && k < hi
}

/// Whether `k` is a root of a surface that meets the ray where `o` says.
pub open spec fn has_root(o: Option<Roots>, k: int) -> bool {
    match o {
        None => false,
        Some(r) => k == r.near || k == r.far,
    }
}

/// Whether the roots of `o` come nearest first.
pub open spec fn ordered(o: Option<Roots>) -> bool {
    match o {
        None => true,
        Some(r) => r.near <= r.far,
    }
}

/// The root that a surface reports for a query between `lo` and `hi`: the
/// near root if it is inside the bounds, else the far one if it is.
pub open spec fn root_within(o: Option<Roots>, lo: int, hi: int) -> Option<int> {
    match o {
        None => None,
        Some(r) => if within(r.near as int, lo, hi) {
            Some(r.near as int)
        } else if within(r.far as int, lo, hi) {
            Some(r.far as int)
        } else {
            None
        },
    }
}

/// The hit that a scene of surfaces `objs` reports between `lo` and `hi`:
/// the index of the surface and the key of the hit.
pub open spec fn scene_hit(objs: Seq<Option<Roots>>, lo: int, hi: int) -> Option<(int, int)>
    decreases objs.len(),
{
    if objs.len() == 0 {
        None
    } else {
        let prev = scene_hit(objs.drop_last(), lo, hi);
        let bound = match prev {
            None => hi,
            Some(h) => h.1,
        };
        match root_within(objs.last(), lo, bound) {
            None => prev,
            Some(k) => Some(((objs.len() - 1) as int, k)),
        }
    }
}

pub open spec fn hit_view(h: Option<(usize, u32)>) -> Option<(int, int)> {
    match h {
        None => None,
        Some(p) => Some((p.0 as int, p.1 as int)),
    }
}

/// The first root of a surface strictly between `lo` and `hi`, testing the
/// near root before the far one; with ordered roots it is the nearest root
/// inside the bounds.
pub fn first_root(roots: Option<Roots>, lo: u32, hi: u32) -> (r: Option<u32>)
    ensures
        match root_within(roots, lo as int, hi as int) {
            None => r is None,
            Some(k) => r == Some(k as u32),
        },
        ordered(roots) ==> match r {
            None => forall|k: int| has_root(roots, k) ==> !within(k, lo as int, hi as int),
            Some(k) => has_root(roots, k as int) && within(k as int, lo as int, hi as int)
                && forall|m: int|
                has_root(roots, m) && within(m, lo as int, hi as int) ==> k <= m,
        },
{
    match roots {
        None => None,
        Some(r) => if lo < r.near && r.near < hi {
            Some(r.near)
        } else if lo < r.far && r.far < hi {
            Some(r.far)
        } else {
            None
        },
    }
}

/// The hit that the scene `objs` reports between `lo` and `hi`: each surface
/// is asked for its first root below the nearest hit found before it.
pub fn nearest_hit(objs: &Vec<Option<Roots>>, lo: u32, hi: u32) -> (r: Option<(usize, u32)>)
    ensures
        hit_view(r) == scene_hit(objs@, lo as int, hi as int),
{
    let mut best: Option<(usize, u32)> = None;
    let mut i: usize = 0;
    while i < objs.len()
        invariant
            i <= objs@.len(),
            hit_view(best) == scene_hit(objs@.subrange(0, i as int), lo as int, hi as int),
        decreases objs@.len() - i,
    {
        assert(objs@.subrange(0, i + 1).drop_last() =~= objs@.subrange(0, i as int));
        assert(objs@.subrange(0, i + 1).last() == objs@[i as int]);
        let bound = match best {
            None => hi,
            Some(h) => h.1,
        };
        match first_root(objs[i], lo, bound) {
            Some(k) => {
                best = Some((i, k));
            },
            None => {},
        }
        i = i + 1;
    }
    assert(objs@.subrange(0, objs@.len() as int) =~= objs@);
    best
}

/// The hit that a scene reports is the nearest of all the roots of all its
/// surfaces inside the bounds, and of equally near ones that of the first
/// surface; the scene reports nothing only when no surface has a root
/// inside the bounds.
pub proof fn lemma_scene_hit_is_nearest(objs: Seq<Option<Roots>>, lo: int, hi: int)
    requires
        forall|i: int| 0 <= i < objs.len() ==> ordered(#[trigger] objs[i]),
    ensures
        scene_hit(objs, lo, hi) is None <==> forall|i: int, k: int|
            0 <= i < objs.len() && #[trigger] has_root(objs[i], k) ==> !within(k, lo, hi),
        match scene_hit(objs, lo, hi) {
            None => true,
            Some(h) => {
                &&& 0 <= h.0 < objs.len()
                &&& has_root(objs[h.0], h.1)
                &&& within(h.1, lo, hi)
                &&& forall|i: int, k: int|
                    0 <= i < objs.len() && #[trigger] has_root(objs[i], k) && within(k, lo, hi)
                        ==> h.1 <= k
                &&& forall|i: int, k: int|
                    0 <= i < h.0 && #[trigger] has_root(objs[i], k) && within(k, lo, hi) ==> h.1
                        < k
            },
        },
    decreases objs.len(),
{
    if objs.len() > 0 {
        let init = objs.drop_last();
        let last = objs.last();
        assert forall|i: int| 0 <= i < init.len() implies ordered(#[trigger] init[i]) by {
            assert(init[i] == objs[i]);
        }
        lemma_scene_hit_is_nearest(init, lo, hi);
        assert(ordered(objs[objs.len() - 1]));
        assert forall|i: int, k: int| 0 <= i < init.len() implies #[trigger] has_root(
            objs[i],
            k,
        ) == has_root(init[i], k) by {
            assert(init[i] == objs[i]);
        }
        match scene_hit(objs, lo, hi) {
            None => {
                assert(root_within(last, lo, hi) is None);
                assert forall|i: int, k: int|
                    0 <= i < objs.len() && #[trigger] has_root(objs[i], k) implies !within(
                    k,
                    lo,
                    hi,
                ) by {
                    if i < init.len() {
                        assert(has_root(init[i], k));
                    }
                }
            },
            Some(h) => {
                assert(has_root(objs[h.0], h.1));
            },
        }
    }
}

} // verus!
