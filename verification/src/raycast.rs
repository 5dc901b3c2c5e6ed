//! Rays: a segment sent through the world, and the entities that it meets.

use crate::collider::Point;
use crate::color::Colors;
use crate::component::Primitives;
use crate::gameobject::{contains_id, GameObject, World, WorldView};
use vstd::prelude::*;

verus! {

/// The failure of a cast. No cast fails as the engine stands.
#[derive(Debug)]
pub struct CastError {}

/// The entities that a ray met, by their identifiers.
#[derive(Debug)]
pub struct RaycastResult {
    pub underlying: Vec<i32>,
}

impl RaycastResult {
    pub fn new() -> (r: Self)
        ensures
            r.underlying@ == Seq::<i32>::empty(),
    {
        Self { underlying: Vec::new() }
    }

    pub fn add(&mut self, obj: i32)
        ensures
            final(self).underlying@ == old(self).underlying@.push(obj),
    {
        self.underlying.push(obj);
    }
}

/// The ray from `segment.0` to `segment.1` meets the entity `id`: a lookup
/// finds the entity, the caller does not ignore it, and the segment meets one
/// of its colliders.
pub open spec fn is_hit(w: WorldView, segment: (Point, Point), ignore: Seq<i32>, id: i32) -> bool {
    match w.find(id) {
        Some(o) => !ignore.contains(id) && o.intersects(segment),
        None => false,
    }
}

/// The entities among the first `n` of the table that the ray meets, in the
/// order of their identifiers.
pub open spec fn hits_among(w: WorldView, segment: (Point, Point), ignore: Seq<i32>, n: int) -> Seq<i32>
    decreases n,
{
    if n <= 0 {
        Seq::empty()
    } else if is_hit(w, segment, ignore, (n - 1) as i32) {
        hits_among(w, segment, ignore, n - 1).push((n - 1) as i32)
    } else {
        hits_among(w, segment, ignore, n - 1)
    }
}

/// The entities that the ray meets are just those of `hits_among`: each one
/// once.
pub proof fn lemma_hits_are_the_hit(
    w: WorldView,
    segment: (Point, Point),
    ignore: Seq<i32>,
    n: int,
    id: i32,
)
    requires
        0 <= n <= i32::MAX,
    ensures
        hits_among(w, segment, ignore, n).contains(id) <==> (0 <= id < n && is_hit(
            w,
            segment,
            ignore,
            id,
        )),
        hits_among(w, segment, ignore, n).no_duplicates(),
        forall|k: int|
            0 <= k < hits_among(w, segment, ignore, n).len() ==> 0 <= #[trigger] hits_among(
                w,
                segment,
                ignore,
                n,
            )[k] < n,
    decreases n,
{
    if n > 0 {
        lemma_hits_are_the_hit(w, segment, ignore, n - 1, id);
        let rest = hits_among(w, segment, ignore, n - 1);
        let last = (n - 1) as i32;
        if is_hit(w, segment, ignore, last) {
            let all = rest.push(last);
            assert(all.contains(id) <==> (rest.contains(id) || id == last)) by {
                if rest.contains(id) {
                    let k = choose|k: int| 0 <= k < rest.len() && rest[k] == id;
                    assert(all[k] == id);
                }
                if id == last {
                    assert(all[rest.len() as int] == id);
                }
            }
        }
    }
}

/// Rays through the world.
pub struct Raycast {}

impl Raycast {
    /// The line that shows a ray: red, from `initial_position` at the given
    /// angle, of the given length and thickness.
    pub fn show(initial_position: Point, angle: i32, length: i32, thickness: i32) -> (r: Primitives)
        ensures
            r == Primitives::RaycastLine(
                initial_position,
                angle,
                length,
                thickness,
                [1000i32, 0i32, 0i32],
            ),
    {
        Primitives::RaycastLine(initial_position, angle, length, thickness, Colors::RED.raw())
    }

    /// Sends a ray from `initial_position` to `end_position` and returns the
    /// entities that it meets, in the order of their identifiers. Destroyed
    /// entities and those in `ignore` are passed over.
    pub fn send(world: &World, initial_position: Point, end_position: Point, ignore: &Vec<i32>) -> (r:
        Result<RaycastResult, CastError>)
        requires
            world.wf(),
        ensures
            r is Ok,
            r->Ok_0.underlying@ == hits_among(
                world@,
                (initial_position, end_position),
                ignore@,
                world@.objects.len() as int,
            ),
    {
        let mut res = RaycastResult::new();
        let line_segment = (initial_position, end_position);
        let n: usize = world.len();
        proof {
            world.lemma_wf();
        }
        let mut i: usize = 0;
        while i < n
            invariant
                i <= n,
                n == world@.objects.len(),
                n <= i32::MAX,
                world.wf(),
                line_segment == (initial_position, end_position),
                res.underlying@ == hits_among(world@, line_segment, ignore@, i as int),
            decreases n - i,
        {
            let id: i32 = i as i32;
            match GameObject::find_by_id(world, id) {
                Some(game_object) => {
                    if !contains_id(ignore, id) && game_object.intersects(&line_segment) {
                        res.add(id);
                    }
                },
                None => {},
            }
            i += 1;
        }
        Ok(res)
    }
}

} // verus!
