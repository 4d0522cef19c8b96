//! What it means for placed objects to lie along a wall and to fill it, and
//! what follows from that.

use crate::model::{MapObject, Prefab, Wall};
use vstd::arithmetic::div_mod::{lemma_add_mod_noop, lemma_small_mod};
use vstd::prelude::*;

verus! {

/// The number of tiles that `objects` cover: the sum of their prefabs' widths.
pub open spec fn total_width(objects: Seq<MapObject>) -> int
    decreases objects.len(),
{
    if objects.len() == 0 {
        0
    } else {
        total_width(objects.drop_last()) + objects.last().prefab.width
    }
}

/// `object` sits `offset` tiles along `wall` and faces as the wall does.
pub open spec fn placed_at(object: MapObject, wall: Wall, offset: int) -> bool {
    &&& object.orientation == wall.orientation
    &&& (object.x as int, object.y as int) == wall.position_at(offset)
}

/// `objects` lie end to end from the origin of `wall`: each one is a prefab
/// of the catalog and starts where the widths of those before it end.
pub open spec fn laid_along(objects: Seq<MapObject>, wall: Wall, prefabs: Seq<Prefab>) -> bool {
    forall|k: int|
        0 <= k < objects.len() ==> {
            &&& prefabs.contains((#[trigger] objects[k]).prefab)
            &&& placed_at(objects[k], wall, total_width(objects.take(k)))
        }
}

/// `objects` lie along `wall` and cover exactly its length.
pub open spec fn fills(objects: Seq<MapObject>, wall: Wall, prefabs: Seq<Prefab>) -> bool {
    &&& laid_along(objects, wall, prefabs)
    &&& total_width(objects) == wall.length
}

/// Appending an object adds its width.
pub proof fn lemma_total_width_push(objects: Seq<MapObject>, object: MapObject)
    ensures
        total_width(objects.push(object)) == total_width(objects) + object.prefab.width,
{
    assert(objects.push(object).drop_last() =~= objects);
}

/// Widths are not negative, so a prefix covers no more than the whole.
pub proof fn lemma_total_width_prefix(objects: Seq<MapObject>, k: int)
    requires
        0 <= k <= objects.len(),
    ensures
        0 <= total_width(objects.take(k)) <= total_width(objects),
    decreases objects.len() - k,
{
    if k == objects.len() {
        assert(objects.take(k) =~= objects);
        lemma_total_width_nonnegative(objects);
    } else {
        lemma_total_width_prefix(objects, k + 1);
        assert(objects.take(k + 1).drop_last() =~= objects.take(k));
        lemma_total_width_nonnegative(objects.take(k));
    }
}

proof fn lemma_total_width_nonnegative(objects: Seq<MapObject>)
    ensures
        0 <= total_width(objects),
    decreases objects.len(),
{
    if objects.len() > 0 {
        lemma_total_width_nonnegative(objects.drop_last());
    }
}

/// An object that is placed where the others end extends the run.
pub proof fn lemma_laid_along_push(
    objects: Seq<MapObject>,
    object: MapObject,
    wall: Wall,
    prefabs: Seq<Prefab>,
)
    requires
        laid_along(objects, wall, prefabs),
        prefabs.contains(object.prefab),
        placed_at(object, wall, total_width(objects)),
    ensures
        laid_along(objects.push(object), wall, prefabs),
{
    let longer = objects.push(object);
    assert forall|k: int| 0 <= k < longer.len() implies {
        &&& prefabs.contains((#[trigger] longer[k]).prefab)
        &&& placed_at(longer[k], wall, total_width(longer.take(k)))
    } by {
        if k < objects.len() {
            assert(longer[k] == objects[k]);
            assert(longer.take(k) =~= objects.take(k));
        } else {
            assert(longer.take(k) =~= objects);
        }
    }
}

/// Objects whose prefabs all have a width that `divisor` divides cover a
/// number of tiles that `divisor` divides: such a catalog fills no wall whose
/// length it does not divide.
pub proof fn lemma_common_divisor(
    objects: Seq<MapObject>,
    wall: Wall,
    prefabs: Seq<Prefab>,
    divisor: int,
)
    requires
        divisor > 0,
        forall|i: int| 0 <= i < prefabs.len() ==> (#[trigger] prefabs[i]).width as int % divisor == 0,
        laid_along(objects, wall, prefabs),
    ensures
        total_width(objects) % divisor == 0,
        wall.length as int % divisor != 0 ==> !fills(objects, wall, prefabs),
    decreases objects.len(),
{
    lemma_small_mod(0, divisor as nat);
    if objects.len() > 0 {
        let shorter = objects.drop_last();
        assert forall|k: int| 0 <= k < shorter.len() implies {
            &&& prefabs.contains((#[trigger] shorter[k]).prefab)
            &&& placed_at(shorter[k], wall, total_width(shorter.take(k)))
        } by {
            assert(shorter[k] == objects[k]);
            assert(shorter.take(k) =~= objects.take(k));
        }
        lemma_common_divisor(shorter, wall, prefabs, divisor);
        let last = objects.last();
        assert(prefabs.contains(last.prefab));
        let at = choose|i: int| 0 <= i < prefabs.len() && prefabs[i] == last.prefab;
        assert(prefabs[at].width as int % divisor == 0);
        let covered = total_width(shorter);
        let width = last.prefab.width as int;
        lemma_add_mod_noop(covered, width, divisor);
    }
}

/// How far from the origin of `wall` the object starts, in tiles.
pub open spec fn distance_along(object: MapObject, wall: Wall) -> int {
    (object.x - wall.x) + (object.y - wall.y)
}

/// Along a wall the placed objects never step back: both coordinates of a
/// later object are at least those of an earlier one. Every object starts at
/// or after the wall's origin and ends within the wall's length.
pub proof fn lemma_positions_ascend(objects: Seq<MapObject>, wall: Wall, prefabs: Seq<Prefab>)
    requires
        laid_along(objects, wall, prefabs),
        total_width(objects) <= wall.length,
    ensures
        forall|i: int, j: int|
            0 <= i <= j < objects.len() ==> {
                &&& (#[trigger] objects[i]).x <= (#[trigger] objects[j]).x
                &&& objects[i].y <= objects[j].y
                &&& distance_along(objects[i], wall) <= distance_along(objects[j], wall)
            },
        forall|k: int|
            0 <= k < objects.len() ==> {
                &&& wall.x <= (#[trigger] objects[k]).x
                &&& wall.y <= objects[k].y
                &&& distance_along(objects[k], wall) + objects[k].prefab.width <= wall.length
            },
{
    assert forall|k: int| 0 <= k < objects.len() implies {
        &&& wall.x <= (#[trigger] objects[k]).x
        &&& wall.y <= objects[k].y
        &&& distance_along(objects[k], wall) + objects[k].prefab.width <= wall.length
    } by {
        lemma_total_width_prefix(objects, k);
        lemma_total_width_prefix(objects, k + 1);
        assert(objects.take(k + 1).drop_last() =~= objects.take(k));
    }
    assert forall|i: int, j: int| 0 <= i <= j < objects.len() implies {
        &&& (#[trigger] objects[i]).x <= (#[trigger] objects[j]).x
        &&& objects[i].y <= objects[j].y
        &&& distance_along(objects[i], wall) <= distance_along(objects[j], wall)
    } by {
        lemma_total_width_prefix(objects.take(j), i);
        assert(objects.take(j).take(i) =~= objects.take(i));
    }
}

} // verus!
