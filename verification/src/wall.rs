//! Filling one wall: prefabs are drawn from the catalog one at a time, a draw
//! that does not fit in what is left of the wall is discarded, and one that
//! fits is placed where the previous ones end.

use crate::layout::{fills, laid_along, lemma_laid_along_push, lemma_total_width_push, total_width};
use crate::model::{MapObject, Orientation, Prefab, Wall};
use crate::rng::draw_index;
use rand_chacha::ChaCha8Rng;
use vstd::prelude::*;

verus! {

/// Why a wall was not filled.
#[derive(Clone, Copy, Debug, PartialEq, Eq, Structural)]
pub enum WallError {
    /// The catalog holds no prefab to draw from.
    EmptyCatalog,
    /// After `filled` tiles were covered, every prefab of the catalog is
    /// wider than what is left of the wall.
    NoPrefabFits { filled: u32 },
    /// The allowed number of draws was made and only `filled` tiles are covered.
    DrawBudgetExhausted { filled: u32 },
}

/// What becomes of the draw `index` when `filled` tiles of the wall are
/// covered: a prefab that would reach past the end of the wall is discarded,
/// any other is placed `filled` tiles along the wall, facing as the wall does.
pub open spec fn drawn_placement(wall: Wall, prefabs: Seq<Prefab>, filled: int, index: int) -> Option<
    MapObject,
> {
    let prefab = prefabs[index];
    if filled + prefab.width > wall.length {
        None
    } else {
        Some(
            MapObject {
                x: wall.position_at(filled).0 as u32,
                y: wall.position_at(filled).1 as u32,
                orientation: wall.orientation,
                prefab,
            },
        )
    }
}

/// The objects on the wall after the draws `draws` were taken in turn.
pub open spec fn replay(wall: Wall, prefabs: Seq<Prefab>, draws: Seq<int>) -> Seq<MapObject>
    decreases draws.len(),
{
    if draws.len() == 0 {
        Seq::empty()
    } else {
        let before = replay(wall, prefabs, draws.drop_last());
        match drawn_placement(wall, prefabs, total_width(before), draws.last()) {
            Some(object) => before.push(object),
            None => before,
        }
    }
}

/// Some prefab of the catalog is no wider than `room`.
pub open spec fn some_fits(prefabs: Seq<Prefab>, room: int) -> bool {
    exists|i: int| 0 <= i < prefabs.len() && (#[trigger] prefabs[i]).width <= room
}

/// After `draws` the wall is not yet covered and another draw can still fit.
pub open spec fn still_running(wall: Wall, prefabs: Seq<Prefab>, draws: Seq<int>) -> bool {
    let filled = total_width(replay(wall, prefabs, draws));
    filled < wall.length && some_fits(prefabs, wall.length - filled)
}

/// A run that takes exactly the draws `draws`, in turn, from a catalog that
/// is not empty ends with `result`: the run went on after every draw but the
/// last, and after the last the wall was covered (`Ok` with the objects
/// placed), or no prefab fitted any more, or `max_draws` draws were made.
pub open spec fn ends_run(
    wall: Wall,
    prefabs: Seq<Prefab>,
    max_draws: int,
    draws: Seq<int>,
    result: Result<Seq<MapObject>, WallError>,
) -> bool {
    let objects = replay(wall, prefabs, draws);
    let filled = total_width(objects);
    &&& draws.len() <= max_draws
    &&& forall|j: int| 0 <= j < draws.len() ==> 0 <= #[trigger] draws[j] < prefabs.len()
    &&& forall|k: int| 0 <= k < draws.len() ==> still_running(wall, prefabs, #[trigger] draws.take(k))
    &&& match result {
        Ok(placed) => placed == objects && filled == wall.length,
        Err(WallError::EmptyCatalog) => false,
        Err(WallError::NoPrefabFits { filled: at }) => {
            &&& at == filled
            &&& filled < wall.length
            &&& !some_fits(prefabs, wall.length - filled)
        },
        Err(WallError::DrawBudgetExhausted { filled: at }) => {
            &&& at == filled
            &&& filled < wall.length
            &&& some_fits(prefabs, wall.length - filled)
            &&& draws.len() == max_draws
        },
    }
}

/// `result` is a possible end of filling `wall` from `prefabs` with at most
/// `max_draws` draws: an empty catalog is refused, and otherwise some
/// sequence of draws ends with `result`.
pub open spec fn wall_outcome(
    wall: Wall,
    prefabs: Seq<Prefab>,
    max_draws: int,
    result: Result<Seq<MapObject>, WallError>,
) -> bool {
    if prefabs.len() == 0 {
        result == Err::<Seq<MapObject>, WallError>(WallError::EmptyCatalog)
    } else {
        exists|draws: Seq<int>| #[trigger] ends_run(wall, prefabs, max_draws, draws, result)
    }
}

/// The run makes no draw: the catalog is empty, the wall has no length, no
/// prefab fits in the wall, or no draw is allowed.
pub open spec fn needs_no_draw(wall: Wall, prefabs: Seq<Prefab>, max_draws: int) -> bool {
    ||| prefabs.len() == 0
    ||| wall.length == 0
    ||| !some_fits(prefabs, wall.length as int)
    ||| max_draws == 0
}

/// Whatever is drawn, the objects on the wall lie along it and never cover
/// more than its length.
pub proof fn lemma_replay_lies_along(wall: Wall, prefabs: Seq<Prefab>, draws: Seq<int>)
    requires
        wall.well_formed(),
        forall|j: int| 0 <= j < draws.len() ==> 0 <= #[trigger] draws[j] < prefabs.len(),
    ensures
        laid_along(replay(wall, prefabs, draws), wall, prefabs),
        0 <= total_width(replay(wall, prefabs, draws)) <= wall.length,
        replay(wall, prefabs, draws).len() <= draws.len(),
    decreases draws.len(),
{
    if draws.len() > 0 {
        let before = replay(wall, prefabs, draws.drop_last());
        lemma_replay_lies_along(wall, prefabs, draws.drop_last());
        match drawn_placement(wall, prefabs, total_width(before), draws.last()) {
            Some(object) => {
                assert(prefabs.contains(prefabs[draws.last()]));
                lemma_total_width_push(before, object);
                lemma_laid_along_push(before, object, wall, prefabs);
            },
            None => {},
        }
    }
}

/// A run that ends with objects has filled the wall: the objects lie along
/// it and their widths add up to exactly its length.
pub proof fn lemma_finished_run_fills(
    wall: Wall,
    prefabs: Seq<Prefab>,
    max_draws: int,
    objects: Seq<MapObject>,
)
    requires
        wall.well_formed(),
        wall_outcome(wall, prefabs, max_draws, Ok(objects)),
    ensures
        fills(objects, wall, prefabs),
        total_width(objects) == wall.length,
        objects.len() <= max_draws,
{
    let draws = choose|draws: Seq<int>| #[trigger]
        ends_run(wall, prefabs, max_draws, draws, Ok(objects));
    lemma_replay_lies_along(wall, prefabs, draws);
}

/// Every run ends: of any stream of `max_draws` or more draws from a catalog
/// that is not empty, some front part ends the run. The lemma gives the
/// number of draws of that part and the result. A run that ends with objects
/// has filled the wall.
pub proof fn lemma_every_run_ends(
    wall: Wall,
    prefabs: Seq<Prefab>,
    max_draws: int,
    stream: Seq<int>,
) -> (ended: (int, Result<Seq<MapObject>, WallError>))
    requires
        wall.well_formed(),
        prefabs.len() > 0,
        0 <= max_draws <= stream.len(),
        forall|j: int| 0 <= j < stream.len() ==> 0 <= #[trigger] stream[j] < prefabs.len(),
    ensures
        0 <= ended.0 <= max_draws,
        ends_run(wall, prefabs, max_draws, stream.take(ended.0), ended.1),
        ended.1 matches Ok(objects) ==> fills(objects, wall, prefabs),
{
    lemma_run_ends_after(wall, prefabs, max_draws, stream, 0)
}

proof fn lemma_run_ends_after(
    wall: Wall,
    prefabs: Seq<Prefab>,
    max_draws: int,
    stream: Seq<int>,
    taken: int,
) -> (ended: (int, Result<Seq<MapObject>, WallError>))
    requires
        wall.well_formed(),
        prefabs.len() > 0,
        0 <= taken <= max_draws <= stream.len(),
        forall|j: int| 0 <= j < stream.len() ==> 0 <= #[trigger] stream[j] < prefabs.len(),
        forall|k: int| 0 <= k < taken ==> still_running(wall, prefabs, #[trigger] stream.take(k)),
    ensures
        taken <= ended.0 <= max_draws,
        ends_run(wall, prefabs, max_draws, stream.take(ended.0), ended.1),
        ended.1 matches Ok(objects) ==> fills(objects, wall, prefabs),
    decreases max_draws - taken,
{
    let draws = stream.take(taken);
    let objects = replay(wall, prefabs, draws);
    let filled = total_width(objects);
    lemma_replay_lies_along(wall, prefabs, draws);
    assert forall|k: int| 0 <= k < draws.len() implies still_running(
        wall,
        prefabs,
        #[trigger] draws.take(k),
    ) by {
        assert(draws.take(k) =~= stream.take(k));
    }
    if filled == wall.length {
        (taken, Ok(objects))
    } else if !some_fits(prefabs, wall.length - filled) {
        (taken, Err(WallError::NoPrefabFits { filled: filled as u32 }))
    } else if taken == max_draws {
        (taken, Err(WallError::DrawBudgetExhausted { filled: filled as u32 }))
    } else {
        lemma_run_ends_after(wall, prefabs, max_draws, stream, taken + 1)
    }
}

/// The draws decide the run: two runs on the same wall and catalog that take
/// their draws from the front of the same stream make the same number of
/// draws and end with the same result, object for object.
pub proof fn lemma_same_draws_same_end(
    wall: Wall,
    prefabs: Seq<Prefab>,
    max_draws: int,
    stream: Seq<int>,
    taken: int,
    result: Result<Seq<MapObject>, WallError>,
    taken_again: int,
    result_again: Result<Seq<MapObject>, WallError>,
)
    requires
        0 <= taken <= stream.len(),
        0 <= taken_again <= stream.len(),
        ends_run(wall, prefabs, max_draws, stream.take(taken), result),
        ends_run(wall, prefabs, max_draws, stream.take(taken_again), result_again),
    ensures
        taken == taken_again,
        result == result_again,
{
    if taken < taken_again {
        assert(stream.take(taken_again).take(taken) =~= stream.take(taken));
    } else if taken_again < taken {
        assert(stream.take(taken).take(taken_again) =~= stream.take(taken_again));
    }
}

/// Decides what becomes of one draw: the prefab `prefabs[index]` is placed
/// `current_len` tiles along the wall if it fits in the rest of the wall, and
/// discarded if it does not.
pub fn place_drawn(wall: &Wall, prefabs: &Vec<Prefab>, current_len: u32, index: usize) -> (placed:
    Option<MapObject>)
    requires
        wall.well_formed(),
        current_len <= wall.length,
        index < prefabs.len(),
    ensures
        placed == drawn_placement(*wall, prefabs@, current_len as int, index as int),
{
    let prefab = &prefabs[index];
    if prefab.width > wall.length - current_len {
        None
    } else {
        let object = match wall.orientation {
            Orientation::Left => MapObject::new(
                wall.x + current_len,
                wall.y,
                wall.orientation,
                prefab,
            ),
            _ => MapObject::new(wall.x, wall.y + current_len, wall.orientation, prefab),
        };
        Some(object)
    }
}

/// The width of the narrowest prefab of the catalog.
fn smallest_width(prefabs: &Vec<Prefab>) -> (narrowest: u32)
    requires
        prefabs.len() > 0,
    ensures
        exists|i: int| 0 <= i < prefabs.len() && (#[trigger] prefabs[i]).width == narrowest,
        forall|i: int| 0 <= i < prefabs.len() ==> narrowest <= (#[trigger] prefabs[i]).width,
{
    let mut narrowest: u32 = prefabs[0].width;
    let mut next: usize = 1;
    while next < prefabs.len()
        invariant
            1 <= next <= prefabs.len(),
            exists|i: int| 0 <= i < next && (#[trigger] prefabs[i]).width == narrowest,
            forall|i: int| 0 <= i < next ==> narrowest <= (#[trigger] prefabs[i]).width,
        decreases prefabs.len() - next,
    {
        if prefabs[next].width < narrowest {
            narrowest = prefabs[next].width;
        }
        next = next + 1;
    }
    narrowest
}

/// Fills the wall `parameters` with prefabs that `rng` draws from `prefabs`,
/// making at most `max_draws` draws.
///
/// An empty catalog is refused before anything is drawn. Otherwise the run
/// goes on until the wall is covered, and stops short when every prefab is
/// wider than what is left of the wall, or else when `max_draws` draws were
/// made. The result is the end of the run on the draws that `rng` gave: the
/// objects that cover the wall exactly, in the order in which they were
/// placed, or the reason why the run stopped short.
pub fn generate_wall(
    rng: &mut ChaCha8Rng,
    parameters: &Wall,
    prefabs: &Vec<Prefab>,
    max_draws: usize,
) -> (result: Result<Vec<MapObject>, WallError>)
    requires
        parameters.well_formed(),
    ensures
        match result {
            Ok(objects) => {
                &&& wall_outcome(*parameters, prefabs@, max_draws as int, Ok(objects@))
                &&& fills(objects@, *parameters, prefabs@)
                &&& objects.len() <= max_draws
            },
            Err(error) => wall_outcome(*parameters, prefabs@, max_draws as int, Err(error)),
        },
        prefabs.len() == 0 <==> result == Err::<Vec<MapObject>, WallError>(WallError::EmptyCatalog),
        needs_no_draw(*parameters, prefabs@, max_draws as int) ==> *final(rng) == *old(rng),
{
    if prefabs.len() == 0 {
        return Err(WallError::EmptyCatalog);
    }
    let narrowest: u32 = smallest_width(prefabs);
    let mut objects: Vec<MapObject> = Vec::new();
    let mut current_len: u32 = 0;
    let mut draws_made: usize = 0;
    let ghost mut draws: Seq<int> = Seq::empty();
    while current_len != parameters.length
        invariant
            parameters.well_formed(),
            prefabs.len() > 0,
            exists|i: int| 0 <= i < prefabs.len() && (#[trigger] prefabs[i]).width == narrowest,
            forall|i: int| 0 <= i < prefabs.len() ==> narrowest <= (#[trigger] prefabs[i]).width,
            current_len <= parameters.length,
            draws.len() == draws_made,
            draws_made <= max_draws,
            objects.len() <= draws_made,
            forall|j: int| 0 <= j < draws.len() ==> 0 <= #[trigger] draws[j] < prefabs.len(),
            forall|k: int|
                0 <= k < draws.len() ==> still_running(
                    *parameters,
                    prefabs@,
                    #[trigger] draws.take(k),
                ),
            replay(*parameters, prefabs@, draws) == objects@,
            total_width(objects@) == current_len,
            laid_along(objects@, *parameters, prefabs@),
            draws_made == 0 ==> current_len == 0 && *rng == *old(rng),
            draws_made > 0 ==> !needs_no_draw(*parameters, prefabs@, max_draws as int),
        decreases max_draws - draws_made,
    {
        let room: u32 = parameters.length - current_len;
        if narrowest > room {
            let stopped = WallError::NoPrefabFits { filled: current_len };
            assert(ends_run(*parameters, prefabs@, max_draws as int, draws, Err(stopped)));
            return Err(stopped);
        }
        if draws_made == max_draws {
            let stopped = WallError::DrawBudgetExhausted { filled: current_len };
            assert(ends_run(*parameters, prefabs@, max_draws as int, draws, Err(stopped)));
            return Err(stopped);
        }
        let index: usize = draw_index(rng, prefabs.len());
        let placed = place_drawn(parameters, prefabs, current_len, index);
        proof {
            let longer = draws.push(index as int);
            assert(longer.drop_last() =~= draws);
            assert(longer.take(draws.len() as int) =~= draws);
            assert forall|k: int| 0 <= k < longer.len() implies still_running(
                *parameters,
                prefabs@,
                #[trigger] longer.take(k),
            ) by {
                if k < draws.len() {
                    assert(longer.take(k) =~= draws.take(k));
                }
            }
            draws = longer;
        }
        draws_made = draws_made + 1;
        match placed {
            Some(object) => {
                proof {
                    assert(prefabs@.contains(prefabs@[index as int]));
                    lemma_total_width_push(objects@, object);
                    lemma_laid_along_push(objects@, object, *parameters, prefabs@);
                }
                current_len = current_len + prefabs[index].width;
                objects.push(object);
            },
            None => {},
        }
    }
    assert(ends_run(*parameters, prefabs@, max_draws as int, draws, Ok(objects@)));
    Ok(objects)
}

} // verus!
