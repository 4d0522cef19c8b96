//! The perimeter of a map: its four walls, filled one after the other from
//! one generator, and the map assembled from them.

use crate::layout::fills;
use crate::model::{MapObject, MapSize, Orientation, Prefab, TileMap, Wall};
use crate::wall::{generate_wall, needs_no_draw, wall_outcome, WallError};
use rand_chacha::ChaCha8Rng;
use vstd::prelude::*;

verus! {

/// The width of a generated map, in tiles.
pub const MAP_WIDTH: u32 = 70;

/// The height of a generated map, in tiles.
pub const MAP_HEIGHT: u32 = 35;

/// The number of draws that a generated map allows for each of its walls.
pub const DRAWS_PER_WALL: usize = 10000;

/// `walls` holds the four sides of the perimeter of `size` in the order top,
/// left, bottom, right, each the end of a run on that side which filled it.
pub open spec fn perimeter_filled(
    size: MapSize,
    prefabs: Seq<Prefab>,
    max_draws: int,
    walls: Seq<Vec<MapObject>>,
) -> bool {
    &&& walls.len() == 4
    &&& forall|side: int|
        0 <= side < 4 ==> {
            &&& fills((#[trigger] walls[side])@, size.perimeter()[side], prefabs)
            &&& wall_outcome(size.perimeter()[side], prefabs, max_draws, Ok(walls[side]@))
        }
}

/// A run on `wall` can fill it.
pub open spec fn can_fill(wall: Wall, prefabs: Seq<Prefab>, max_draws: int) -> bool {
    exists|objects: Seq<MapObject>| #[trigger] wall_outcome(wall, prefabs, max_draws, Ok(objects))
}

/// The sides of the perimeter of `size`, taken in order, can be filled up to
/// one on which the run can end with `error`.
pub open spec fn perimeter_stopped(
    size: MapSize,
    prefabs: Seq<Prefab>,
    max_draws: int,
    error: WallError,
) -> bool {
    exists|side: int|
        {
            &&& 0 <= side < 4
            &&& wall_outcome(#[trigger] size.perimeter()[side], prefabs, max_draws, Err(error))
            &&& forall|earlier: int|
                0 <= earlier < side ==> can_fill(
                    #[trigger] size.perimeter()[earlier],
                    prefabs,
                    max_draws,
                )
        }
}

/// No side of the perimeter of `size` needs a draw.
pub open spec fn perimeter_needs_no_draw(size: MapSize, prefabs: Seq<Prefab>, max_draws: int) -> bool {
    forall|side: int|
        0 <= side < 4 ==> needs_no_draw(#[trigger] size.perimeter()[side], prefabs, max_draws)
}

/// Fills the four walls of a map of size `map_size` from one generator, in
/// the order top, left, bottom, right, allowing `max_draws` draws for each.
/// The first wall that cannot be filled ends the run with its error. The
/// walls do not depend on `map_orientation`, the facing of the map.
#[allow(unused_variables)]
pub fn generate_walls(
    rng: &mut ChaCha8Rng,
    map_size: &MapSize,
    map_orientation: &Orientation,
    prefabs: &Vec<Prefab>,
    max_draws: usize,
) -> (result: Result<[Vec<MapObject>; 4], WallError>)
    ensures
        match result {
            Ok(walls) => perimeter_filled(*map_size, prefabs@, max_draws as int, walls@),
            Err(error) => perimeter_stopped(*map_size, prefabs@, max_draws as int, error),
        },
        prefabs.len() == 0 <==> result == Err::<[Vec<MapObject>; 4], WallError>(
            WallError::EmptyCatalog,
        ),
        perimeter_needs_no_draw(*map_size, prefabs@, max_draws as int) ==> *final(rng) == *old(
            rng,
        ),
{
    let walls = map_size.walls();
    let top = match generate_wall(rng, &walls[0], prefabs, max_draws) {
        Ok(objects) => objects,
        Err(error) => {
            return Err(error);
        },
    };
    let left = match generate_wall(rng, &walls[1], prefabs, max_draws) {
        Ok(objects) => objects,
        Err(error) => {
            return Err(error);
        },
    };
    let bottom = match generate_wall(rng, &walls[2], prefabs, max_draws) {
        Ok(objects) => objects,
        Err(error) => {
            return Err(error);
        },
    };
    let right = match generate_wall(rng, &walls[3], prefabs, max_draws) {
        Ok(objects) => objects,
        Err(error) => {
            return Err(error);
        },
    };
    Ok([top, left, bottom, right])
}

/// The objects inside the walls: none, and nothing is drawn for them.
#[allow(unused_variables)]
pub fn generate_insides(rng: &mut ChaCha8Rng) -> (objects: Vec<MapObject>)
    ensures
        objects@.len() == 0,
        *final(rng) == *old(rng),
{
    Vec::new()
}

/// Generates a map of `MAP_WIDTH` by `MAP_HEIGHT` tiles: its four walls,
/// filled from `prefabs` with `DRAWS_PER_WALL` draws allowed for each, and
/// nothing inside them.
pub fn generate_map(rng: &mut ChaCha8Rng, prefabs: &Vec<Prefab>) -> (result: Result<
    TileMap,
    WallError,
>)
    ensures
        match result {
            Ok(map) => {
                &&& perimeter_filled(
                    MapSize { width: MAP_WIDTH, height: MAP_HEIGHT },
                    prefabs@,
                    DRAWS_PER_WALL as int,
                    map.walls@,
                )
                &&& map.inside_objects@.len() == 0
            },
            Err(error) => perimeter_stopped(
                MapSize { width: MAP_WIDTH, height: MAP_HEIGHT },
                prefabs@,
                DRAWS_PER_WALL as int,
                error,
            ),
        },
        prefabs.len() == 0 <==> result == Err::<TileMap, WallError>(WallError::EmptyCatalog),
        perimeter_needs_no_draw(
            MapSize { width: MAP_WIDTH, height: MAP_HEIGHT },
            prefabs@,
            DRAWS_PER_WALL as int,
        ) ==> *final(rng) == *old(rng),
{
    let map_size = MapSize::new(MAP_WIDTH, MAP_HEIGHT);
    let orientation = Orientation::get_random();
    let walls = match generate_walls(rng, &map_size, &orientation, prefabs, DRAWS_PER_WALL) {
        Ok(walls) => walls,
        Err(error) => {
            return Err(error);
        },
    };
    let inside_objects = generate_insides(rng);
    Ok(TileMap { walls, inside_objects })
}

} // verus!
