//! The text of a map: one line of glyphs for each wall.

use crate::layout::total_width;
use crate::model::{MapObject, TileMap};
use vstd::prelude::*;

verus! {

/// The glyphs of a wall: for each object in turn, the glyph of its prefab
/// once for every tile of its width, with nothing between the objects.
pub open spec fn glyphs(objects: Seq<MapObject>) -> Seq<char>
    decreases objects.len(),
{
    if objects.len() == 0 {
        Seq::empty()
    } else {
        glyphs(objects.drop_last()) + Seq::new(
            objects.last().prefab.width as nat,
            |tile: int| objects.last().prefab.render,
        )
    }
}

/// A wall is drawn with one glyph for each tile that its objects cover.
pub proof fn lemma_glyph_count(objects: Seq<MapObject>)
    ensures
        glyphs(objects).len() == total_width(objects),
    decreases objects.len(),
{
    if objects.len() > 0 {
        lemma_glyph_count(objects.drop_last());
    }
}

/// Draws one wall as a line of glyphs.
pub fn render_wall(objects: &Vec<MapObject>) -> (line: Vec<char>)
    ensures
        line@ == glyphs(objects@),
{
    let mut line: Vec<char> = Vec::new();
    let mut next: usize = 0;
    while next < objects.len()
        invariant
            next <= objects.len(),
            line@ == glyphs(objects@.take(next as int)),
        decreases objects.len() - next,
    {
        let prefab = &objects[next].prefab;
        let ghost before = line@;
        let mut tile: u32 = 0;
        while tile < prefab.width
            invariant
                tile <= prefab.width,
                line@ == before + Seq::new(tile as nat, |t: int| prefab.render),
            decreases prefab.width - tile,
        {
            line.push(prefab.render);
            tile = tile + 1;
        }
        proof {
            assert(objects@.take(next + 1).drop_last() =~= objects@.take(next as int));
        }
        next = next + 1;
    }
    proof {
        assert(objects@.take(next as int) =~= objects@);
    }
    line
}

/// Draws the map: one line for each wall, in the order top, left, bottom,
/// right.
pub fn render_map(map: &TileMap) -> (lines: Vec<Vec<char>>)
    ensures
        lines.len() == 4,
        forall|side: int| 0 <= side < 4 ==> (#[trigger] lines[side])@ == glyphs(map.walls@[side]@),
{
    let mut lines: Vec<Vec<char>> = Vec::new();
    let mut side: usize = 0;
    while side < 4
        invariant
            side <= 4,
            lines.len() == side,
            forall|done: int|
                0 <= done < side ==> (#[trigger] lines[done])@ == glyphs(map.walls@[done]@),
        decreases 4 - side,
    {
        let line = render_wall(&map.walls[side]);
        lines.push(line);
        side = side + 1;
    }
    lines
}

} // verus!
