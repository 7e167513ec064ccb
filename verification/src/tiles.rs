//! Hull tiles, filed by their position on the ship's grid.
//!
//! A [`Tile`] is one square of hull and knows only where it sits. A
//! [`TileSet`] is a whole hull: a map from grid positions to the tiles that
//! sit there. Mathematically a hull is nothing more than the set of grid
//! positions it covers, and that set is the view the contracts speak of.

use std::collections::BTreeMap;
use vstd::prelude::*;
use vstd::std_specs::convert::FromSpecImpl;

verus! {

/// A position on a ship's grid: column, then row.
pub type Pos = (i32, i32);

/// One square tile of a ship's hull. Its view is the position it sits at.
pub struct Tile {
    pos: Pos,
}

impl View for Tile {
    type V = Pos;

    closed spec fn view(&self) -> Pos {
        self.pos
    }
}

impl Clone for Tile {
    fn clone(&self) -> (tile: Tile)
        ensures
            tile == *self,
    {
        Tile { pos: self.pos }
    }
}

impl Tile {
    /// The tile that sits at `pos`.
    pub closed spec fn at(pos: Pos) -> Tile {
        Tile { pos }
    }

    /// The grid position the tile sits at.
    pub fn pos(&self) -> (p: Pos)
        ensures
            p == self@,
    {
        self.pos
    }

    /// A tile is its position and nothing else: [`Tile::at`] is the inverse
    /// of the view, so two tiles at the same position are the same tile.
    pub broadcast proof fn lemma_at_view(tile: Tile)
        ensures
            #[trigger] Tile::at(tile@) == tile,
    {
    }

    /// The tile at `pos` sits at `pos`.
    pub broadcast proof fn lemma_view_at(pos: Pos)
        ensures
            #[trigger] Tile::at(pos)@ == pos,
    {
    }
}

impl From<Pos> for Tile {
    /// Puts a tile at `pos`.
    fn from(pos: Pos) -> (tile: Tile)
        ensures
            tile@ == pos,
    {
        Tile { pos }
    }
}

impl FromSpecImpl<Pos> for Tile {
    open spec fn obeys_from_spec() -> bool {
        true
    }

    open spec fn from_spec(pos: Pos) -> Tile {
        Tile::at(pos)
    }
}

/// The grid positions that a list of tiles covers.
pub open spec fn covered(tiles: Seq<Tile>) -> Set<Pos> {
    Set::new(|p: Pos| exists|i: int| 0 <= i < tiles.len() && (#[trigger] tiles[i])@ == p)
}

/// A ship's hull: its tiles, each filed under the position it sits at.
///
/// The view of a hull is the set of grid positions it covers.
pub struct TileSet {
    pub tiles: BTreeMap<Pos, Tile>,
}

impl View for TileSet {
    type V = Set<Pos>;

    open spec fn view(&self) -> Set<Pos> {
        self.tiles@.dom()
    }
}

impl TileSet {
    /// Every tile is filed under its own position. The constructors
    /// establish this; together with the view it fixes the whole map.
    pub open spec fn wf(&self) -> bool {
        forall|p: Pos| #[trigger] self.tiles@.contains_key(p) ==> self.tiles@[p]@ == p
    }

    /// A well-formed hull holds, at each position it covers, the tile that
    /// sits there.
    pub proof fn lemma_wf_fixes_tiles(&self, p: Pos)
        requires
            self.wf(),
            self@.contains(p),
        ensures
            self.tiles@[p] == Tile::at(p),
    {
        assert(self.tiles@.contains_key(p));
        Tile::lemma_at_view(self.tiles@[p]);
    }
}

impl From<Vec<Tile>> for TileSet {
    /// Files each tile under its position. Tiles that share a position
    /// collapse into one; the order of the list does not matter.
    fn from(tiles: Vec<Tile>) -> (set: TileSet)
        ensures
            set.wf(),
            set@ == covered(tiles@),
    {
        let mut map: BTreeMap<Pos, Tile> = BTreeMap::new();
        let ghost all = tiles@;
        for tile in it: tiles
            invariant
                it.seq() == all,
                forall|p: Pos| #[trigger] map@.contains_key(p) ==> map@[p]@ == p,
                map@.dom() =~= covered(all.take(it.index())),
        {
            let ghost done = it.index();
            proof {
                lemma_covered_push(all, done);
            }
            map.insert(tile.pos, tile);
        }
        assert(all.take(all.len() as int) =~= all);
        TileSet { tiles: map }
    }
}

/// A hull holds a `BTreeMap`, which cannot be built in a specification, so
/// there is no hull to name as the result: what `from` returns is stated on
/// `from` itself, through the hull's view and [`TileSet::wf`].
impl FromSpecImpl<Vec<Tile>> for TileSet {
    open spec fn obeys_from_spec() -> bool {
        false
    }

    open spec fn from_spec(tiles: Vec<Tile>) -> TileSet {
        arbitrary()
    }
}

impl From<Vec<Pos>> for TileSet {
    /// Builds the hull that covers exactly the listed positions.
    fn from(poss: Vec<Pos>) -> (set: TileSet)
        ensures
            set.wf(),
            set@ == poss@.to_set(),
    {
        let mut tiles: Vec<Tile> = Vec::new();
        for i in 0..poss.len()
            invariant
                tiles.len() == i,
                forall|j: int| 0 <= j < i ==> (#[trigger] tiles[j])@ == poss[j],
        {
            tiles.push(Tile::from(poss[i]));
        }
        let set = TileSet::from(tiles);
        assert(set@ =~= poss@.to_set()) by {
            assert forall|p: Pos| poss@.to_set().contains(p) implies set@.contains(p) by {
                let j = choose|j: int| 0 <= j < poss.len() && poss[j] == p;
                assert(tiles[j]@ == p);
            }
        }
        set
    }
}

/// As for a list of tiles: the result is stated on `from` itself.
impl FromSpecImpl<Vec<Pos>> for TileSet {
    open spec fn obeys_from_spec() -> bool {
        false
    }

    open spec fn from_spec(poss: Vec<Pos>) -> TileSet {
        arbitrary()
    }
}

/// Taking one more tile of a list covers one more position.
proof fn lemma_covered_push(tiles: Seq<Tile>, n: int)
    requires
        0 <= n < tiles.len(),
    ensures
        covered(tiles.take(n + 1)) =~= covered(tiles.take(n)).insert(tiles[n]@),
{
    let short = tiles.take(n);
    let long = tiles.take(n + 1);
    assert forall|p: Pos| covered(long).contains(p) implies covered(short).insert(
        tiles[n]@,
    ).contains(p) by {
        let i = choose|i: int| 0 <= i < long.len() && (#[trigger] long[i])@ == p;
        if i < n {
            assert(short[i]@ == p);
        }
    }
    assert forall|p: Pos| covered(short).insert(tiles[n]@).contains(p) implies covered(
        long,
    ).contains(p) by {
        if p == tiles[n]@ {
            assert(long[n]@ == p);
        } else {
            let i = choose|i: int| 0 <= i < short.len() && (#[trigger] short[i])@ == p;
            assert(long[i]@ == p);
        }
    }
}

} // verus!
