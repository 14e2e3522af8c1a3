//! Melds: groups of tiles that a player has put down.

use vstd::prelude::*;
use crate::player::Player;
use crate::tile::Tile;
use crate::tile_set::{TileSet37, counts_without};

verus! {

/// A run completed with a tile called from the player before.
#[derive(Clone, Copy, Debug, PartialEq, Eq)]
pub struct Chii {
    /// The two tiles from the caller's hand, the lower first.
    pub own: [Tile; 2],
    /// The called tile.
    pub called: Tile,
    /// The lowest tile of the run.
    pub min: Tile,
    /// The place of the called tile in the run: 0 lowest, 1 middle, 2 highest.
    pub dir: u8,
}

/// Three of a kind completed with a called tile.
#[derive(Clone, Copy, Debug, PartialEq, Eq)]
pub struct Pon {
    pub own: [Tile; 2],
    pub called: Tile,
    /// The player the tile was called from.
    pub dir: Player,
}

/// A `Pon` with the fourth tile added from the hand.
#[derive(Clone, Copy, Debug, PartialEq, Eq)]
pub struct Kakan {
    pub pon: Pon,
    pub added: Tile,
}

/// Four of a kind completed with a called tile.
#[derive(Clone, Copy, Debug, PartialEq, Eq)]
pub struct Daiminkan {
    pub own: [Tile; 3],
    pub called: Tile,
    pub dir: Player,
}

/// Four of a kind from the hand alone.
#[derive(Clone, Copy, Debug, PartialEq, Eq)]
pub struct Ankan {
    pub own: [Tile; 4],
}

/// A meld of any kind.
#[derive(Clone, Copy, Debug, PartialEq, Eq)]
pub enum Meld {
    Chii(Chii),
    Pon(Pon),
    Kakan(Kakan),
    Daiminkan(Daiminkan),
    Ankan(Ankan),
}

impl Chii {
    /// The place of the called tile in the run: 0 lowest, 1 middle, 2 highest.
    pub fn dir(&self) -> (r: u8)
        ensures
            r == self.dir,
    {
        self.dir
    }
}

impl Meld {
    /// Whether the meld is four of a kind.
    pub open spec fn is_kan_spec(self) -> bool {
        self is Kakan || self is Daiminkan || self is Ankan
    }

    /// Whether the meld is four of a kind.
    pub fn is_kan(&self) -> (r: bool)
        ensures
            r == self.is_kan_spec(),
    {
        match self {
            Meld::Kakan(_) | Meld::Daiminkan(_) | Meld::Ankan(_) => true,
            _ => false,
        }
    }
}

/// The encoding of the red five of a normal kind, or the kind itself if it
/// has none.
pub open spec fn red_of(kind: int) -> int {
    if kind == 4 {
        34
    } else if kind == 13 {
        35
    } else if kind == 22 {
        36
    } else {
        kind
    }
}

/// The red five of the kind of `tile`, or its normal tile if the kind has none.
fn red_tile_of(tile: Tile) -> (r: Tile)
    ensures
        r.code() == red_of(tile.kind()),
        r.kind() == tile.kind(),
{
    let k: u8 = tile.normal_encoding();
    let code: u8 = if k == 4 {
        34
    } else if k == 13 {
        35
    } else if k == 22 {
        36
    } else {
        k
    };
    match Tile::from_encoding(code) {
        Some(t) => t,
        None => tile.to_normal(),
    }
}

impl Ankan {
    /// The counts of a hand with the four tiles taken out.
    pub open spec fn consumed(self, counts: Seq<u8>) -> Seq<u8> {
        counts_without(
            counts_without(
                counts_without(counts_without(counts, self.own@[0].code()), self.own@[1].code()),
                self.own@[2].code(),
            ),
            self.own@[3].code(),
        )
    }

    /// The four tiles are those of the kind of `tile` as they lie in the
    /// hand: the red ones, if any, last.
    pub open spec fn taken_from(self, hand: TileSet37, tile: Tile) -> bool {
        forall|i: int|
            0 <= i < 4 ==> (#[trigger] self.own@[i]).code() == (if i < hand.count_of(tile.kind()) {
                tile.kind()
            } else {
                red_of(tile.kind())
            })
    }

    /// The hand holds all four tiles of the kind of `tile`.
    pub open spec fn in_hand(hand: TileSet37, tile: Tile) -> bool {
        hand.total(tile.kind()) == 4
    }

    /// The four tiles of the kind of `tile` as they lie in the hand: the red
    /// ones, if any, last.
    pub fn from_hand(hand: &TileSet37, tile: Tile) -> (r: Option<Ankan>)
        ensures
            r.is_some() == Self::in_hand(*hand, tile),
            r.is_some() ==> r.unwrap().taken_from(*hand, tile),
    {
        if hand.count_normal(tile) != 4 {
            return None;
        }
        let normal = tile.to_normal();
        let red = red_tile_of(tile);
        let n: u8 = hand.count(normal);
        let mut own: [Tile; 4] = [red; 4];
        let mut i: usize = 0;
        while i < 4
            invariant
                i <= 4,
                n == hand.count_of(tile.kind()),
                normal.code() == tile.kind(),
                red.code() == red_of(tile.kind()),
                forall|j: int|
                    0 <= j < 4 ==> (#[trigger] own@[j]).code() == (if j < i && j < n {
                        tile.kind()
                    } else {
                        red_of(tile.kind())
                    }),
            decreases 4 - i,
        {
            if i < n as usize {
                own[i] = normal;
            }
            i += 1;
        }
        Some(Ankan { own })
    }

    /// Takes the four tiles out of the hand.
    pub fn consume_from_hand(&self, hand: &mut TileSet37)
        ensures
            final(hand)@ == self.consumed(old(hand)@),
    {
        hand.remove(self.own[0]);
        hand.remove(self.own[1]);
        hand.remove(self.own[2]);
        hand.remove(self.own[3]);
    }
}

impl Kakan {
    /// The encoding of the tile that is added to a `Pon` of kind `kind`
    /// from the hand: the normal tile if it is held, else the red five if
    /// that is held.
    pub open spec fn added_code(hand: TileSet37, kind: int) -> Option<int> {
        if hand.count_of(kind) > 0 {
            Some(kind)
        } else if hand.count_of(red_of(kind)) > 0 {
            Some(red_of(kind))
        } else {
            None
        }
    }

    /// The counts of a hand with the added tile taken out.
    pub open spec fn consumed(self, counts: Seq<u8>) -> Seq<u8> {
        counts_without(counts, self.added.code())
    }

    /// The `Pon` with its fourth tile added from the hand, if the hand holds it.
    pub fn from_pon_hand(pon: Pon, hand: &TileSet37) -> (r: Option<Kakan>)
        ensures
            r.is_some() == Self::added_code(*hand, pon.called.kind()).is_some(),
            r.is_some() ==> r.unwrap().pon == pon && r.unwrap().added.code() == Self::added_code(
                *hand,
                pon.called.kind(),
            ).unwrap(),
    {
        let normal = pon.called.to_normal();
        let red = red_tile_of(pon.called);
        if hand.count(normal) > 0 {
            Some(Kakan { pon, added: normal })
        } else if hand.count(red) > 0 {
            Some(Kakan { pon, added: red })
        } else {
            None
        }
    }

    /// Takes the added tile out of the hand.
    pub fn consume_from_hand(&self, hand: &mut TileSet37)
        ensures
            final(hand)@ == self.consumed(old(hand)@),
    {
        hand.remove(self.added);
    }
}

} // verus!
