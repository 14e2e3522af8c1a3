//! Counting the dora of a winning hand.

use vstd::prelude::*;
use crate::meld::Meld;
use crate::model::{AgariKind, Wall, dora_indicator, dora_indicator_index, ura_dora_indicator,
    ura_dora_indicator_index};
use crate::tile::{Tile, dora_of};
use crate::tile_set::TileSet37;

verus! {

/// The tiles of a meld.
pub open spec fn meld_tiles(meld: Meld) -> Seq<Tile> {
    match meld {
        Meld::Chii(m) => seq![m.own@[0], m.own@[1], m.called],
        Meld::Pon(m) => seq![m.own@[0], m.own@[1], m.called],
        Meld::Kakan(m) => seq![m.pon.own@[0], m.pon.own@[1], m.pon.called, m.added],
        Meld::Daiminkan(m) => seq![m.own@[0], m.own@[1], m.own@[2], m.called],
        Meld::Ankan(m) => seq![m.own@[0], m.own@[1], m.own@[2], m.own@[3]],
    }
}

/// The tiles of some melds, meld after meld.
pub open spec fn melds_tiles(melds: Seq<Meld>) -> Seq<Tile>
    decreases melds.len(),
{
    if melds.len() == 0 {
        Seq::empty()
    } else {
        melds_tiles(melds.drop_last()) + meld_tiles(melds.last())
    }
}

/// The tiles of a winner that are not in its closed hand: those of its
/// melds, and the winning tile if it was taken from another player.
pub open spec fn open_tiles(agari_kind: AgariKind, winning_tile: Tile, melds: Seq<Meld>) -> Seq<
    Tile,
> {
    melds_tiles(melds) + (if agari_kind is Ron {
        seq![winning_tile]
    } else {
        Seq::empty()
    })
}

/// The number of tiles of normal kind `kind` among `tiles`.
pub open spec fn count_kind(tiles: Seq<Tile>, kind: int) -> int
    decreases tiles.len(),
{
    if tiles.len() == 0 {
        0
    } else {
        count_kind(tiles.drop_last(), kind) + (if tiles.last().kind() == kind {
            1int
        } else {
            0int
        })
    }
}

/// The number of red fives among `tiles`.
pub open spec fn count_red(tiles: Seq<Tile>) -> int
    decreases tiles.len(),
{
    if tiles.len() == 0 {
        0
    } else {
        count_red(tiles.drop_last()) + (if tiles.last().code() >= 34 {
            1int
        } else {
            0int
        })
    }
}

/// The number of tiles of normal kind `kind` that a winner holds.
pub open spec fn held_of_kind(hand: TileSet37, open: Seq<Tile>, kind: int) -> int {
    hand.total(kind) + count_kind(open, kind)
}

/// The number of tiles that are dora by the first `n` indicators, or, if
/// `under`, by the tiles under them. A tile counts once for each indicator
/// that makes it dora.
pub open spec fn indicated_hits(
    wall: Wall,
    hand: TileSet37,
    open: Seq<Tile>,
    under: bool,
    n: int,
) -> int
    decreases n,
{
    if n <= 0 {
        0
    } else {
        let at = if under {
            ura_dora_indicator_index(n - 1)
        } else {
            dora_indicator_index(n - 1)
        };
        indicated_hits(wall, hand, open, under, n - 1) + held_of_kind(
            hand,
            open,
            dora_of(wall@[at].kind()),
        )
    }
}

/// The number of dora of a winner: the tiles that the revealed indicators
/// make dora, the red fives, and, under riichi, the tiles that the tiles
/// under the indicators make dora.
pub open spec fn dora_total(
    wall: Wall,
    hand: TileSet37,
    open: Seq<Tile>,
    num_dora_indicators: int,
    is_riichi: bool,
) -> int {
    indicated_hits(wall, hand, open, false, num_dora_indicators) + hand.count_of(34)
        + hand.count_of(35) + hand.count_of(36) + count_red(open) + (if is_riichi {
        indicated_hits(wall, hand, open, true, num_dora_indicators)
    } else {
        0
    })
}

/// A number of dora as it is kept: all above 255 count as 255.
pub open spec fn capped(n: int) -> int {
    if n > 255 {
        255
    } else {
        n
    }
}

/// The tiles of some melds and one more.
proof fn lemma_melds_tiles_push(melds: Seq<Meld>, meld: Meld)
    ensures
        melds_tiles(melds.push(meld)) == melds_tiles(melds) + meld_tiles(meld),
{
    assert(melds.push(meld).drop_last() =~= melds);
}

/// All tiles of a winner that are not in its closed hand.
pub fn get_open_tiles(agari_kind: AgariKind, winning_tile: Tile, melds: &Vec<Meld>) -> (r: Vec<
    Tile,
>)
    ensures
        r@ == open_tiles(agari_kind, winning_tile, melds@),
{
    let mut r: Vec<Tile> = Vec::new();
    let mut i: usize = 0;
    while i < melds.len()
        invariant
            i <= melds.len(),
            r@ == melds_tiles(melds@.take(i as int)),
        decreases melds.len() - i,
    {
        proof {
            assert(melds@.take(i as int + 1) =~= melds@.take(i as int).push(melds@[i as int]));
            lemma_melds_tiles_push(melds@.take(i as int), melds@[i as int]);
        }
        match melds[i] {
            Meld::Chii(m) => {
                r.push(m.own[0]);
                r.push(m.own[1]);
                r.push(m.called);
            },
            Meld::Pon(m) => {
                r.push(m.own[0]);
                r.push(m.own[1]);
                r.push(m.called);
            },
            Meld::Kakan(m) => {
                r.push(m.pon.own[0]);
                r.push(m.pon.own[1]);
                r.push(m.pon.called);
                r.push(m.added);
            },
            Meld::Daiminkan(m) => {
                r.push(m.own[0]);
                r.push(m.own[1]);
                r.push(m.own[2]);
                r.push(m.called);
            },
            Meld::Ankan(m) => {
                r.push(m.own[0]);
                r.push(m.own[1]);
                r.push(m.own[2]);
                r.push(m.own[3]);
            },
        }
        i += 1;
    }
    assert(melds@.take(melds.len() as int) =~= melds@);
    if let AgariKind::Ron = agari_kind {
        r.push(winning_tile);
    }
    r
}

/// `a + b`, but no more than 255.
fn add_capped(a: u8, b: usize) -> (r: u8)
    ensures
        r == capped(a + b),
{
    if b >= 255 || a as usize + b > 255 {
        255
    } else {
        a + (b as u8)
    }
}

/// The number of tiles of the normal kind of `tile` among `tiles`.
fn count_of_kind(tiles: &Vec<Tile>, tile: Tile) -> (r: usize)
    ensures
        r == count_kind(tiles@, tile.kind()),
{
    let kind: u8 = tile.normal_encoding();
    let mut n: usize = 0;
    let mut i: usize = 0;
    while i < tiles.len()
        invariant
            i <= tiles.len(),
            kind == tile.kind(),
            n <= i,
            n == count_kind(tiles@.take(i as int), kind as int),
        decreases tiles.len() - i,
    {
        proof {
            assert(tiles@.take(i as int + 1).drop_last() =~= tiles@.take(i as int));
        }
        if tiles[i].normal_encoding() == kind {
            n += 1;
        }
        i += 1;
    }
    assert(tiles@.take(tiles.len() as int) =~= tiles@);
    n
}

/// The number of red fives among `tiles`.
fn count_reds(tiles: &Vec<Tile>) -> (r: usize)
    ensures
        r == count_red(tiles@),
{
    let mut n: usize = 0;
    let mut i: usize = 0;
    while i < tiles.len()
        invariant
            i <= tiles.len(),
            n <= i,
            n == count_red(tiles@.take(i as int)),
        decreases tiles.len() - i,
    {
        proof {
            assert(tiles@.take(i as int + 1).drop_last() =~= tiles@.take(i as int));
        }
        if tiles[i].is_red() {
            n += 1;
        }
        i += 1;
    }
    assert(tiles@.take(tiles.len() as int) =~= tiles@);
    n
}

/// A count of tiles is not negative.
proof fn lemma_count_not_negative(tiles: Seq<Tile>, kind: int)
    ensures
        count_kind(tiles, kind) >= 0,
        count_red(tiles) >= 0,
    decreases tiles.len(),
{
    if tiles.len() > 0 {
        lemma_count_not_negative(tiles.drop_last(), kind);
    }
}

/// The number of tiles of the closed hand and among `open` that the first
/// `n` indicators, or the tiles under them, make dora; no more than 255.
fn count_indicated(wall: &Wall, hand: &TileSet37, open: &Vec<Tile>, under: bool, n: u8) -> (r: u8)
    requires
        n <= 5,
    ensures
        r == capped(indicated_hits(*wall, *hand, open@, under, n as int)),
        indicated_hits(*wall, *hand, open@, under, n as int) >= 0,
{
    let mut hits: u8 = 0;
    let mut i: u8 = 0;
    while i < n
        invariant
            i <= n <= 5,
            hits == capped(indicated_hits(*wall, *hand, open@, under, i as int)),
            indicated_hits(*wall, *hand, open@, under, i as int) >= 0,
        decreases n - i,
    {
        let indicator = if under {
            ura_dora_indicator(wall, i as usize)
        } else {
            dora_indicator(wall, i as usize)
        };
        let dora = indicator.indicated_dora();
        let in_hand: u8 = hand.count_normal(dora);
        let in_open: usize = count_of_kind(open, dora);
        proof {
            lemma_count_not_negative(open@, dora.kind());
        }
        hits = add_capped(add_capped(hits, in_hand as usize), in_open);
        i += 1;
    }
    hits
}

/// The number of dora of a winner with closed hand `hand` and the other
/// tiles `open`, with `num_dora_indicators` indicators revealed; no more
/// than 255.
pub fn count_doras(
    hand: &TileSet37,
    open: &Vec<Tile>,
    num_dora_indicators: u8,
    wall: &Wall,
    is_riichi: bool,
) -> (r: u8)
    requires
        num_dora_indicators <= 5,
    ensures
        r == capped(dora_total(*wall, *hand, open@, num_dora_indicators as int, is_riichi)),
{
    let mut hits: u8 = count_indicated(wall, hand, open, false, num_dora_indicators);
    let red_m = Tile::from_encoding(34);
    let red_p = Tile::from_encoding(35);
    let red_s = Tile::from_encoding(36);
    if let Some(t) = red_m {
        hits = add_capped(hits, hand.count(t) as usize);
    }
    if let Some(t) = red_p {
        hits = add_capped(hits, hand.count(t) as usize);
    }
    if let Some(t) = red_s {
        hits = add_capped(hits, hand.count(t) as usize);
    }
    proof {
        lemma_count_not_negative(open@, 0);
    }
    hits = add_capped(hits, count_reds(open));
    if is_riichi {
        let under: u8 = count_indicated(wall, hand, open, true, num_dora_indicators);
        hits = add_capped(hits, under as usize);
    }
    hits
}

} // verus!
