//! The state of a round and what players do in it.

use vstd::prelude::*;
use crate::meld::Meld;
use crate::player::Player;
use crate::tile::Tile;
use crate::tile_set::TileSet37;

verus! {

/// Points, held or moved.
pub type GamePoints = i64;

/// The stake that a player puts down when declaring riichi.
pub const RIICHI_POT: GamePoints = 1000;

/// The number of tiles that can be drawn in a round, the deal included: all
/// but the fourteen of the dead wall.
pub const MAX_NUM_DRAWS: u8 = 122;

/// The most points that a player can hold or that can lie in the pot, in
/// either direction. Sums of a few such amounts stay within machine range.
pub const MAX_POINTS: GamePoints = 1_000_000_000_000;

/// The shuffled tiles of a round. Tiles are drawn from the front in order;
/// the last fourteen form the dead wall.
pub type Wall = [Tile; 136];

/// The place in the wall of the `i`-th tile drawn after a kan.
pub open spec fn kan_draw_index(i: int) -> int {
    if i == 0 {
        134
    } else if i == 1 {
        135
    } else if i == 2 {
        132
    } else {
        133
    }
}

/// The `i`-th tile drawn after a kan, for `i` in `0..=3`.
pub fn kan_draw(wall: &Wall, i: usize) -> (r: Tile)
    requires
        i < 4,
    ensures
        r == wall@[kan_draw_index(i as int)],
{
    if i == 0 {
        wall[134]
    } else if i == 1 {
        wall[135]
    } else if i == 2 {
        wall[132]
    } else {
        wall[133]
    }
}

/// The most dora indicators that a round can reveal.
pub const MAX_DORA_INDICATORS: u8 = 5;

/// The place in the wall of the `i`-th dora indicator.
pub open spec fn dora_indicator_index(i: int) -> int {
    130 - 2 * i
}

/// The place in the wall of the tile under the `i`-th dora indicator.
pub open spec fn ura_dora_indicator_index(i: int) -> int {
    131 - 2 * i
}

/// The `i`-th dora indicator, for `i` in `0..=4`.
pub fn dora_indicator(wall: &Wall, i: usize) -> (r: Tile)
    requires
        i < 5,
    ensures
        r == wall@[dora_indicator_index(i as int)],
{
    wall[130 - 2 * i]
}

/// The tile under the `i`-th dora indicator, for `i` in `0..=4`.
pub fn ura_dora_indicator(wall: &Wall, i: usize) -> (r: Tile)
    requires
        i < 5,
    ensures
        r == wall@[ura_dora_indicator_index(i as int)],
{
    wall[131 - 2 * i]
}

/// One discarded tile.
#[derive(Clone, Copy, Debug, PartialEq, Eq)]
pub struct Discard {
    pub tile: Tile,
    /// The player who called the tile, or the discarding player if none did.
    pub called_by: Player,
    pub declares_riichi: bool,
    /// Whether the tile is the one just drawn.
    pub is_tsumokiri: bool,
}

/// What the player in turn does.
#[derive(Clone, Copy, Debug, PartialEq, Eq)]
pub enum Action {
    Discard(Discard),
    Ankan(Tile),
    Kakan(Tile),
    TsumoAgari(Tile),
    AbortNineKinds,
}

impl Action {
    /// The tile that the action is about.
    pub open spec fn tile_spec(self) -> Option<Tile> {
        match self {
            Action::Discard(d) => Some(d.tile),
            Action::Ankan(t) => Some(t),
            Action::Kakan(t) => Some(t),
            Action::TsumoAgari(t) => Some(t),
            Action::AbortNineKinds => None,
        }
    }

    /// The tile that the action is about.
    pub fn tile(&self) -> (r: Option<Tile>)
        ensures
            r == self.tile_spec(),
    {
        match self {
            Action::Discard(d) => Some(d.tile),
            Action::Ankan(t) => Some(*t),
            Action::Kakan(t) => Some(*t),
            Action::TsumoAgari(t) => Some(*t),
            Action::AbortNineKinds => None,
        }
    }
}

/// What another player does in answer to an action.
#[derive(Clone, Copy, Debug, PartialEq, Eq)]
pub enum Reaction {
    Chii(Tile, Tile),
    Pon(Tile, Tile),
    Daiminkan,
    RonAgari,
}

/// How a round is won: on the winner's own draw, or on another player's tile.
#[derive(Clone, Copy, Debug, PartialEq, Eq)]
pub enum AgariKind {
    Tsumo,
    Ron,
}

/// Why a round ends without a win.
#[derive(Clone, Copy, Debug, PartialEq, Eq)]
pub enum AbortReason {
    WallExhausted,
    NagashiMangan,
    NineKinds,
    FourKan,
    FourWind,
    FourRiichi,
    DoubleRon,
    TripleRon,
}

/// How an action was resolved.
#[derive(Clone, Copy, Debug, PartialEq, Eq)]
pub enum ActionResult {
    Pass,
    CalledBy(Player),
    Daiminkan,
    Agari(AgariKind),
    Abort(AbortReason),
}

/// Where a player stands with riichi: whether it is under riichi, whether
/// it can still win within the first turn after declaring, and whether it
/// declared in the first go-around.
#[derive(Clone, Copy, Debug, PartialEq, Eq)]
pub struct RiichiFlags {
    pub is_active: bool,
    pub is_ippatsu: bool,
    pub is_double: bool,
}

/// Why a player may not win on another player's tile: it has discarded a
/// tile that it waits for, it has let one pass since its last discard, or
/// it has let one pass under riichi.
#[derive(Clone, Copy, Debug, PartialEq, Eq)]
pub struct FuritenFlags {
    pub by_discard: bool,
    pub miss_temporary: bool,
    pub miss_permanent: bool,
}

/// The part of the state of a round that a transition replaces.
#[derive(Clone, Copy, Debug, PartialEq, Eq)]
pub struct StateCore {
    /// The number of turns so far.
    pub seq: u8,
    /// The player in turn.
    pub action_player: Player,
    /// The number of tiles drawn from the front of the wall, the deal included.
    pub num_drawn_head: u8,
    /// The number of tiles drawn after a kan.
    pub num_drawn_tail: u8,
    pub num_dora_indicators: u8,
    /// The tile just drawn, if one was drawn this turn.
    pub draw: Option<Tile>,
    /// The meld that began this turn, if one did.
    pub incoming_meld: Option<Meld>,
    pub furiten: [FuritenFlags; 4],
    pub riichi: [RiichiFlags; 4],
}

/// The state of a round.
#[derive(Clone, Debug)]
pub struct State {
    pub core: StateCore,
    pub melds: [Vec<Meld>; 4],
    pub closed_hands: [TileSet37; 4],
    pub discards: [Vec<Discard>; 4],
}

/// Which round of a game.
#[derive(Clone, Copy, Debug, PartialEq, Eq)]
pub struct RoundId {
    /// The number of rounds played with a new button.
    pub kyoku: u8,
    /// The number of repeats of this round.
    pub honba: u8,
}

impl RoundId {
    /// The player who has the button.
    pub fn button(&self) -> (r: Player)
        ensures
            r.index() == self.kyoku % 4,
    {
        Player::new(self.kyoku % 4)
    }

    /// The next round after a round that counts as a repeat: the button
    /// stays if `renchan`, and moves on if not.
    pub fn next_honba(&self, renchan: bool) -> (r: RoundId)
        requires
            !renchan ==> self.kyoku < 255,
            self.honba < 255,
        ensures
            r.kyoku == self.kyoku + (if renchan {
                0int
            } else {
                1int
            }),
            r.honba == self.honba + 1,
    {
        RoundId {
            kyoku: if renchan {
                self.kyoku
            } else {
                self.kyoku + 1
            },
            honba: self.honba + 1,
        }
    }

    /// The next round with a new button and no repeats.
    pub fn next_kyoku(&self) -> (r: RoundId)
        requires
            self.kyoku < 255,
        ensures
            r.kyoku == self.kyoku + 1,
            r.honba == 0,
    {
        RoundId { kyoku: self.kyoku + 1, honba: 0 }
    }
}

/// How a round begins.
#[derive(Clone, Debug)]
pub struct RoundBegin {
    pub round_id: RoundId,
    pub wall: Wall,
    /// The stakes left on the table by earlier rounds.
    pub pot: GamePoints,
    pub points: [GamePoints; 4],
}

impl RoundBegin {
    /// The round can be followed by another, and the points are in range.
    pub open spec fn wf(self) -> bool {
        &&& self.round_id.kyoku < 255
        &&& self.round_id.honba < 255
        &&& 0 <= self.pot <= MAX_POINTS
        &&& forall|i: int| 0 <= i < 4 ==> -MAX_POINTS <= #[trigger] self.points@[i] <= MAX_POINTS
    }

    /// Whether the round can be followed by another and the points are in range.
    pub fn is_wf(&self) -> (r: bool)
        ensures
            r == self.wf(),
    {
        if !(self.round_id.kyoku < 255 && self.round_id.honba < 255 && 0 <= self.pot && self.pot
            <= MAX_POINTS) {
            return false;
        }
        let mut i: usize = 0;
        while i < 4
            invariant
                i <= 4,
                forall|k: int|
                    0 <= k < i ==> -MAX_POINTS <= #[trigger] self.points@[k] <= MAX_POINTS,
            decreases 4 - i,
        {
            if !(-MAX_POINTS <= self.points[i] && self.points[i] <= MAX_POINTS) {
                return false;
            }
            i += 1;
        }
        true
    }
}

/// What decides the value of a winning hand.
#[derive(Clone, Copy, Debug, PartialEq, Eq)]
pub struct Scoring {
    pub yaku_fan: u8,
    pub yakuman_fan: u8,
    pub dora_hits: u8,
    pub fu: u8,
}

/// One way to read and score a winning hand.
#[derive(Clone, Copy, Debug, PartialEq, Eq)]
pub struct AgariCandidate {
    pub scoring: Scoring,
}

/// The win of one player.
#[derive(Clone, Copy, Debug, PartialEq, Eq)]
pub struct AgariResult {
    pub winner: Player,
    pub contributor: Player,
    pub liable_player: Player,
    pub points_delta: [GamePoints; 4],
    pub details: AgariCandidate,
}

/// How a round ended.
#[derive(Clone, Copy, Debug, PartialEq, Eq)]
pub struct RoundEnd {
    pub round_result: ActionResult,
    pub pot: GamePoints,
    pub points: [GamePoints; 4],
    pub points_delta: [GamePoints; 4],
    pub renchan: bool,
    pub next_round_id: Option<RoundId>,
    pub agari_result: [Option<AgariResult>; 4],
}

} // verus!
