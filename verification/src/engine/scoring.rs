//! The value of a winning hand in points, and who pays it.

use vstd::prelude::*;
use crate::analysis::WaitingInfo;
use crate::model::{Action, AgariCandidate, GamePoints, RoundBegin, RoundId, Scoring, State};
use crate::player::Player;

verus! {

/// The most basic points that a hand can be worth: 255 yakuman.
pub const MAX_BASIC_POINTS: GamePoints = 2_040_000;

/// Finds the ways to score a hand. The engine asks; it does not decide
/// which yaku there are.
pub trait Scorer {
    /// All ways to read and score the hand of `winner`, who waits as `wait`
    /// says and wins by `action` of `contributor`. Empty if the hand does
    /// not win or is worth nothing. A win by self-draw is asked about with
    /// the winner as its own contributor: the winner is then the player in
    /// turn, and the action its declaration on the drawn tile.
    fn agari_candidates(
        &self,
        begin: &RoundBegin,
        state: &State,
        wait: &WaitingInfo,
        action: Action,
        winner: Player,
        contributor: Player,
    ) -> Vec<AgariCandidate>
        requires
            winner == contributor ==> winner == state.core.action_player && action is TsumoAgari
                && state.core.draw == action.tile_spec(),
    ;
}

impl Scoring {
    /// The basic points of a hand: 8000 for each yakuman; else by the fan of
    /// yaku and dora together, 8000 from 13 fan, 6000 from 11, 4000 from 8,
    /// 3000 from 6, 2000 for 5, and below that the fu times two to the power
    /// of fan plus two, but no more than 2000.
    pub open spec fn basic_points_spec(self) -> int {
        let fan = self.yaku_fan + self.dora_hits;
        if self.yakuman_fan > 0 {
            8000 * self.yakuman_fan
        } else if fan >= 13 {
            8000
        } else if fan >= 11 {
            6000
        } else if fan >= 8 {
            4000
        } else if fan >= 6 {
            3000
        } else if fan >= 5 {
            2000
        } else {
            let doubled = self.fu * (if fan == 0 {
                4int
            } else if fan == 1 {
                8
            } else if fan == 2 {
                16
            } else if fan == 3 {
                32
            } else {
                64
            });
            if doubled > 2000 {
                2000
            } else {
                doubled
            }
        }
    }

    /// The basic points of a hand.
    pub fn basic_points(&self) -> (r: GamePoints)
        ensures
            r == self.basic_points_spec(),
            0 <= r <= MAX_BASIC_POINTS,
    {
        let fan: u16 = self.yaku_fan as u16 + self.dora_hits as u16;
        if self.yakuman_fan > 0 {
            8000 * (self.yakuman_fan as GamePoints)
        } else if fan >= 13 {
            8000
        } else if fan >= 11 {
            6000
        } else if fan >= 8 {
            4000
        } else if fan >= 6 {
            3000
        } else if fan >= 5 {
            2000
        } else {
            let factor: GamePoints = if fan == 0 {
                4
            } else if fan == 1 {
                8
            } else if fan == 2 {
                16
            } else if fan == 3 {
                32
            } else {
                64
            };
            let doubled: GamePoints = (self.fu as GamePoints) * factor;
            if doubled > 2000 {
                2000
            } else {
                doubled
            }
        }
    }

    /// The same scoring with another number of dora.
    pub fn with_dora_hits(&self, dora_hits: u8) -> (r: Scoring)
        ensures
            r == (Scoring { dora_hits, ..*self }),
    {
        Scoring {
            yaku_fan: self.yaku_fan,
            yakuman_fan: self.yakuman_fan,
            dora_hits,
            fu: self.fu,
        }
    }
}

/// `x` rounded up to a multiple of 100.
pub open spec fn round_up_100(x: int) -> int {
    ((x + 99) / 100) * 100
}

/// What a repeat counter adds to each payment of a self-drawn win.
pub open spec fn honba_bonus(round_id: RoundId, take_pot: bool) -> int {
    if take_pot {
        100 * round_id.honba
    } else {
        0
    }
}

/// What `payer` pays to a winner by self-draw: the basic points, doubled if
/// either of the two has the button, rounded up to a multiple of 100, and
/// the repeat bonus.
#[verifier::opaque]
pub open spec fn tsumo_payment(
    round_id: RoundId,
    take_pot: bool,
    winner: int,
    payer: int,
    basic_points: int,
) -> int {
    let button = round_id.kyoku % 4;
    round_up_100(
        basic_points * (if winner == button || payer == button {
            2int
        } else {
            1int
        }),
    ) + honba_bonus(round_id, take_pot)
}

/// What the contributor pays to a winner on its discard: four times the
/// basic points, six times if the winner has the button, rounded up to a
/// multiple of 100, and three times the repeat bonus.
#[verifier::opaque]
pub open spec fn ron_payment(round_id: RoundId, take_pot: bool, winner: int, basic_points: int) -> int {
    let button = round_id.kyoku % 4;
    round_up_100(
        basic_points * (if winner == button {
            6int
        } else {
            4int
        }),
    ) + 3 * honba_bonus(round_id, take_pot)
}

/// What player `i` gets when `winner` wins a hand of `basic_points` basic
/// points from `contributor`, who is the winner itself for a self-drawn win.
pub open spec fn points_share(
    round_id: RoundId,
    take_pot: bool,
    winner: int,
    contributor: int,
    basic_points: int,
    i: int,
) -> int {
    if winner == contributor {
        if i == winner {
            tsumo_payment(round_id, take_pot, winner, (winner + 1) % 4, basic_points)
                + tsumo_payment(round_id, take_pot, winner, (winner + 2) % 4, basic_points)
                + tsumo_payment(round_id, take_pot, winner, (winner + 3) % 4, basic_points)
        } else {
            -tsumo_payment(round_id, take_pot, winner, i, basic_points)
        }
    } else if i == winner {
        ron_payment(round_id, take_pot, winner, basic_points)
    } else if i == contributor {
        -ron_payment(round_id, take_pot, winner, basic_points)
    } else {
        0
    }
}

/// What is paid for a win is paid between the players: the four shares add
/// up to nothing.
pub proof fn lemma_points_share_sum(
    round_id: RoundId,
    take_pot: bool,
    winner: int,
    contributor: int,
    basic_points: int,
)
    requires
        0 <= winner <= 3,
        0 <= contributor <= 3,
    ensures
        points_share(round_id, take_pot, winner, contributor, basic_points, 0) + points_share(
            round_id,
            take_pot,
            winner,
            contributor,
            basic_points,
            1,
        ) + points_share(round_id, take_pot, winner, contributor, basic_points, 2) + points_share(
            round_id,
            take_pot,
            winner,
            contributor,
            basic_points,
            3,
        ) == 0,
{
}

/// `x` rounded up to a multiple of 100.
fn round_up(x: GamePoints) -> (r: GamePoints)
    requires
        0 <= x <= 6 * MAX_BASIC_POINTS,
    ensures
        r == round_up_100(x as int),
        x <= r <= x + 99,
{
    ((x + 99) / 100) * 100
}

/// What `payer` pays to a winner by self-draw.
fn pay_tsumo(
    round_id: RoundId,
    take_pot: bool,
    winner: usize,
    payer: usize,
    basic_points: GamePoints,
) -> (r: GamePoints)
    requires
        0 <= basic_points <= MAX_BASIC_POINTS,
    ensures
        r == tsumo_payment(round_id, take_pot, winner as int, payer as int, basic_points as int),
        0 <= r <= 5_000_000,
{
    proof {
        reveal(tsumo_payment);
    }
    let button: usize = (round_id.kyoku % 4) as usize;
    let bonus: GamePoints = if take_pot {
        100 * (round_id.honba as GamePoints)
    } else {
        0
    };
    let factor: GamePoints = if winner == button || payer == button {
        2
    } else {
        1
    };
    round_up(basic_points * factor) + bonus
}

/// What the contributor pays to a winner on its discard.
fn pay_ron(round_id: RoundId, take_pot: bool, winner: usize, basic_points: GamePoints) -> (r:
    GamePoints)
    requires
        0 <= basic_points <= MAX_BASIC_POINTS,
    ensures
        r == ron_payment(round_id, take_pot, winner as int, basic_points as int),
        0 <= r <= 13_000_000,
{
    proof {
        reveal(ron_payment);
    }
    let button: usize = (round_id.kyoku % 4) as usize;
    let bonus: GamePoints = if take_pot {
        100 * (round_id.honba as GamePoints)
    } else {
        0
    };
    let factor: GamePoints = if winner == button {
        6
    } else {
        4
    };
    round_up(basic_points * factor) + 3 * bonus
}

/// The points that each player gets or pays for one win. Only the winner
/// who takes the pot is paid the repeat bonus.
pub fn distribute_points(
    round_id: RoundId,
    take_pot: bool,
    winner: Player,
    contributor: Player,
    basic_points: GamePoints,
) -> (r: [GamePoints; 4])
    requires
        0 <= basic_points <= MAX_BASIC_POINTS,
    ensures
        forall|i: int|
            0 <= i < 4 ==> #[trigger] r@[i] == points_share(
                round_id,
                take_pot,
                winner.index(),
                contributor.index(),
                basic_points as int,
                i,
            ),
        forall|i: int| 0 <= i < 4 ==> -40_000_000 <= #[trigger] r@[i] <= 40_000_000,
{
    let w: usize = winner.to_usize();
    let c: usize = contributor.to_usize();
    let mut delta: [GamePoints; 4] = [0; 4];
    if w == c {
        let right: usize = (w + 1) % 4;
        let across: usize = (w + 2) % 4;
        let left: usize = (w + 3) % 4;
        let from_right: GamePoints = pay_tsumo(round_id, take_pot, w, right, basic_points);
        let from_across: GamePoints = pay_tsumo(round_id, take_pot, w, across, basic_points);
        let from_left: GamePoints = pay_tsumo(round_id, take_pot, w, left, basic_points);
        delta[right] = -from_right;
        delta[across] = -from_across;
        delta[left] = -from_left;
        delta[w] = from_right + from_across + from_left;
    } else {
        let payment: GamePoints = pay_ron(round_id, take_pot, w, basic_points);
        delta[w] = payment;
        delta[c] = -payment;
    }
    delta
}

} // verus!
