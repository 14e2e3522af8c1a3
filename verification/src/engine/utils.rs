//! Questions about players, melds and the state of a round that the rules
//! ask again and again.

use vstd::prelude::*;
use crate::decomp::{RegularWait, WaitShape, wait_shapes};
use crate::group::HandGroup;
use crate::meld::Meld;
use crate::model::{
    Action,
    ActionResult,
    Discard,
    GamePoints,
    MAX_NUM_DRAWS,
    State,
    StateCore,
};
use crate::player::Player;
use crate::tile::Tile;

verus! {

/// The four players in turn order.
pub fn all_players() -> (r: [Player; 4])
    ensures
        forall|i: int| 0 <= i < 4 ==> (#[trigger] r@[i]).index() == i,
{
    [Player::new(0), Player::new(1), Player::new(2), Player::new(3)]
}

/// The next player in turn order.
pub fn player_succ(player: Player) -> (r: Player)
    ensures
        r.index() == (player.index() + 1) % 4,
{
    Player::new(1).wrapping_add(player)
}

/// The player across the table.
pub fn player_oppo(player: Player) -> (r: Player)
    ensures
        r.index() == (player.index() + 2) % 4,
{
    Player::new(2).wrapping_add(player)
}

/// The previous player in turn order.
pub fn player_pred(player: Player) -> (r: Player)
    ensures
        r.index() == (player.index() + 3) % 4,
{
    Player::new(3).wrapping_add(player)
}

/// The three other players, in turn order after `player`.
pub fn other_players_after(player: Player) -> (r: [Player; 3])
    ensures
        forall|i: int| 0 <= i < 3 ==> (#[trigger] r@[i]).index() == (player.index() + 1 + i) % 4,
{
    [
        Player::new(1).wrapping_add(player),
        Player::new(2).wrapping_add(player),
        Player::new(3).wrapping_add(player),
    ]
}

/// Whether discarding `discard` right after calling `meld` is a swap call:
/// the discarded tile could have stood in the meld in place of the called
/// one. After a run called at its low end that is also the tile above the
/// run, and after a run called at its high end the tile below it.
pub open spec fn swap_call_forbidden(meld: Meld, discard: Tile) -> bool {
    match meld {
        Meld::Chii(chii) => chii.called.kind() == discard.kind() || (chii.dir == 0
            && chii.own@[1].shifted(1) == Some(discard.kind())) || (chii.dir == 2
            && chii.min.shifted(-1) == Some(discard.kind())),
        Meld::Pon(pon) => pon.called.kind() == discard.kind(),
        _ => false,
    }
}

/// Whether two optional tiles are the same.
fn same_tile(a: Option<Tile>, b: Tile) -> (r: bool)
    ensures
        r == (a == Some(b)),
{
    match a {
        Some(t) => t == b,
        None => false,
    }
}

/// Whether discarding `discard` right after calling `meld` is a swap call.
pub fn is_forbidden_swap_call(meld: Meld, discard: Tile) -> (r: bool)
    ensures
        r == swap_call_forbidden(meld, discard),
{
    let normal = discard.to_normal();
    match meld {
        Meld::Chii(chii) => {
            let called = chii.called.to_normal();
            let above = chii.own[1].succ();
            let below = chii.min.pred();
            proof {
                if called.code() == normal.code() {
                    Tile::lemma_code_injective(called, normal);
                }
                if above.is_some() && above.unwrap().code() == normal.code() {
                    Tile::lemma_code_injective(above.unwrap(), normal);
                }
                if below.is_some() && below.unwrap().code() == normal.code() {
                    Tile::lemma_code_injective(below.unwrap(), normal);
                }
            }
            called == normal || (chii.dir() == 0 && same_tile(above, normal)) || (chii.dir() == 2
                && same_tile(below, normal))
        },
        Meld::Pon(pon) => {
            let called = pon.called.to_normal();
            proof {
                if called.code() == normal.code() {
                    Tile::lemma_code_injective(called, normal);
                }
            }
            called == normal
        },
        _ => false,
    }
}

/// Whether a wait counts three tiles of normal kind `kind` as a group of its own.
pub open spec fn has_koutsu_of(w: WaitShape, kind: int) -> bool {
    exists|j: int| 0 <= j < w.groups.len() && #[trigger] w.groups[j] == HandGroup::Koutsu(
        Tile::of_code(kind),
    )
}

/// Whether a player under riichi may make a concealed kan of `ankan`: every
/// way to read the waiting hand has the three tiles held before the draw as
/// a group of three of a kind.
pub open spec fn ankan_ok_under_riichi(decomps: Seq<WaitShape>, ankan: Tile) -> bool {
    forall|i: int| 0 <= i < decomps.len() ==> has_koutsu_of(#[trigger] decomps[i], ankan.kind())
}

/// Whether a player under riichi may make a concealed kan of `ankan`.
pub fn is_ankan_ok_under_riichi(decomps: &[RegularWait], ankan: Tile) -> (r: bool)
    ensures
        r == ankan_ok_under_riichi(wait_shapes(decomps@), ankan),
{
    let normal = ankan.to_normal();
    let mut i: usize = 0;
    while i < decomps.len()
        invariant
            i <= decomps.len(),
            normal == Tile::of_code(ankan.kind()),
            forall|k: int|
                0 <= k < i ==> has_koutsu_of(#[trigger] wait_shapes(decomps@)[k], ankan.kind()),
        decreases decomps.len() - i,
    {
        let groups = &decomps[i].groups;
        let mut found: bool = false;
        let mut j: usize = 0;
        while j < groups.len()
            invariant
                j <= groups.len(),
                found == exists|k: int|
                    0 <= k < j && #[trigger] groups@[k] == HandGroup::Koutsu(normal),
            decreases groups.len() - j,
        {
            match groups[j] {
                HandGroup::Koutsu(t) => {
                    if t == normal {
                        found = true;
                    }
                },
                HandGroup::Shuntsu(_) => {},
            }
            j += 1;
        }
        if !found {
            assert(!has_koutsu_of(wait_shapes(decomps@)[i as int], ankan.kind()));
            return false;
        }
        i += 1;
    }
    true
}

/// The number of the first `n` players who are under riichi.
pub open spec fn active_riichi_upto(core: StateCore, n: int) -> int
    decreases n,
{
    if n <= 0 {
        0
    } else {
        active_riichi_upto(core, n - 1) + (if core.riichi@[n - 1].is_active {
            1int
        } else {
            0int
        })
    }
}

/// The number of players who are under riichi.
pub fn num_active_riichi(state: &State) -> (r: usize)
    ensures
        r == active_riichi_upto(state.core, 4),
        r <= 4,
{
    let mut n: usize = 0;
    let mut i: usize = 0;
    while i < 4
        invariant
            i <= 4,
            n <= i,
            n == active_riichi_upto(state.core, i as int),
        decreases 4 - i,
    {
        if state.core.riichi[i].is_active {
            n += 1;
        }
        i += 1;
    }
    n
}

/// No player has had a second turn and no tile has been called.
pub open spec fn init_abortable(state: State) -> bool {
    state.core.seq <= 3 && forall|i: int| 0 <= i < 4 ==> (#[trigger] state.melds@[i])@.len() == 0
}

/// Whether the round is still in its first go-around with no meld made.
/// Only then can a player abort on nine terminal kinds, and only then is a
/// riichi a double riichi.
pub fn is_init_abortable(state: &State) -> (r: bool)
    ensures
        r == init_abortable(*state),
{
    state.core.seq <= 3 && state.melds[0].len() == 0 && state.melds[1].len() == 0
        && state.melds[2].len() == 0 && state.melds[3].len() == 0
}

/// Whether the player in turn has its first chance of the round, with no
/// meld made by anyone.
pub fn is_first_chance(state: &State) -> (r: bool)
    ensures
        r == init_abortable(*state),
{
    is_init_abortable(state)
}

/// Every tile that can be drawn has been drawn.
pub open spec fn wall_exhausted(core: StateCore) -> bool {
    core.num_drawn_head + core.num_drawn_tail == MAX_NUM_DRAWS
}

/// Whether no tile is left to draw.
pub fn is_wall_exhausted(state: &State) -> (r: bool)
    ensures
        r == wall_exhausted(state.core),
{
    state.core.num_drawn_head as u16 + state.core.num_drawn_tail as u16 == MAX_NUM_DRAWS as u16
}

/// Whether the tile in hand is the last that can be drawn.
pub fn is_last_draw(state: &State) -> (r: bool)
    ensures
        r == wall_exhausted(state.core),
{
    is_wall_exhausted(state)
}

/// All discards of `player` are terminals or honors and none was called.
pub open spec fn nagashi_mangan(state: State, player: Player) -> bool {
    forall|i: int|
        0 <= i < state.discards@[player.index()]@.len() ==> {
            let d = #[trigger] state.discards@[player.index()]@[i];
            Tile::kind_is_terminal(d.tile.kind()) && d.called_by == player
        }
}

/// Whether `player` has discarded nothing but terminals and honors and had
/// none of them called. Meant for a round whose wall is exhausted.
pub fn is_nagashi_mangan(state: &State, player: Player) -> (r: bool)
    ensures
        r == nagashi_mangan(*state, player),
{
    let discards = &state.discards[player.to_usize()];
    let mut i: usize = 0;
    while i < discards.len()
        invariant
            i <= discards.len(),
            discards@ == state.discards@[player.index()]@,
            forall|k: int|
                0 <= k < i ==> Tile::kind_is_terminal((#[trigger] discards@[k]).tile.kind())
                    && discards@[k].called_by == player,
        decreases discards.len() - i,
    {
        if !(discards[i].tile.is_terminal() && discards[i].called_by == player) {
            return false;
        }
        i += 1;
    }
    true
}

/// Some player has discarded nothing but terminals and honors and had none
/// of them called.
pub open spec fn any_nagashi_mangan(state: State) -> bool {
    exists|i: int| 0 <= i < 4 && nagashi_mangan(state, #[trigger] Player::of_index(i))
}

/// Whether some player has discarded nothing but terminals and honors and
/// had none of them called.
pub fn is_any_player_nagashi_mangan(state: &State) -> (r: bool)
    ensures
        r == any_nagashi_mangan(*state),
{
    let players = all_players();
    let mut i: usize = 0;
    while i < 4
        invariant
            i <= 4,
            forall|k: int| 0 <= k < 4 ==> (#[trigger] players@[k]).index() == k,
            forall|k: int| 0 <= k < i ==> !nagashi_mangan(*state, #[trigger] Player::of_index(k)),
        decreases 4 - i,
    {
        proof {
            players@[i as int].lemma_index_of();
        }
        if is_nagashi_mangan(state, players[i]) {
            return true;
        }
        i += 1;
    }
    false
}

/// Player `i` has discarded `tile` and nothing else.
pub open spec fn only_discard_is(state: State, i: int, tile: Tile) -> bool {
    state.discards@[i]@.len() == 1 && state.discards@[i]@[0].tile == tile
}

/// The fourth player in a row opens the round with the same wind.
pub open spec fn aborted_four_wind(state: State, action: Action) -> bool {
    match action {
        Action::Discard(discard) => {
            &&& init_abortable(state)
            &&& state.core.seq == 3
            &&& 27 <= discard.tile.kind() <= 30
            &&& forall|i: int| 0 <= i < 3 ==> #[trigger] only_discard_is(state, i, discard.tile)
        },
        _ => false,
    }
}

/// Whether the round is aborted because all four players have opened it
/// with the same wind.
pub fn is_aborted_four_wind(state: &State, action: Action) -> (r: bool)
    ensures
        r == aborted_four_wind(*state, action),
{
    if let Action::Discard(discard) = action {
        if !(is_init_abortable(state) && state.core.seq == 3 && discard.tile.is_wind()) {
            return false;
        }
        let mut i: usize = 0;
        while i < 3
            invariant
                i <= 3,
                action == Action::Discard(discard),
                init_abortable(*state),
                state.core.seq == 3,
                27 <= discard.tile.kind() <= 30,
                forall|k: int| 0 <= k < i ==> #[trigger] only_discard_is(*state, k, discard.tile),
            decreases 3 - i,
        {
            let discards = &state.discards[i];
            if !(discards.len() == 1 && discards[0].tile == discard.tile) {
                assert(!only_discard_is(*state, i as int, discard.tile));
                return false;
            }
            i += 1;
        }
        return true;
    }
    false
}

/// The number of kans among melds, counted up to 5.
pub open spec fn count_kans(melds: Seq<Meld>) -> int
    decreases melds.len(),
{
    if melds.len() == 0 {
        0
    } else {
        let rest = count_kans(melds.drop_last());
        if melds.last().is_kan_spec() && rest < 5 {
            rest + 1
        } else {
            rest
        }
    }
}

/// The number of kans of the first `n` players, counted up to 5.
pub open spec fn count_all_kans(state: State, n: int) -> int
    decreases n,
{
    if n <= 0 {
        0
    } else {
        let sum = count_all_kans(state, n - 1) + count_kans(state.melds@[n - 1]@);
        if sum > 5 {
            5
        } else {
            sum
        }
    }
}

/// A kan is made when four kans lie on the table, or three that are not all
/// of the player in turn.
pub open spec fn aborted_four_kan(state: State, action: Action, tentative_result: ActionResult) -> bool {
    (action is Kakan || action is Ankan || tentative_result is Daiminkan) && (count_all_kans(
        state,
        4,
    ) == 4 || (count_all_kans(state, 4) == 3 && count_kans(
        state.melds@[state.core.action_player.index()]@,
    ) != 3))
}

/// The number of kans among melds, counted up to 5.
fn num_kans(melds: &Vec<Meld>) -> (r: u8)
    ensures
        r == count_kans(melds@),
        r <= 5,
{
    let mut n: u8 = 0;
    let mut i: usize = 0;
    while i < melds.len()
        invariant
            i <= melds.len(),
            n <= 5,
            n == count_kans(melds@.take(i as int)),
        decreases melds.len() - i,
    {
        proof {
            assert(melds@.take(i as int + 1).drop_last() =~= melds@.take(i as int));
        }
        if melds[i].is_kan() && n < 5 {
            n += 1;
        }
        i += 1;
    }
    assert(melds@.take(melds.len() as int) =~= melds@);
    n
}

/// Whether the round is aborted on a kan because of the kans already made:
/// four of them, or three that are not all of the player in turn.
pub fn is_aborted_four_kan(state: &State, action: Action, tentative_result: ActionResult) -> (r:
    bool)
    ensures
        r == aborted_four_kan(*state, action, tentative_result),
{
    let pp = state.core.action_player.to_usize();
    if matches!(action, Action::Kakan(_)) || matches!(action, Action::Ankan(_)) || matches!(
        tentative_result,
        ActionResult::Daiminkan
    ) {
        let mut total: u8 = 0;
        let mut i: usize = 0;
        while i < 4
            invariant
                i <= 4,
                total <= 5,
                total == count_all_kans(*state, i as int),
            decreases 4 - i,
        {
            let n: u8 = num_kans(&state.melds[i]);
            total = if total + n > 5 {
                5
            } else {
                total + n
            };
            i += 1;
        }
        let own: u8 = num_kans(&state.melds[pp]);
        if total == 4 || (total == 3 && own != 3) {
            return true;
        }
    }
    false
}

/// A fourth player declares riichi while three are under riichi.
pub open spec fn aborted_four_riichi(state: State, action: Action) -> bool {
    match action {
        Action::Discard(discard) => discard.declares_riichi && active_riichi_upto(state.core, 4)
            == 3,
        _ => false,
    }
}

/// Whether the round is aborted because the fourth player has declared
/// riichi. The declaring player is not yet counted as under riichi.
pub fn is_aborted_four_riichi(state: &State, action: Action) -> (r: bool)
    ensures
        r == aborted_four_riichi(*state, action),
{
    match action {
        Action::Discard(discard) => discard.declares_riichi && num_active_riichi(state) == 3,
        _ => false,
    }
}

/// The penalty that the players who are not waiting share when the wall is
/// exhausted.
pub const NO_WAIT_PENALTY_TOTAL: GamePoints = 3000;

/// The sum of the four entries of `waiting`.
pub open spec fn num_waiting(waiting: Seq<u8>) -> int {
    waiting[0] + waiting[1] + waiting[2] + waiting[3]
}

/// What one player gets when the wall is exhausted and `n` players are
/// waiting: the players who are not waiting pay 3000 in equal parts, and
/// the waiting players share it equally. Nothing moves if all are waiting
/// or none is.
pub open spec fn wall_exhausted_share(n: int, is_waiting: bool) -> int {
    if n == 1 {
        if is_waiting {
            3000
        } else {
            -1000
        }
    } else if n == 2 {
        if is_waiting {
            1500
        } else {
            -1500
        }
    } else if n == 3 {
        if is_waiting {
            1000
        } else {
            -3000
        }
    } else {
        0
    }
}

/// The points that move when the wall is exhausted, given for each player
/// whether it is waiting (1) or not (0).
pub fn calc_wall_exhausted_delta(waiting: [u8; 4]) -> (r: [GamePoints; 4])
    ensures
        forall|i: int|
            0 <= i < 4 ==> #[trigger] r@[i] == wall_exhausted_share(
                num_waiting(waiting@),
                waiting@[i] > 0,
            ),
{
    let no_wait: GamePoints = NO_WAIT_PENALTY_TOTAL;
    let n: u16 = waiting[0] as u16 + waiting[1] as u16 + waiting[2] as u16 + waiting[3] as u16;
    let (down, up): (GamePoints, GamePoints) = if n == 1 {
        (-no_wait / 3, no_wait / 1)
    } else if n == 2 {
        (-no_wait / 2, no_wait / 2)
    } else if n == 3 {
        (-no_wait / 1, no_wait / 3)
    } else {
        (0, 0)
    };
    let mut r: [GamePoints; 4] = [0; 4];
    let mut i: usize = 0;
    while i < 4
        invariant
            i <= 4,
            n == num_waiting(waiting@),
            up == wall_exhausted_share(n as int, true),
            down == wall_exhausted_share(n as int, false),
            forall|k: int|
                0 <= k < i ==> #[trigger] r@[k] == wall_exhausted_share(n as int, waiting@[k] > 0),
        decreases 4 - i,
    {
        r[i] = if waiting[i] > 0 {
            up
        } else {
            down
        };
        i += 1;
    }
    r
}

/// When the wall is exhausted and each player is either waiting or not,
/// the points that move add up to nothing; every waiting player gains and
/// every other player loses, unless all are waiting or none is; and where
/// the two groups differ in size, a member of the smaller group gains or
/// loses more than a member of the larger one loses or gains.
pub proof fn lemma_wall_exhausted_delta(waiting: Seq<u8>)
    requires
        waiting.len() == 4,
        forall|i: int| 0 <= i < 4 ==> #[trigger] waiting[i] <= 1,
    ensures
        ({
            let n = num_waiting(waiting);
            let up = wall_exhausted_share(n, true);
            let down = wall_exhausted_share(n, false);
            &&& 0 <= n <= 4
            &&& wall_exhausted_share(n, waiting[0] > 0) + wall_exhausted_share(n, waiting[1] > 0)
                + wall_exhausted_share(n, waiting[2] > 0) + wall_exhausted_share(
                n,
                waiting[3] > 0,
            ) == 0
            &&& n * up + (4 - n) * down == 0
            &&& 1 <= n <= 3 ==> up > 0 && down < 0
            &&& (n == 0 || n == 4) ==> up == 0 && down == 0
            &&& n == 1 ==> up > -down
            &&& n == 3 ==> -down > up
            &&& n == 2 ==> up == -down
        }),
{
}

/// What player `i` gets for the all-terminal discards of player `player`,
/// at the value of a mangan won by self-draw: 12000 from the three others
/// in equal parts if `player` has the button, else 8000, of which the button
/// pays 4000 and the two others 2000 each.
pub open spec fn nagashi_mangan_part(player: int, button: int, i: int) -> int {
    if player == button {
        if i == player {
            12000
        } else {
            -4000
        }
    } else if i == player {
        8000
    } else if i == button {
        -4000
    } else {
        -2000
    }
}

/// What player `i` gets for the all-terminal discards of the first `n` players.
pub open spec fn nagashi_mangan_upto(state: State, button: int, n: int, i: int) -> int
    decreases n,
{
    if n <= 0 {
        0
    } else {
        nagashi_mangan_upto(state, button, n - 1, i) + (if nagashi_mangan(
            state,
            Player::of_index(n - 1),
        ) {
            nagashi_mangan_part(n - 1, button, i)
        } else {
            0
        })
    }
}

/// The points that move when the wall is exhausted and some players have
/// discarded nothing but terminals and honors, none of them called. All
/// zero if no player has.
pub fn calc_nagashi_mangan_delta(state: &State, button: Player) -> (r: [GamePoints; 4])
    ensures
        forall|i: int|
            0 <= i < 4 ==> #[trigger] r@[i] == nagashi_mangan_upto(*state, button.index(), 4, i),
        forall|i: int| 0 <= i < 4 ==> -64000 <= #[trigger] r@[i] <= 64000,
{
    let mut delta: [GamePoints; 4] = [0; 4];
    let players = all_players();
    let b: usize = button.to_usize();
    let mut p: usize = 0;
    while p < 4
        invariant
            p <= 4,
            b == button.index(),
            b < 4,
            forall|k: int| 0 <= k < 4 ==> (#[trigger] players@[k]).index() == k,
            forall|i: int|
                0 <= i < 4 ==> #[trigger] delta@[i] == nagashi_mangan_upto(
                    *state,
                    button.index(),
                    p as int,
                    i,
                ),
            forall|i: int| 0 <= i < 4 ==> -16000 * p <= #[trigger] delta@[i] <= 16000 * p,
        decreases 4 - p,
    {
        let player = players[p];
        proof {
            player.lemma_index_of();
        }
        if is_nagashi_mangan(state, player) {
            let ghost before = delta@;
            if p == b {
                delta[p] = delta[p] + (12000 + 4000);
                let mut qq: usize = 0;
                while qq < 4
                    invariant
                        qq <= 4,
                        p < 4,
                        forall|i: int|
                            0 <= i < 4 ==> #[trigger] delta@[i] == before[i] + (if i == p {
                                16000int
                            } else {
                                0int
                            }) - (if i < qq {
                                4000int
                            } else {
                                0int
                            }),
                        forall|i: int| 0 <= i < 4 ==> -48000 <= #[trigger] before[i] <= 48000,
                    decreases 4 - qq,
                {
                    delta[qq] = delta[qq] - 4000;
                    qq += 1;
                }
            } else {
                delta[p] = delta[p] + (8000 + 2000);
                delta[b] = delta[b] - 2000;
                let mut qq: usize = 0;
                while qq < 4
                    invariant
                        qq <= 4,
                        p < 4,
                        b < 4,
                        p != b,
                        forall|i: int|
                            0 <= i < 4 ==> #[trigger] delta@[i] == before[i] + (if i == p {
                                10000int
                            } else if i == b {
                                -2000int
                            } else {
                                0int
                            }) - (if i < qq {
                                2000int
                            } else {
                                0int
                            }),
                        forall|i: int| 0 <= i < 4 ==> -48000 <= #[trigger] before[i] <= 48000,
                    decreases 4 - qq,
                {
                    delta[qq] = delta[qq] - 2000;
                    qq += 1;
                }
            }
        }
        p += 1;
    }
    delta
}

/// The payments for all-terminal discards are made between the players:
/// what the four get and pay adds up to nothing.
pub proof fn lemma_nagashi_mangan_sum(state: State, button: int)
    requires
        0 <= button <= 3,
    ensures
        nagashi_mangan_upto(state, button, 4, 0) + nagashi_mangan_upto(state, button, 4, 1)
            + nagashi_mangan_upto(state, button, 4, 2) + nagashi_mangan_upto(state, button, 4, 3)
            == 0,
{
    reveal_with_fuel(nagashi_mangan_upto, 5);
}

/// The points that move when the wall is exhausted, and whether the button
/// stays for the next round. As soon as some player has discarded nothing
/// but terminals and honors, none of them called, the payments for that
/// are made in place of those between waiting and other players. The
/// button stays if its player is waiting. Where each player is either
/// waiting (1) or not (0), the points that move add up to nothing.
pub fn resolve_wall_exhausted(state: &State, waiting: [u8; 4], button: Player) -> (r: (
    [GamePoints; 4],
    bool,
))
    ensures
        r.1 == (waiting@[button.index()] > 0),
        forall|i: int|
            0 <= i < 4 ==> #[trigger] r.0@[i] == (if any_nagashi_mangan(*state) {
                nagashi_mangan_upto(*state, button.index(), 4, i)
            } else {
                wall_exhausted_share(num_waiting(waiting@), waiting@[i] > 0)
            }),
        any_nagashi_mangan(*state) || (forall|i: int| 0 <= i < 4 ==> #[trigger] waiting@[i] <= 1)
            ==> r.0@[0] + r.0@[1] + r.0@[2] + r.0@[3] == 0,
{
    let renchan = waiting[button.to_usize()] > 0;
    if is_any_player_nagashi_mangan(state) {
        proof {
            lemma_nagashi_mangan_sum(*state, button.index());
        }
        (calc_nagashi_mangan_delta(state, button), renchan)
    } else {
        proof {
            if forall|i: int| 0 <= i < 4 ==> #[trigger] waiting@[i] <= 1 {
                lemma_wall_exhausted_delta(waiting@);
            }
        }
        (calc_wall_exhausted_delta(waiting), renchan)
    }
}

} // verus!
