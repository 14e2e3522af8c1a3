//! What follows an action that has been judged legal: the next state of
//! the round, or the end of the round.

use vstd::prelude::*;
use crate::engine::cache::EngineCache;
use crate::engine::dora::{capped, count_doras, dora_total, get_open_tiles, open_tiles};
use crate::engine::scoring::{distribute_points, points_share};
use crate::engine::utils::{
    active_riichi_upto,
    calc_nagashi_mangan_delta,
    calc_wall_exhausted_delta,
    init_abortable,
    is_first_chance,
    nagashi_mangan_upto,
    num_active_riichi,
    num_waiting,
    other_players_after,
    player_succ,
    wall_exhausted_share,
};
use crate::meld::Meld;
use crate::model::{
    AbortReason,
    Action,
    ActionResult,
    AgariCandidate,
    AgariKind,
    AgariResult,
    Discard,
    FuritenFlags,
    GamePoints,
    RIICHI_POT,
    Reaction,
    RiichiFlags,
    RoundBegin,
    RoundEnd,
    RoundId,
    Scoring,
    State,
    StateCore,
    kan_draw,
    kan_draw_index,
};
use crate::player::Player;
use crate::tile::Tile;
use crate::tile_set::{TileMask34, lemma_mask_of, mask_of};

verus! {

/// The seat of the player who takes the next turn after a discard: the
/// caller, or the discarding player itself if the tile was not called.
pub open spec fn caller_of(state: State, action_result: ActionResult) -> int {
    match action_result {
        ActionResult::CalledBy(caller) => caller.index(),
        _ => state.core.action_player.index(),
    }
}

/// Whether the action is followed by a turn that begins with a meld.
pub open spec fn brings_meld(state: State, action: Action, action_result: ActionResult) -> bool {
    match action {
        Action::Discard(_) => caller_of(state, action_result) != state.core.action_player.index(),
        _ => true,
    }
}

/// The seat whose meld in the cache begins the next turn.
pub open spec fn meld_owner(state: State, action: Action, action_result: ActionResult) -> int {
    match action {
        Action::Discard(_) => caller_of(state, action_result),
        _ => state.core.action_player.index(),
    }
}

/// Whether the last turn began with a kan whose dora indicator is revealed
/// only after that turn's discard.
pub open spec fn owes_dora_indicator(core: StateCore) -> bool {
    core.incoming_meld matches Some(meld) && (meld is Kakan || meld is Daiminkan)
}

/// What a normal transition asks of an action that was judged legal: it
/// is a discard or a kan; a meld that begins the next turn is in the cache;
/// a tile is left to draw; and the counters have room.
pub open spec fn normal_ready(
    state: State,
    action: Action,
    action_result: ActionResult,
    cache: EngineCache,
) -> bool {
    let owner = meld_owner(state, action, action_result);
    &&& action is Discard || action is Ankan || action is Kakan
    &&& state.core.seq < 255
    &&& state.core.num_dora_indicators + (if owes_dora_indicator(state.core) {
        1int
    } else {
        0int
    }) + (if action is Ankan {
        1int
    } else {
        0int
    }) <= 255
    &&& !brings_meld(state, action, action_result) ==> state.core.num_drawn_head < 136
    &&& brings_meld(state, action, action_result) ==> cache.meld@[owner].is_some() && (
    cache.meld@[owner].unwrap().is_kan_spec() ==> state.core.num_drawn_tail < 4)
    &&& action is Ankan || action is Kakan ==> cache.meld@[owner].is_some()
        && cache.meld@[owner].unwrap().is_kan_spec()
}

/// Whether a normal transition can follow the action.
pub fn is_normal_ready(
    state: &State,
    action: Action,
    action_result: ActionResult,
    cache: &EngineCache,
) -> (r: bool)
    ensures
        r == normal_ready(*state, action, action_result, *cache),
{
    let actor = state.core.action_player;
    let owner: Player = match action {
        Action::Discard(_) => match action_result {
            ActionResult::CalledBy(caller) => caller,
            _ => actor,
        },
        Action::Ankan(_) | Action::Kakan(_) => actor,
        _ => {
            return false;
        },
    };
    let owed: u16 = match state.core.incoming_meld {
        Some(Meld::Kakan(_)) | Some(Meld::Daiminkan(_)) => 1,
        _ => 0,
    };
    let own: u16 = if matches!(action, Action::Ankan(_)) {
        1
    } else {
        0
    };
    if !(state.core.seq < 255 && state.core.num_dora_indicators as u16 + owed + own <= 255) {
        return false;
    }
    let with_meld: bool = !matches!(action, Action::Discard(_)) || owner.to_usize()
        != actor.to_usize();
    if !with_meld {
        return state.core.num_drawn_head < 136;
    }
    match cache.meld[owner.to_usize()] {
        Some(meld) => {
            if meld.is_kan() {
                state.core.num_drawn_tail < 4
            } else {
                matches!(action, Action::Discard(_))
            }
        },
        None => false,
    }
}

/// The normal kinds of the tiles of some discards.
pub open spec fn discard_kinds(discards: Seq<Discard>) -> Seq<int> {
    discards.map_values(|d: Discard| d.tile.kind())
}

/// Whether a tile among the discards is of a kind in the waiting set.
pub open spec fn discarded_wait(discards: Seq<Discard>, waiting_set: TileMask34) -> bool {
    exists|i: int|
        0 <= i < discards.len() && waiting_set.has_kind((#[trigger] discards[i]).tile.kind())
}

/// The riichi flags of player `i` after the action.
pub open spec fn next_riichi(
    state: State,
    action: Action,
    action_result: ActionResult,
    i: int,
) -> RiichiFlags {
    let actor = state.core.action_player.index();
    let old = state.core.riichi@[i];
    let own = match action {
        Action::Discard(discard) => if i != actor {
            old
        } else if old.is_active {
            RiichiFlags { is_ippatsu: false, ..old }
        } else if discard.declares_riichi {
            RiichiFlags {
                is_active: true,
                is_ippatsu: caller_of(state, action_result) == actor,
                is_double: init_abortable(state),
            }
        } else {
            old
        },
        _ => old,
    };
    if brings_meld(state, action, action_result) {
        RiichiFlags { is_ippatsu: false, ..own }
    } else {
        own
    }
}

/// Whether player `i` lets the tile of the action pass although it
/// completes the hand: the hand waits for it, or, for a concealed kan,
/// waits on thirteen orphans.
pub open spec fn misses_win(action: Action, cache: EngineCache, i: int) -> bool {
    match action {
        Action::Ankan(_) => cache.wait@[i].irregular matches Some(w) && !(w is SevenPairs),
        _ => action.tile_spec().is_some() && cache.wait@[i].waiting_set.has_kind(
            action.tile_spec().unwrap().kind(),
        ),
    }
}

/// The furiten flags of player `i` after the action.
pub open spec fn next_furiten(state: State, action: Action, cache: EngineCache, i: int) -> FuritenFlags {
    let actor = state.core.action_player.index();
    let old = state.core.furiten@[i];
    if i == actor {
        match action {
            Action::Discard(_) => FuritenFlags {
                by_discard: if old.miss_permanent {
                    old.by_discard
                } else {
                    discarded_wait(state.discards@[actor]@, cache.wait@[actor].waiting_set)
                },
                miss_temporary: false,
                miss_permanent: old.miss_permanent,
            },
            _ => old,
        }
    } else if !old.miss_permanent && misses_win(action, cache, i) {
        FuritenFlags {
            by_discard: old.by_discard,
            miss_temporary: true,
            miss_permanent: state.core.riichi@[i].is_active,
        }
    } else {
        old
    }
}

/// The state that follows a discard or a kan, field by field.
pub open spec fn is_next_normal(
    begin: RoundBegin,
    state: State,
    action: Action,
    action_result: ActionResult,
    cache: EngineCache,
    next: StateCore,
) -> bool {
    let core = state.core;
    let actor = core.action_player.index();
    let owner = meld_owner(state, action, action_result);
    let with_meld = brings_meld(state, action, action_result);
    let with_kan = with_meld && cache.meld@[owner].unwrap().is_kan_spec();
    &&& next.seq == core.seq + 1
    &&& next.num_dora_indicators == core.num_dora_indicators + (if owes_dora_indicator(core) {
        1int
    } else {
        0int
    }) + (if action is Ankan {
        1int
    } else {
        0int
    })
    &&& next.action_player.index() == (if with_meld {
        owner
    } else {
        (actor + 1) % 4
    })
    &&& next.incoming_meld == (if with_meld {
        cache.meld@[owner]
    } else {
        None
    })
    &&& next.draw == (if !with_meld {
        Some(begin.wall@[core.num_drawn_head as int])
    } else if with_kan {
        Some(begin.wall@[kan_draw_index(core.num_drawn_tail as int)])
    } else {
        None
    })
    &&& next.num_drawn_head == core.num_drawn_head + (if with_meld {
        0int
    } else {
        1int
    })
    &&& next.num_drawn_tail == core.num_drawn_tail + (if with_kan {
        1int
    } else {
        0int
    })
    &&& forall|i: int|
        0 <= i < 4 ==> #[trigger] next.riichi@[i] == next_riichi(state, action, action_result, i)
    &&& forall|i: int|
        0 <= i < 4 ==> #[trigger] next.furiten@[i] == next_furiten(state, action, cache, i)
}

/// The set of the normal kinds of the tiles of some discards.
fn discard_set(discards: &Vec<Discard>) -> (r: TileMask34)
    ensures
        r.bits == mask_of(discard_kinds(discards@)),
        forall|i: int| 0 <= i < discards@.len() ==> 0 <= #[trigger] discard_kinds(discards@)[i] < 64,
{
    let ghost kinds = discard_kinds(discards@);
    let mut r = TileMask34::new();
    let mut i: usize = 0;
    while i < discards.len()
        invariant
            i <= discards.len(),
            kinds == discard_kinds(discards@),
            r.bits == mask_of(kinds.take(i as int)),
            forall|j: int| 0 <= j < i ==> 0 <= #[trigger] kinds[j] < 64,
        decreases discards.len() - i,
    {
        proof {
            assert(kinds.take(i as int + 1).drop_last() =~= kinds.take(i as int));
        }
        r.insert(discards[i].tile);
        i += 1;
    }
    assert(kinds.take(discards.len() as int) =~= kinds);
    r
}

/// Whether a tile among the discards is of a kind in the waiting set.
fn has_discarded_wait(discards: &Vec<Discard>, waiting_set: &TileMask34) -> (r: bool)
    ensures
        r == discarded_wait(discards@, *waiting_set),
{
    let discarded = discard_set(discards);
    let r = discarded.intersects(waiting_set);
    proof {
        let kinds = discard_kinds(discards@);
        if r {
            let k = choose|k: int|
                0 <= k < 64 && #[trigger] discarded.has_kind(k) && waiting_set.has_kind(k);
            lemma_mask_of(kinds, k);
            let i = choose|i: int| 0 <= i < kinds.len() && kinds[i] == k;
        }
        if discarded_wait(discards@, *waiting_set) {
            let i = choose|i: int|
                0 <= i < discards@.len() && waiting_set.has_kind(
                    (#[trigger] discards@[i]).tile.kind(),
                );
            let k = kinds[i];
            lemma_mask_of(kinds, k);
            assert(discarded.has_kind(k) && waiting_set.has_kind(k));
        }
    }
    r
}

/// The state that follows an action which neither ends the round nor
/// aborts it. `action_result` says whether the discard was called, and by
/// whom; the cache holds the meld of the caller or of the player who made
/// a kan, and what each player waits for.
pub fn next_normal(
    begin: &RoundBegin,
    state: &State,
    action: Action,
    action_result: ActionResult,
    cache: &EngineCache,
) -> (next: StateCore)
    requires
        normal_ready(*state, action, action_result, *cache),
    ensures
        is_next_normal(*begin, *state, action, action_result, *cache, next),
{
    let core = state.core;
    let actor = core.action_player;
    let actor_i = actor.to_usize();
    let mut riichi = core.riichi;
    let mut furiten = core.furiten;
    let mut num_dora_indicators: u8 = core.num_dora_indicators;
    let mut num_drawn_head: u8 = core.num_drawn_head;
    let mut num_drawn_tail: u8 = core.num_drawn_tail;
    let action_player: Player;
    let incoming_meld: Option<Meld>;
    let draw: Option<Tile>;

    // The indicator owed for a kan of the last turn is revealed now, so
    // that its player has discarded without knowing it.
    match core.incoming_meld {
        Some(Meld::Kakan(_)) | Some(Meld::Daiminkan(_)) => {
            num_dora_indicators = num_dora_indicators + 1;
        },
        _ => {},
    }
    let seq: u8 = core.seq + 1;

    match action {
        Action::Discard(discard) => {
            let caller = if let ActionResult::CalledBy(caller) = action_result {
                caller
            } else {
                actor
            };
            let called: bool = caller.to_usize() != actor_i;

            if core.riichi[actor_i].is_active {
                let old = core.riichi[actor_i];
                riichi[actor_i] = RiichiFlags {
                    is_active: old.is_active,
                    is_ippatsu: false,
                    is_double: old.is_double,
                };
            } else if discard.declares_riichi {
                riichi[actor_i] = RiichiFlags {
                    is_active: true,
                    is_ippatsu: !called,
                    is_double: is_first_chance(state),
                };
            }
            if !called {
                action_player = player_succ(actor);
                incoming_meld = None;
                draw = Some(begin.wall[core.num_drawn_head as usize]);
                num_drawn_head = num_drawn_head + 1;
            } else {
                let meld = match cache.meld[caller.to_usize()] {
                    Some(meld) => meld,
                    // Not reached: a ready transition has the caller's meld.
                    None => {
                        return core;
                    },
                };
                action_player = caller;
                incoming_meld = Some(meld);
                if meld.is_kan() {
                    draw = Some(kan_draw(&begin.wall, core.num_drawn_tail as usize));
                    num_drawn_tail = num_drawn_tail + 1;
                } else {
                    draw = None;
                }
            }
            // The discarding player is furiten by discard if it has
            // discarded a tile that it waits for.
            let old = core.furiten[actor_i];
            let by_discard = if !old.miss_permanent {
                has_discarded_wait(&state.discards[actor_i], &cache.wait[actor_i].waiting_set)
            } else {
                old.by_discard
            };
            furiten[actor_i] = FuritenFlags {
                by_discard,
                miss_temporary: false,
                miss_permanent: old.miss_permanent,
            };
        },
        Action::Ankan(_) | Action::Kakan(_) => {
            let meld = match cache.meld[actor_i] {
                Some(meld) => meld,
                // Not reached: a ready transition has the kan.
                None => {
                    return core;
                },
            };
            action_player = actor;
            incoming_meld = Some(meld);
            draw = Some(kan_draw(&begin.wall, core.num_drawn_tail as usize));
            num_drawn_tail = num_drawn_tail + 1;
            // The indicator of a concealed kan is revealed at once.
            if let Action::Ankan(_) = action {
                num_dora_indicators = num_dora_indicators + 1;
            }
        },
        // Not reached: a win or an abort is no normal transition.
        Action::TsumoAgari(_) | Action::AbortNineKinds => {
            return core;
        },
    }

    // Any meld ends the first-turn chance of every riichi.
    if incoming_meld.is_some() {
        let mut i: usize = 0;
        while i < 4
            invariant
                i <= 4,
                brings_meld(*state, action, action_result),
                forall|k: int|
                    0 <= k < i ==> #[trigger] riichi@[k] == next_riichi(
                        *state,
                        action,
                        action_result,
                        k,
                    ),
                forall|k: int|
                    i <= k < 4 ==> (RiichiFlags { is_ippatsu: false, ..#[trigger] riichi@[k] })
                        == next_riichi(*state, action, action_result, k),
            decreases 4 - i,
        {
            let old = riichi[i];
            riichi[i] = RiichiFlags {
                is_active: old.is_active,
                is_ippatsu: false,
                is_double: old.is_double,
            };
            i += 1;
        }
    }

    // Another player who lets a winning tile pass is furiten for the time
    // being, and for good if under riichi.
    let others = other_players_after(actor);
    let action_tile = action.tile();
    let mut k: usize = 0;
    while k < 3
        invariant
            k <= 3,
            actor_i == state.core.action_player.index(),
            action is Discard || action is Ankan || action is Kakan,
            action_tile == action.tile_spec(),
            forall|j: int|
                0 <= j < 3 ==> (#[trigger] others@[j]).index() == (actor_i + 1 + j) % 4,
            actor_i < 4,
            forall|i: int|
                0 <= i < 4 ==> #[trigger] furiten@[i] == (if (i - actor_i + 4) % 4 <= k {
                    next_furiten(*state, action, *cache, i)
                } else {
                    state.core.furiten@[i]
                }),
        decreases 3 - k,
    {
        let other_i = others[k].to_usize();
        let old = furiten[other_i];
        if !old.miss_permanent {
            let misses: bool = if let Action::Ankan(_) = action {
                match cache.wait[other_i].irregular {
                    Some(w) => w.is_thirteen_orphans(),
                    None => false,
                }
            } else {
                match action_tile {
                    Some(t) => cache.wait[other_i].waiting_set.has(t),
                    None => false,
                }
            };
            if misses {
                furiten[other_i] = FuritenFlags {
                    by_discard: old.by_discard,
                    miss_temporary: true,
                    miss_permanent: state.core.riichi[other_i].is_active,
                };
            }
        }
        k += 1;
    }
    StateCore {
        seq,
        action_player,
        num_drawn_head,
        num_drawn_tail,
        num_dora_indicators,
        draw,
        incoming_meld,
        furiten,
        riichi,
    }
}

/// The basic points of a candidate with `dora_hits` dora.
pub open spec fn candidate_value(c: AgariCandidate, dora_hits: u8) -> int {
    (Scoring { dora_hits, ..c.scoring }).basic_points_spec()
}

/// The index of the candidate among the first `n` that is worth most with
/// `dora_hits` dora; of several such, the last.
pub open spec fn best_upto(cs: Seq<AgariCandidate>, dora_hits: u8, n: int) -> int
    decreases n,
{
    if n <= 1 {
        0
    } else {
        let b = best_upto(cs, dora_hits, n - 1);
        if candidate_value(cs[n - 1], dora_hits) >= candidate_value(cs[b], dora_hits) {
            n - 1
        } else {
            b
        }
    }
}

/// The candidate that is worth most with `dora_hits` dora, with these dora
/// counted in.
pub open spec fn best_candidate(cs: Seq<AgariCandidate>, dora_hits: u8) -> AgariCandidate {
    AgariCandidate {
        scoring: Scoring { dora_hits, ..cs[best_upto(cs, dora_hits, cs.len() as int)].scoring },
    }
}

/// No candidate among the first `n` is worth more than the best of them.
pub proof fn lemma_best_is_max(cs: Seq<AgariCandidate>, dora_hits: u8, n: int, j: int)
    requires
        0 <= j < n <= cs.len(),
    ensures
        0 <= best_upto(cs, dora_hits, n) < n,
        candidate_value(cs[j], dora_hits) <= candidate_value(
            cs[best_upto(cs, dora_hits, n)],
            dora_hits,
        ),
    decreases n,
{
    if n > 1 {
        if j < n - 1 {
            lemma_best_is_max(cs, dora_hits, n - 1, j);
        } else {
            lemma_best_is_max(cs, dora_hits, n - 1, 0);
        }
    }
}

/// What player `i` gets from the table when `winner` wins: the pot and
/// the stakes of all riichi, if this is the winner who takes the pot.
pub open spec fn pot_share(begin: RoundBegin, state: State, take_pot: bool, winner: int, i: int) -> int {
    if take_pot && i == winner {
        begin.pot + RIICHI_POT * active_riichi_upto(state.core, 4)
    } else {
        0
    }
}

/// What player `i` gets or pays for the win of `winner` with `dora_hits`
/// dora: its share of the value of the best candidate, and of the pot.
pub open spec fn agari_delta(
    begin: RoundBegin,
    state: State,
    cache: EngineCache,
    take_pot: bool,
    winner: int,
    contributor: int,
    dora_hits: u8,
    i: int,
) -> int {
    points_share(
        begin.round_id,
        take_pot,
        winner,
        contributor,
        best_candidate(cache.win@[winner]@, dora_hits).scoring.basic_points_spec(),
        i,
    ) + pot_share(begin, state, take_pot, winner, i)
}

/// The win of `winner` with `dora_hits` dora, field by field.
pub open spec fn is_agari_result(
    begin: RoundBegin,
    state: State,
    cache: EngineCache,
    take_pot: bool,
    winner: int,
    contributor: int,
    dora_hits: u8,
    r: AgariResult,
) -> bool {
    &&& r.winner.index() == winner
    &&& r.contributor.index() == contributor
    &&& r.liable_player.index() == winner
    &&& r.details == best_candidate(cache.win@[winner]@, dora_hits)
    &&& forall|i: int|
        0 <= i < 4 ==> #[trigger] r.points_delta@[i] == agari_delta(
            begin,
            state,
            cache,
            take_pot,
            winner,
            contributor,
            dora_hits,
            i,
        )
    &&& forall|i: int|
        0 <= i < 4 ==> -40_000_000 <= #[trigger] r.points_delta@[i] <= 40_004_000 + begin.pot
}

/// The win of `winner`, once its dora are counted: of the ways to score
/// the hand that the cache holds, the one that is worth most with these
/// dora decides what is paid; the winner who takes the pot also gets the
/// pot and the stakes of all riichi.
pub fn finalize_agari_with(
    begin: &RoundBegin,
    state: &State,
    cache: &EngineCache,
    take_pot: bool,
    winner: Player,
    contributor: Player,
    dora_hits: u8,
) -> (r: AgariResult)
    requires
        begin.wf(),
        cache.win@[winner.index()]@.len() > 0,
    ensures
        is_agari_result(
            *begin,
            *state,
            *cache,
            take_pot,
            winner.index(),
            contributor.index(),
            dora_hits,
            r,
        ),
{
    let winner_i = winner.to_usize();
    let candidates = &cache.win[winner_i];
    let mut best: usize = 0;
    let mut best_value: GamePoints = candidates[0].scoring.with_dora_hits(dora_hits).basic_points();
    let mut i: usize = 1;
    while i < candidates.len()
        invariant
            1 <= i <= candidates.len(),
            best == best_upto(candidates@, dora_hits, i as int),
            best < i,
            best_value == candidate_value(candidates@[best as int], dora_hits),
        decreases candidates.len() - i,
    {
        let value: GamePoints = candidates[i].scoring.with_dora_hits(dora_hits).basic_points();
        if value >= best_value {
            best = i;
            best_value = value;
        }
        i += 1;
    }
    let details = AgariCandidate { scoring: candidates[best].scoring.with_dora_hits(dora_hits) };
    let mut delta = distribute_points(
        begin.round_id,
        take_pot,
        winner,
        contributor,
        details.scoring.basic_points(),
    );
    if take_pot {
        delta[winner_i] = delta[winner_i] + (begin.pot + RIICHI_POT * (num_active_riichi(state)
            as GamePoints));
    }
    AgariResult { winner, contributor, liable_player: winner, points_delta: delta, details }
}

/// The number of dora of `winner` for a win on `winning_tile`, with
/// `extra_dora_indicator` more indicators than the state has revealed.
pub open spec fn winner_doras(
    begin: RoundBegin,
    state: State,
    agari_kind: AgariKind,
    extra_dora_indicator: int,
    winner: int,
    winning_tile: Tile,
) -> u8 {
    capped(
        dora_total(
            begin.wall,
            state.closed_hands@[winner],
            open_tiles(agari_kind, winning_tile, state.melds@[winner]@),
            state.core.num_dora_indicators + extra_dora_indicator,
            state.core.riichi@[winner].is_active,
        ),
    ) as u8
}

/// The win of `winner` on `winning_tile`: its dora are counted, with
/// `extra_dora_indicator` more indicators than the state has revealed, and
/// the rest is as `finalize_agari_with` says.
pub fn finalize_agari(
    begin: &RoundBegin,
    state: &State,
    cache: &EngineCache,
    agari_kind: AgariKind,
    take_pot: bool,
    extra_dora_indicator: u8,
    winner: Player,
    contributor: Player,
    winning_tile: Tile,
) -> (r: AgariResult)
    requires
        begin.wf(),
        cache.win@[winner.index()]@.len() > 0,
        state.core.num_dora_indicators + extra_dora_indicator <= 5,
    ensures
        is_agari_result(
            *begin,
            *state,
            *cache,
            take_pot,
            winner.index(),
            contributor.index(),
            winner_doras(
                *begin,
                *state,
                agari_kind,
                extra_dora_indicator as int,
                winner.index(),
                winning_tile,
            ),
            r,
        ),
{
    let winner_i = winner.to_usize();
    let open = get_open_tiles(agari_kind, winning_tile, &state.melds[winner_i]);
    let dora_hits: u8 = count_doras(
        &state.closed_hands[winner_i],
        &open,
        state.core.num_dora_indicators + extra_dora_indicator,
        &begin.wall,
        state.core.riichi[winner_i].is_active,
    );
    finalize_agari_with(begin, state, cache, take_pot, winner, contributor, dora_hits)
}

/// Whether the player `k` seats after the contributor claims the win.
pub open spec fn claims_ron(state: State, reactions: Seq<Option<Reaction>>, k: int) -> bool {
    reactions[(state.core.action_player.index() + k) % 4] == Some(Reaction::RonAgari)
}

/// Whether the player `k` seats after the contributor is the first in
/// turn order to claim the win, and so takes the pot.
pub open spec fn takes_pot(state: State, reactions: Seq<Option<Reaction>>, k: int) -> bool {
    claims_ron(state, reactions, k) && forall|m: int|
        1 <= m < k ==> !#[trigger] claims_ron(state, reactions, m)
}

/// Whether player `i` wins.
pub open spec fn is_winner(
    state: State,
    reactions: Seq<Option<Reaction>>,
    agari_kind: AgariKind,
    i: int,
) -> bool {
    let actor = state.core.action_player.index();
    match agari_kind {
        AgariKind::Tsumo => i == actor,
        AgariKind::Ron => i != actor && claims_ron(state, reactions, (i - actor + 4) % 4),
    }
}

/// The number of dora indicators that count for the win beyond those that
/// the state has revealed: the one owed for a kan of the last turn, for a
/// win on the discard that followed it.
pub open spec fn extra_indicators(state: State, agari_kind: AgariKind) -> int {
    if agari_kind is Ron && owes_dora_indicator(state.core) {
        1
    } else {
        0
    }
}

/// The tile that the round is won on: the drawn tile, or the tile of the
/// action of the contributor.
pub open spec fn winning_tile_of(state: State, action: Action, agari_kind: AgariKind) -> Tile {
    match agari_kind {
        AgariKind::Tsumo => state.core.draw.unwrap(),
        AgariKind::Ron => action.tile_spec().unwrap(),
    }
}

/// The number of dora of each player, were it to win.
pub open spec fn agari_doras(
    begin: RoundBegin,
    state: State,
    action: Action,
    agari_kind: AgariKind,
) -> Seq<u8> {
    Seq::new(
        4,
        |i: int|
            winner_doras(
                begin,
                state,
                agari_kind,
                extra_indicators(state, agari_kind),
                i,
                winning_tile_of(state, action, agari_kind),
            ),
    )
}

/// What a win asks of the state and the cache: the winning tile is there,
/// every winner has a way to score its hand in the cache, and no more dora
/// indicators count than the wall has.
pub open spec fn agari_ready(
    begin: RoundBegin,
    state: State,
    action: Action,
    reactions: Seq<Option<Reaction>>,
    agari_kind: AgariKind,
    cache: EngineCache,
) -> bool {
    &&& begin.wf()
    &&& state.core.num_dora_indicators + extra_indicators(state, agari_kind) <= 5
    &&& agari_kind is Tsumo ==> state.core.draw.is_some()
    &&& agari_kind is Ron ==> action.tile_spec().is_some()
    &&& forall|i: int|
        0 <= i < 4 && #[trigger] is_winner(state, reactions, agari_kind, i) ==> cache.win@[i]@.len()
            > 0
}

/// Whether the round can end with the win.
pub fn is_agari_ready(
    begin: &RoundBegin,
    state: &State,
    action: Action,
    reactions: &[Option<Reaction>; 4],
    agari_kind: AgariKind,
    cache: &EngineCache,
) -> (r: bool)
    ensures
        r == agari_ready(*begin, *state, action, reactions@, agari_kind, *cache),
{
    let extra: u8 = match (agari_kind, state.core.incoming_meld) {
        (AgariKind::Ron, Some(Meld::Kakan(_))) | (AgariKind::Ron, Some(Meld::Daiminkan(_))) => 1,
        _ => 0,
    };
    if !(begin.is_wf() && state.core.num_dora_indicators <= 5 - extra) {
        return false;
    }
    let actor_i = state.core.action_player.to_usize();
    match agari_kind {
        AgariKind::Tsumo => {
            if state.core.draw.is_none() {
                return false;
            }
        },
        AgariKind::Ron => {
            if action.tile().is_none() {
                return false;
            }
        },
    }
    let mut i: usize = 0;
    while i < 4
        invariant
            i <= 4,
            actor_i == state.core.action_player.index(),
            forall|k: int|
                0 <= k < i && #[trigger] is_winner(*state, reactions@, agari_kind, k)
                    ==> cache.win@[k]@.len() > 0,
        decreases 4 - i,
    {
        let wins: bool = match agari_kind {
            AgariKind::Tsumo => i == actor_i,
            AgariKind::Ron => i != actor_i && matches!(reactions[i], Some(Reaction::RonAgari)),
        };
        assert(wins == is_winner(*state, reactions@, agari_kind, i as int));
        if wins && cache.win[i].len() == 0 {
            return false;
        }
        i += 1;
    }
    true
}

/// The win of player `i`, if it wins, with `doras[i]` dora.
pub open spec fn is_win_of(
    begin: RoundBegin,
    state: State,
    reactions: Seq<Option<Reaction>>,
    agari_kind: AgariKind,
    cache: EngineCache,
    doras: Seq<u8>,
    i: int,
    r: Option<AgariResult>,
) -> bool {
    let actor = state.core.action_player.index();
    if is_winner(state, reactions, agari_kind, i) {
        r.is_some() && is_agari_result(
            begin,
            state,
            cache,
            agari_kind is Tsumo || takes_pot(state, reactions, (i - actor + 4) % 4),
            i,
            actor,
            doras[i],
            r.unwrap(),
        )
    } else {
        r.is_none()
    }
}

/// What player `j` gets or pays in all for the wins of the round.
pub open spec fn total_delta(results: Seq<Option<AgariResult>>, j: int) -> int {
    (match results[0] {
        Some(r) => r.points_delta@[j] as int,
        None => 0,
    }) + (match results[1] {
        Some(r) => r.points_delta@[j] as int,
        None => 0,
    }) + (match results[2] {
        Some(r) => r.points_delta@[j] as int,
        None => 0,
    }) + (match results[3] {
        Some(r) => r.points_delta@[j] as int,
        None => 0,
    })
}

/// The end of a round that is won, field by field, where player `i` has
/// `doras[i]` dora.
pub open spec fn is_agari_end(
    begin: RoundBegin,
    state: State,
    reactions: Seq<Option<Reaction>>,
    agari_kind: AgariKind,
    cache: EngineCache,
    doras: Seq<u8>,
    end: RoundEnd,
) -> bool {
    let button = begin.round_id.kyoku % 4;
    &&& end.round_result == ActionResult::Agari(agari_kind)
    &&& end.pot == 0
    &&& forall|i: int|
        0 <= i < 4 ==> is_win_of(
            begin,
            state,
            reactions,
            agari_kind,
            cache,
            doras,
            i,
            #[trigger] end.agari_result@[i],
        )
    &&& forall|j: int|
        0 <= j < 4 ==> #[trigger] end.points_delta@[j] == total_delta(end.agari_result@, j)
    &&& forall|j: int|
        0 <= j < 4 ==> #[trigger] end.points@[j] == begin.points@[j] + end.points_delta@[j]
    &&& end.renchan == is_winner(state, reactions, agari_kind, button as int)
    &&& end.next_round_id == Some(
        if end.renchan {
            RoundId { kyoku: begin.round_id.kyoku, honba: (begin.round_id.honba + 1) as u8 }
        } else {
            RoundId { kyoku: (begin.round_id.kyoku + 1) as u8, honba: 0 }
        },
    )
}

/// The end of a round that is won: by the player in turn on its draw, or
/// by every other player who claims the tile of the action, in which case
/// only the first of them in turn order takes the pot. The points of all
/// wins are added up. The button stays if its player wins; else the next
/// round begins with no repeats.
pub fn next_agari(
    begin: &RoundBegin,
    state: &State,
    action: Action,
    reactions: &[Option<Reaction>; 4],
    agari_kind: AgariKind,
    cache: &EngineCache,
) -> (end: RoundEnd)
    requires
        agari_ready(*begin, *state, action, reactions@, agari_kind, *cache),
    ensures
        is_agari_end(
            *begin,
            *state,
            reactions@,
            agari_kind,
            *cache,
            agari_doras(*begin, *state, action, agari_kind),
            end,
        ),
{
    let mut agari_result: [Option<AgariResult>; 4] = [None, None, None, None];
    let ghost doras = agari_doras(*begin, *state, action, agari_kind);
    let actor = state.core.action_player;
    let actor_i = actor.to_usize();

    // A kan of the last turn whose indicator was still owed counts for a
    // win on the discard that followed it.
    let extra_dora_indicator: u8 = match state.core.incoming_meld {
        Some(Meld::Kakan(_)) | Some(Meld::Daiminkan(_)) => 1,
        _ => 0,
    };

    match agari_kind {
        AgariKind::Tsumo => {
            let winning_tile = match state.core.draw {
                Some(t) => t,
                // Not reached: a win by self-draw has a drawn tile.
                None => {
                    return no_agari(begin, agari_kind);
                },
            };
            assert(is_winner(*state, reactions@, agari_kind, actor_i as int));
            let one = finalize_agari(
                begin,
                state,
                cache,
                agari_kind,
                true,
                0,
                actor,
                actor,
                winning_tile,
            );
            agari_result[actor_i] = Some(one);
        },
        AgariKind::Ron => {
            let winning_tile = match action.tile() {
                Some(t) => t,
                // Not reached: the action of the contributor has a tile.
                None => {
                    return no_agari(begin, agari_kind);
                },
            };
            let others = other_players_after(actor);
            let mut take_pot: bool = true;
            let mut k: usize = 0;
            while k < 3
                invariant
                    k <= 3,
                    actor == state.core.action_player,
                    actor_i == state.core.action_player.index(),
                    actor_i < 4,
                    agari_kind is Ron,
                    agari_ready(*begin, *state, action, reactions@, agari_kind, *cache),
                    extra_dora_indicator == extra_indicators(*state, agari_kind),
                    Some(winning_tile) == action.tile_spec(),
                    doras == agari_doras(*begin, *state, action, agari_kind),
                    forall|j: int|
                        0 <= j < 3 ==> (#[trigger] others@[j]).index() == (actor_i + 1 + j) % 4,
                    take_pot == forall|m: int|
                        1 <= m <= k ==> !#[trigger] claims_ron(*state, reactions@, m),
                    forall|i: int|
                        0 <= i < 4 ==> ron_settled(
                            *begin,
                            *state,
                            reactions@,
                            *cache,
                            doras,
                            k as int,
                            i,
                            #[trigger] agari_result@[i],
                        ),
                decreases 3 - k,
            {
                let winner = others[k];
                let winner_i = winner.to_usize();
                assert(winner_i == (actor_i + 1 + k) % 4);
                assert((winner_i - actor_i + 4) % 4 == k + 1);
                let claims: bool = match reactions[winner_i] {
                    Some(Reaction::RonAgari) => true,
                    _ => false,
                };
                assert(claims == claims_ron(*state, reactions@, k as int + 1));
                let ghost before = agari_result@;
                let ghost took = take_pot;
                assert(ron_settled(
                    *begin,
                    *state,
                    reactions@,
                    *cache,
                    doras,
                    k as int,
                    winner_i as int,
                    agari_result@[winner_i as int],
                ));
                if claims {
                    assert(is_winner(*state, reactions@, agari_kind, winner_i as int));
                    let one = finalize_agari(
                        begin,
                        state,
                        cache,
                        agari_kind,
                        take_pot,
                        extra_dora_indicator,
                        winner,
                        actor,
                        winning_tile,
                    );
                    proof {
                        assert(take_pot == takes_pot(*state, reactions@, k as int + 1));
                    }
                    agari_result[winner_i] = Some(one);
                    take_pot = false;
                    proof {
                        assert(agari_result@[winner_i as int] == Some(one));
                        assert(is_agari_result(
                            *begin,
                            *state,
                            *cache,
                            took,
                            winner_i as int,
                            actor_i as int,
                            doras[winner_i as int],
                            one,
                        ));
                        assert(is_win_of(
                            *begin,
                            *state,
                            reactions@,
                            AgariKind::Ron,
                            *cache,
                            doras,
                            winner_i as int,
                            agari_result@[winner_i as int],
                        ));
                    }
                } else {
                    assert(!is_winner(*state, reactions@, agari_kind, winner_i as int));
                }
                proof {
                    assert forall|i: int| 0 <= i < 4 implies ron_settled(
                        *begin,
                        *state,
                        reactions@,
                        *cache,
                        doras,
                        k as int + 1,
                        i,
                        #[trigger] agari_result@[i],
                    ) by {
                        if i != winner_i {
                            assert(agari_result@[i] == before[i]);
                            assert(ron_settled(
                                *begin,
                                *state,
                                reactions@,
                                *cache,
                                doras,
                                k as int,
                                i,
                                before[i],
                            ));
                            assert((i - actor_i + 4) % 4 != k + 1);
                        } else if !claims {
                            assert(agari_result@[i] == before[i]);
                        }
                    }
                }
                k += 1;
            }
            proof {
                assert forall|i: int| 0 <= i < 4 implies is_win_of(
                    *begin,
                    *state,
                    reactions@,
                    agari_kind,
                    *cache,
                    doras,
                    i,
                    #[trigger] agari_result@[i],
                ) by {
                    assert(ron_settled(
                        *begin,
                        *state,
                        reactions@,
                        *cache,
                        doras,
                        3,
                        i,
                        agari_result@[i],
                    ));
                    if i == actor_i {
                        assert(!is_winner(*state, reactions@, agari_kind, i));
                    }
                }
            }
        },
    }

    proof {
        assert forall|i: int| 0 <= i < 4 implies delta_in_range(
            *begin,
            #[trigger] agari_result@[i],
        ) by {
            assert(is_win_of(
                *begin,
                *state,
                reactions@,
                agari_kind,
                *cache,
                doras,
                i,
                agari_result@[i],
            ));
        }
    }
    let delta = sum_deltas(begin, state, cache, &agari_result);
    let mut points = begin.points;
    let mut i: usize = 0;
    while i < 4
        invariant
            i <= 4,
            begin.wf(),
            forall|j: int|
                0 <= j < 4 ==> -160_000_000 <= #[trigger] delta@[j] <= 4 * (40_004_000 + begin.pot),
            forall|j: int| 0 <= j < i ==> #[trigger] points@[j] == begin.points@[j] + delta@[j],
            forall|j: int| i <= j < 4 ==> #[trigger] points@[j] == begin.points@[j],
        decreases 4 - i,
    {
        points[i] = points[i] + delta[i];
        i += 1;
    }
    let renchan = agari_result[begin.round_id.button().to_usize()].is_some();
    let next_round_id = if renchan {
        Some(begin.round_id.next_honba(true))
    } else {
        Some(begin.round_id.next_kyoku())
    };
    let end = RoundEnd {
        round_result: ActionResult::Agari(agari_kind),
        pot: 0,
        points,
        points_delta: delta,
        renchan,
        next_round_id,
        agari_result,
    };
    end
}

/// Whether the result held for player `i` is right once the first `k`
/// players after the contributor have been asked for their claim: the
/// win of a player among these who claims it, and nothing for any other.
pub open spec fn ron_settled(
    begin: RoundBegin,
    state: State,
    reactions: Seq<Option<Reaction>>,
    cache: EngineCache,
    doras: Seq<u8>,
    k: int,
    i: int,
    r: Option<AgariResult>,
) -> bool {
    if 1 <= (i - state.core.action_player.index() + 4) % 4 <= k {
        is_win_of(begin, state, reactions, AgariKind::Ron, cache, doras, i, r)
    } else {
        r.is_none()
    }
}

/// Whether the points of a result are within what one win can move.
pub open spec fn delta_in_range(begin: RoundBegin, r: Option<AgariResult>) -> bool {
    r.is_some() ==> forall|j: int|
        0 <= j < 4 ==> -40_000_000 <= #[trigger] r.unwrap().points_delta@[j] <= 40_004_000
            + begin.pot
}

/// What each player gets or pays in all for the wins of the round.
fn sum_deltas(
    begin: &RoundBegin,
    state: &State,
    cache: &EngineCache,
    results: &[Option<AgariResult>; 4],
) -> (delta: [GamePoints; 4])
    requires
        begin.wf(),
        forall|i: int| 0 <= i < 4 ==> delta_in_range(*begin, #[trigger] results@[i]),
    ensures
        forall|j: int| 0 <= j < 4 ==> #[trigger] delta@[j] == total_delta(results@, j),
        forall|j: int|
            0 <= j < 4 ==> -160_000_000 <= #[trigger] delta@[j] <= 4 * (40_004_000 + begin.pot),
{
    let mut delta: [GamePoints; 4] = [0; 4];
    let mut j: usize = 0;
    while j < 4
        invariant
            j <= 4,
            begin.wf(),
            forall|i: int| 0 <= i < 4 ==> delta_in_range(*begin, #[trigger] results@[i]),
            forall|m: int| 0 <= m < j ==> #[trigger] delta@[m] == total_delta(results@, m),
            forall|m: int|
                0 <= m < j ==> -160_000_000 <= #[trigger] delta@[m] <= 4 * (40_004_000 + begin.pot),
            forall|m: int| j <= m < 4 ==> #[trigger] delta@[m] == 0,
        decreases 4 - j,
    {
        let d0: GamePoints = part_of(begin, &results[0], j);
        let d1: GamePoints = part_of(begin, &results[1], j);
        let d2: GamePoints = part_of(begin, &results[2], j);
        let d3: GamePoints = part_of(begin, &results[3], j);
        delta[j] = d0 + d1 + d2 + d3;
        j += 1;
    }
    delta
}

/// What player `j` gets or pays for one win, nothing if there is none.
fn part_of(begin: &RoundBegin, result: &Option<AgariResult>, j: usize) -> (r: GamePoints)
    requires
        begin.wf(),
        j < 4,
        delta_in_range(*begin, *result),
    ensures
        r == (match *result {
            Some(one) => one.points_delta@[j as int] as int,
            None => 0,
        }),
        -40_000_000 <= r <= 40_004_000 + begin.pot,
{
    match result {
        Some(one) => one.points_delta[j],
        None => 0,
    }
}

/// The end of a round that nobody wins. Never reached from a win that is
/// ready.
fn no_agari(begin: &RoundBegin, agari_kind: AgariKind) -> (end: RoundEnd)
    ensures
        end.round_result == ActionResult::Agari(agari_kind),
{
    RoundEnd {
        round_result: ActionResult::Agari(agari_kind),
        pot: 0,
        points: begin.points,
        points_delta: [0; 4],
        renchan: false,
        next_round_id: None,
        agari_result: [None, None, None, None],
    }
}

/// For each player 1 if the cache says that it waits, else 0.
pub open spec fn waiting_flags(cache: EngineCache) -> Seq<u8> {
    Seq::new(
        4,
        |i: int|
            if cache.wait@[i].waiting_set.bits != 0 {
                1u8
            } else {
                0u8
            },
    )
}

/// What player `i` gets or pays when the round is aborted: the payments
/// between waiting and other players when the wall is exhausted, the value
/// of all-terminal discards when the round ends on them, and nothing for
/// any other reason.
pub open spec fn abort_delta(
    begin: RoundBegin,
    state: State,
    abort_reason: AbortReason,
    cache: EngineCache,
    i: int,
) -> int {
    match abort_reason {
        AbortReason::WallExhausted => wall_exhausted_share(
            num_waiting(waiting_flags(cache)),
            waiting_flags(cache)[i] > 0,
        ),
        AbortReason::NagashiMangan => nagashi_mangan_upto(
            state,
            (begin.round_id.kyoku % 4) as int,
            4,
            i,
        ),
        _ => 0,
    }
}

/// Whether the button stays after an aborted round: if its player waits,
/// where the wall is exhausted, and always after a forced abort.
pub open spec fn abort_renchan(begin: RoundBegin, abort_reason: AbortReason, cache: EngineCache) -> bool {
    match abort_reason {
        AbortReason::WallExhausted | AbortReason::NagashiMangan => waiting_flags(
            cache,
        )[(begin.round_id.kyoku % 4) as int] > 0,
        _ => true,
    }
}

/// The end of a round that is aborted, field by field.
pub open spec fn is_abort_end(
    begin: RoundBegin,
    state: State,
    abort_reason: AbortReason,
    cache: EngineCache,
    end: RoundEnd,
) -> bool {
    &&& end.round_result == ActionResult::Abort(abort_reason)
    &&& end.pot == begin.pot + RIICHI_POT * active_riichi_upto(state.core, 4)
    &&& forall|i: int|
        0 <= i < 4 ==> #[trigger] end.points_delta@[i] == abort_delta(
            begin,
            state,
            abort_reason,
            cache,
            i,
        )
    &&& forall|i: int|
        0 <= i < 4 ==> #[trigger] end.points@[i] == begin.points@[i] + end.points_delta@[i]
    &&& end.renchan == abort_renchan(begin, abort_reason, cache)
    &&& end.next_round_id == Some(
        RoundId {
            kyoku: (begin.round_id.kyoku + (if end.renchan {
                0int
            } else {
                1int
            })) as u8,
            honba: (begin.round_id.honba + 1) as u8,
        },
    )
    &&& forall|i: int| 0 <= i < 4 ==> (#[trigger] end.agari_result@[i]).is_none()
}

/// The end of a round that is aborted. The stakes of all riichi go to the
/// pot. The next round counts as a repeat in any case; the button moves on
/// only where the wall is exhausted and its player does not wait.
pub fn next_abort(
    begin: &RoundBegin,
    state: &State,
    abort_reason: AbortReason,
    cache: &EngineCache,
) -> (end: RoundEnd)
    requires
        begin.wf(),
    ensures
        is_abort_end(*begin, *state, abort_reason, *cache, end),
{
    let pot: GamePoints = begin.pot + (num_active_riichi(state) as GamePoints) * RIICHI_POT;
    let round_id = begin.round_id;
    let button = round_id.button();
    let mut waiting: [u8; 4] = [0; 4];
    let mut i: usize = 0;
    while i < 4
        invariant
            i <= 4,
            forall|k: int| 0 <= k < i ==> #[trigger] waiting@[k] == waiting_flags(*cache)[k],
        decreases 4 - i,
    {
        waiting[i] = if cache.wait[i].waiting_set.any() {
            1
        } else {
            0
        };
        i += 1;
    }
    let waiting_renchan = waiting[button.to_usize()] > 0;
    let points_delta: [GamePoints; 4];
    let renchan: bool;
    match abort_reason {
        AbortReason::WallExhausted => {
            points_delta = calc_wall_exhausted_delta(waiting);
            renchan = waiting_renchan;
        },
        AbortReason::NagashiMangan => {
            points_delta = calc_nagashi_mangan_delta(state, button);
            renchan = waiting_renchan;
        },
        AbortReason::NineKinds
        | AbortReason::FourKan
        | AbortReason::FourWind
        | AbortReason::FourRiichi
        | AbortReason::DoubleRon
        | AbortReason::TripleRon => {
            points_delta = [0; 4];
            renchan = true;
        },
    }
    let next_round_id = Some(round_id.next_honba(renchan));
    let mut points = begin.points;
    let mut i: usize = 0;
    while i < 4
        invariant
            i <= 4,
            begin.wf(),
            forall|j: int| 0 <= j < 4 ==> -64000 <= #[trigger] points_delta@[j] <= 64000,
            forall|j: int|
                0 <= j < i ==> #[trigger] points@[j] == begin.points@[j] + points_delta@[j],
            forall|j: int| i <= j < 4 ==> #[trigger] points@[j] == begin.points@[j],
        decreases 4 - i,
    {
        points[i] = points[i] + points_delta[i];
        i += 1;
    }
    RoundEnd {
        round_result: ActionResult::Abort(abort_reason),
        pot,
        points,
        points_delta,
        renchan,
        next_round_id,
        agari_result: [None, None, None, None],
    }
}

} // verus!
