//! Which actions of the player in turn are legal.

use vstd::prelude::*;
use crate::decomp::WaitShape;
use crate::engine::cache::EngineCache;
use crate::engine::scoring::Scorer;
use crate::engine::utils::{
    ankan_ok_under_riichi,
    init_abortable,
    is_ankan_ok_under_riichi,
    is_first_chance,
    is_forbidden_swap_call,
    is_last_draw,
    swap_call_forbidden,
    wall_exhausted,
};
use crate::meld::{Ankan, Kakan, Meld, Pon};
use crate::model::{Action, AgariCandidate, Discard, RIICHI_POT, RoundBegin, State};
use crate::player::Player;
use crate::tile::Tile;
use crate::tile_set::{TileSet37, counts_without, keys_of};

verus! {

/// Why an action is not legal.
#[derive(Clone, Copy, Debug, PartialEq, Eq)]
pub enum ActionError {
    /// The tile discarded as the drawn tile is not the drawn tile.
    TsumokiriMismatch(Tile, Option<Tile>),
    /// A tile from the closed hand is discarded under riichi.
    DiscardClosedHandUnderRiichi,
    /// The discarded tile could have stood in the meld just called.
    NoSwapCalling(Tile, Meld),
    /// The tile is not in the closed hand.
    TileNotExist(Tile),
    /// Riichi is declared under riichi.
    DeclareRiichiAgain,
    /// Riichi is declared without the points for the stake.
    DeclareRiichiWithoutPoints,
    /// Riichi is declared with an open meld.
    DeclareRiichiWithOpenMeld,
    /// Riichi is declared with a hand that does not wait after the discard.
    DeclareRiichiWhileNotReady,
    /// A kan is made on the last tile that can be drawn.
    CannotKanOnLastDraw,
    /// A concealed kan under riichi would change how the hand can be read.
    InvalidAnkanUnderRiichi(Tile),
    /// The hand does not hold all four tiles for a concealed kan.
    NotEnoughForAnkan(Tile),
    /// The player has no pon to add the tile to.
    NoPonForKakan(Tile),
    /// The hand holds too few terminal and honor kinds to abort on nine.
    NotEnoughKindsForNineKinds(u8),
    /// The first go-around is over, or a tile has been called.
    NotInitAbortable,
    /// A win by self-draw is declared on another tile than the drawn one.
    MustDeclareTsumoAgariOnDraw,
    /// The hand does not win on the drawn tile, or is worth nothing.
    CannotTsumoAgari,
}

/// The seat of the player in turn.
pub open spec fn actor_of(state: State) -> int {
    state.core.action_player.index()
}

/// Whether the player in turn is under riichi.
pub open spec fn actor_under_riichi(state: State) -> bool {
    state.core.riichi@[actor_of(state)].is_active
}

/// The closed hand of the player in turn.
pub open spec fn actor_hand(state: State) -> TileSet37 {
    state.closed_hands@[actor_of(state)]
}

/// Why a discard is refused before the hand is looked at more closely, if
/// it is. Under riichi nothing but the drawn tile can be discarded: any
/// other tile is refused for that reason before anything else is asked.
pub open spec fn discard_refused_early(state: State, d: Discard) -> Option<ActionError> {
    if actor_under_riichi(state) && state.core.draw != Some(d.tile) {
        Some(ActionError::DiscardClosedHandUnderRiichi)
    } else if actor_under_riichi(state) && d.declares_riichi {
        Some(ActionError::DeclareRiichiAgain)
    } else if d.is_tsumokiri && state.core.draw != Some(d.tile) {
        Some(ActionError::TsumokiriMismatch(d.tile, state.core.draw))
    } else if !d.is_tsumokiri && actor_under_riichi(state) {
        Some(ActionError::DiscardClosedHandUnderRiichi)
    } else if actor_hand(state).count_of(d.tile.code()) == 0 {
        Some(ActionError::TileNotExist(d.tile))
    } else {
        None
    }
}

/// Whether some meld is not a concealed kan.
pub open spec fn has_open_meld(melds: Seq<Meld>) -> bool {
    exists|i: int| 0 <= i < melds.len() && !(#[trigger] melds[i] is Ankan)
}

/// Why a discard that is possible is refused all the same, if it is, where
/// `waiting_bits` are the kinds that the hand waits for after the discard.
pub open spec fn discard_refused_late(
    begin: RoundBegin,
    state: State,
    d: Discard,
    waiting_bits: u64,
) -> Option<ActionError> {
    if d.declares_riichi && begin.points@[actor_of(state)] < RIICHI_POT {
        Some(ActionError::DeclareRiichiWithoutPoints)
    } else if d.declares_riichi && has_open_meld(state.melds@[actor_of(state)]@) {
        Some(ActionError::DeclareRiichiWithOpenMeld)
    } else if d.declares_riichi && waiting_bits == 0 {
        Some(ActionError::DeclareRiichiWhileNotReady)
    } else if state.core.incoming_meld.is_some() && swap_call_forbidden(
        state.core.incoming_meld.unwrap(),
        d.tile,
    ) {
        Some(ActionError::NoSwapCalling(d.tile, state.core.incoming_meld.unwrap()))
    } else {
        None
    }
}

/// What judging a discard gives and leaves in the cache: an early refusal
/// leaves the cache as it was; otherwise the cache holds what the hand
/// waits for after the discard, also where the discard is then refused.
pub open spec fn discard_checked(
    begin: RoundBegin,
    state: State,
    d: Discard,
    before: EngineCache,
    after: EngineCache,
    r: Result<(), ActionError>,
) -> bool {
    match discard_refused_early(state, d) {
        Some(e) => r == Err::<(), ActionError>(e) && after == before,
        None => {
            &&& after.kept_from(before, actor_of(state), true, false, false)
            &&& after.wait@[actor_of(state)].summarizes(
                before.c_table(),
                before.w_table(),
                keys_of(counts_without(actor_hand(state)@, d.tile.code())),
            )
            &&& r == (match discard_refused_late(
                begin,
                state,
                d,
                after.wait@[actor_of(state)].waiting_set.bits,
            ) {
                Some(e) => Err::<(), ActionError>(e),
                None => Ok(()),
            })
        },
    }
}

/// Why a concealed kan of the kind of `tile` is refused, if it is, where
/// `waits` are the regular waits of the hand before the draw.
pub open spec fn ankan_refused(state: State, tile: Tile, waits: Seq<WaitShape>) -> Option<
    ActionError,
> {
    if wall_exhausted(state.core) {
        Some(ActionError::CannotKanOnLastDraw)
    } else if actor_under_riichi(state) && !ankan_ok_under_riichi(waits, tile) {
        Some(ActionError::InvalidAnkanUnderRiichi(Tile::of_code(tile.kind())))
    } else if !Ankan::in_hand(actor_hand(state), tile) {
        Some(ActionError::NotEnoughForAnkan(Tile::of_code(tile.kind())))
    } else {
        None
    }
}

/// What judging a concealed kan gives and leaves in the cache: a refusal
/// leaves the cache as it was; otherwise the cache holds the kan and what
/// the hand waits for without its four tiles.
pub open spec fn ankan_checked(
    state: State,
    tile: Tile,
    before: EngineCache,
    after: EngineCache,
    r: Result<(), ActionError>,
) -> bool {
    match ankan_refused(state, tile, before.wait@[actor_of(state)].shapes()) {
        Some(e) => r == Err::<(), ActionError>(e) && after == before,
        None => {
            &&& r.is_ok()
            &&& after.kept_from(before, actor_of(state), true, true, false)
            &&& after.meld@[actor_of(state)] matches Some(Meld::Ankan(ankan))
            &&& after.meld@[actor_of(state)]->0->Ankan_0.taken_from(actor_hand(state), tile)
            &&& after.wait@[actor_of(state)].summarizes(
                before.c_table(),
                before.w_table(),
                keys_of(after.meld@[actor_of(state)]->0->Ankan_0.consumed(actor_hand(state)@)),
            )
        },
    }
}

/// The number of pons of normal kind `kind` among melds, counted up to 2.
pub open spec fn count_pons(melds: Seq<Meld>, kind: int) -> int
    decreases melds.len(),
{
    if melds.len() == 0 {
        0
    } else {
        let rest = count_pons(melds.drop_last(), kind);
        if is_pon_of(melds.last(), kind) && rest < 2 {
            rest + 1
        } else {
            rest
        }
    }
}

/// Whether a meld is a pon of normal kind `kind`.
pub open spec fn is_pon_of(meld: Meld, kind: int) -> bool {
    meld matches Meld::Pon(pon) && pon.called.kind() == kind
}

/// The last pon of normal kind `kind` among melds.
pub open spec fn last_pon(melds: Seq<Meld>, kind: int) -> Option<Pon>
    decreases melds.len(),
{
    if melds.len() == 0 {
        None
    } else if is_pon_of(melds.last(), kind) {
        Some(melds.last()->Pon_0)
    } else {
        last_pon(melds.drop_last(), kind)
    }
}

/// Why adding `added` to a pon is refused, if it is.
pub open spec fn kakan_refused(state: State, added: Tile) -> Option<ActionError> {
    if wall_exhausted(state.core) {
        Some(ActionError::CannotKanOnLastDraw)
    } else if count_pons(state.melds@[actor_of(state)]@, added.kind()) != 1 {
        Some(ActionError::NoPonForKakan(added))
    } else if Kakan::added_code(actor_hand(state), added.kind()).is_none() {
        Some(ActionError::TileNotExist(added))
    } else {
        None
    }
}

/// What judging an added kan gives and leaves in the cache: a refusal
/// leaves the cache as it was; otherwise the cache holds the kan, made of
/// the player's one pon of the kind and the tile of the kind from the
/// hand, and what the hand waits for without that tile.
pub open spec fn kakan_checked(
    state: State,
    added: Tile,
    before: EngineCache,
    after: EngineCache,
    r: Result<(), ActionError>,
) -> bool {
    match kakan_refused(state, added) {
        Some(e) => r == Err::<(), ActionError>(e) && after == before,
        None => {
            &&& r.is_ok()
            &&& after.kept_from(before, actor_of(state), true, true, false)
            &&& after.meld@[actor_of(state)] matches Some(Meld::Kakan(kakan))
            &&& Some(after.meld@[actor_of(state)]->0->Kakan_0.pon) == last_pon(
                state.melds@[actor_of(state)]@,
                added.kind(),
            )
            &&& Some(after.meld@[actor_of(state)]->0->Kakan_0.added.code()) == Kakan::added_code(
                actor_hand(state),
                added.kind(),
            )
            &&& after.wait@[actor_of(state)].summarizes(
                before.c_table(),
                before.w_table(),
                keys_of(after.meld@[actor_of(state)]->0->Kakan_0.consumed(actor_hand(state)@)),
            )
        },
    }
}

/// Whether what the player in turn waits for has to be worked out anew
/// before a win by self-draw is judged: after an open kan the hand in the
/// cache is not yet the hand that waited for the drawn tile.
pub open spec fn tsumo_needs_rewind(state: State) -> bool {
    state.core.incoming_meld matches Some(Meld::Daiminkan(_))
}

/// What judging a win by self-draw gives and leaves in the cache, whatever
/// the scorer finds: on another tile than the drawn one it is refused and
/// the cache left as it was. Otherwise, after an open kan the cache holds
/// what the hand waits for without the drawn tile; the win is refused if
/// the scorer finds no way to score it, and else the cache holds the ways
/// found.
pub open spec fn tsumo_agari_checked(
    state: State,
    tile: Tile,
    before: EngineCache,
    after: EngineCache,
    r: Result<(), ActionError>,
) -> bool {
    if state.core.draw != Some(tile) {
        r == Err::<(), ActionError>(ActionError::MustDeclareTsumoAgariOnDraw) && after == before
    } else {
        &&& after.kept_from(before, actor_of(state), tsumo_needs_rewind(state), false, r.is_ok())
        &&& tsumo_needs_rewind(state) ==> after.wait@[actor_of(state)].summarizes(
            before.c_table(),
            before.w_table(),
            keys_of(counts_without(actor_hand(state)@, tile.code())),
        )
        &&& r.is_err() ==> r == Err::<(), ActionError>(ActionError::CannotTsumoAgari)
        &&& r.is_err() && !tsumo_needs_rewind(state) ==> after == before
        &&& r.is_ok() ==> after.win@[actor_of(state)]@.len() > 0
    }
}

/// Whether aborting on nine terminal kinds is legal: in the first
/// go-around with no meld made, with nine kinds of terminals and honors
/// in hand.
pub open spec fn nine_kinds_checked(state: State) -> Result<(), ActionError> {
    if !init_abortable(state) {
        Err(ActionError::NotInitAbortable)
    } else if actor_hand(state).terminal_kinds_upto(34) < 9 {
        Err(ActionError::NotEnoughKindsForNineKinds(actor_hand(state).terminal_kinds_upto(34) as u8))
    } else {
        Ok(())
    }
}

/// Accepts the ways to score a win that the scorer has found: none is no
/// win; else they are kept for `player`.
pub fn accept_win_candidates(
    cache: &mut EngineCache,
    player: Player,
    candidates: Vec<AgariCandidate>,
) -> (r: Result<(), ActionError>)
    ensures
        candidates@.len() == 0 ==> r == Err::<(), ActionError>(ActionError::CannotTsumoAgari)
            && *final(cache) == *old(cache),
        candidates@.len() > 0 ==> r.is_ok() && final(cache).win@[player.index()] == candidates
            && final(cache).decomposer == old(cache).decomposer && final(cache).kept_from(
            *old(cache),
            player.index(),
            false,
            false,
            true,
        ),
{
    if candidates.len() == 0 {
        return Err(ActionError::CannotTsumoAgari);
    }
    cache.win[player.to_usize()] = candidates;
    Ok(())
}

/// The one pon of the kind of `added` among melds, if there is exactly one.
fn find_pon(melds: &Vec<Meld>, added: Tile) -> (r: Option<Pon>)
    ensures
        r.is_some() == (count_pons(melds@, added.kind()) == 1),
        r.is_some() ==> r == last_pon(melds@, added.kind()),
        r.is_some() ==> r.unwrap().called.kind() == added.kind(),
{
    let kind: u8 = added.normal_encoding();
    let mut n: u8 = 0;
    let mut found: Option<Pon> = None;
    let mut i: usize = 0;
    while i < melds.len()
        invariant
            i <= melds.len(),
            kind == added.kind(),
            n <= 2,
            n == count_pons(melds@.take(i as int), kind as int),
            found == last_pon(melds@.take(i as int), kind as int),
            (n > 0) == found.is_some(),
            found.is_some() ==> found.unwrap().called.kind() == kind,
        decreases melds.len() - i,
    {
        proof {
            assert(melds@.take(i as int + 1).drop_last() =~= melds@.take(i as int));
        }
        if let Meld::Pon(pon) = melds[i] {
            if pon.called.normal_encoding() == kind {
                if n < 2 {
                    n += 1;
                }
                found = Some(pon);
            }
        }
        i += 1;
    }
    assert(melds@.take(melds.len() as int) =~= melds@);
    if n == 1 {
        found
    } else {
        None
    }
}

/// Whether some meld is not a concealed kan.
fn any_open_meld(melds: &Vec<Meld>) -> (r: bool)
    ensures
        r == has_open_meld(melds@),
{
    let mut i: usize = 0;
    while i < melds.len()
        invariant
            i <= melds.len(),
            forall|k: int| 0 <= k < i ==> #[trigger] melds@[k] is Ankan,
        decreases melds.len() - i,
    {
        if !matches!(melds[i], Meld::Ankan(_)) {
            return true;
        }
        i += 1;
    }
    false
}

/// Judges the action of the player in turn. A legal action is accepted; an
/// illegal one is refused with its cause. The state is left as it is; the
/// cache takes up what was worked out on the way.
pub fn check_action<S: Scorer>(
    begin: &RoundBegin,
    state: &State,
    action: Action,
    cache: &mut EngineCache,
    scorer: &S,
) -> (r: Result<(), ActionError>)
    requires
        old(cache).wf(),
    ensures
        final(cache).wf(),
        match action {
            Action::Discard(d) => discard_checked(*begin, *state, d, *old(cache), *final(cache), r),
            Action::Ankan(tile) => ankan_checked(*state, tile, *old(cache), *final(cache), r),
            Action::Kakan(added) => kakan_checked(*state, added, *old(cache), *final(cache), r),
            Action::TsumoAgari(tile) => tsumo_agari_checked(
                *state,
                tile,
                *old(cache),
                *final(cache),
                r,
            ),
            Action::AbortNineKinds => r == nine_kinds_checked(*state) && *final(cache) == *old(
                cache,
            ),
        },
        // Under riichi, a discard of another tile than the drawn one is
        // refused for that reason, whatever the hand holds.
        action matches Action::Discard(d) && actor_under_riichi(*state) && state.core.draw
            != Some(d.tile) ==> r == Err::<(), ActionError>(
            ActionError::DiscardClosedHandUnderRiichi,
        ),
{
    let actor = state.core.action_player;
    let actor_i = actor.to_usize();
    let mut hand = state.closed_hands[actor_i];
    let under_riichi = state.core.riichi[actor_i].is_active;

    match action {
        Action::Discard(discard) => {
            let drawn = match state.core.draw {
                Some(t) => t == discard.tile,
                None => false,
            };
            if under_riichi && !drawn {
                return Err(ActionError::DiscardClosedHandUnderRiichi);
            }
            if under_riichi && discard.declares_riichi {
                return Err(ActionError::DeclareRiichiAgain);
            }
            if discard.is_tsumokiri {
                if !drawn {
                    return Err(ActionError::TsumokiriMismatch(discard.tile, state.core.draw));
                }
            } else {
                if under_riichi {
                    return Err(ActionError::DiscardClosedHandUnderRiichi);
                }
            }
            if hand.count(discard.tile) == 0 {
                return Err(ActionError::TileNotExist(discard.tile));
            }
            hand.remove(discard.tile);
            cache.update_wait_cache(actor, &hand);

            if discard.declares_riichi {
                if begin.points[actor_i] < RIICHI_POT {
                    return Err(ActionError::DeclareRiichiWithoutPoints);
                }
                if any_open_meld(&state.melds[actor_i]) {
                    return Err(ActionError::DeclareRiichiWithOpenMeld);
                }
                if cache.wait[actor_i].waiting_set.is_empty() {
                    return Err(ActionError::DeclareRiichiWhileNotReady);
                }
            }
            if let Some(meld) = state.core.incoming_meld {
                if is_forbidden_swap_call(meld, discard.tile) {
                    return Err(ActionError::NoSwapCalling(discard.tile, meld));
                }
            }
        },
        Action::Ankan(tile) => {
            let normal = tile.to_normal();
            if is_last_draw(state) {
                return Err(ActionError::CannotKanOnLastDraw);
            }
            if under_riichi && !is_ankan_ok_under_riichi(
                cache.wait[actor_i].regular.as_slice(),
                normal,
            ) {
                return Err(ActionError::InvalidAnkanUnderRiichi(normal));
            }
            if let Some(ankan) = Ankan::from_hand(&hand, normal) {
                ankan.consume_from_hand(&mut hand);
                cache.meld[actor_i] = Some(Meld::Ankan(ankan));
                cache.update_wait_cache(actor, &hand);
            } else {
                return Err(ActionError::NotEnoughForAnkan(normal));
            }
        },
        Action::Kakan(added) => {
            if is_last_draw(state) {
                return Err(ActionError::CannotKanOnLastDraw);
            }
            let pon = match find_pon(&state.melds[actor_i], added) {
                Some(pon) => pon,
                None => {
                    return Err(ActionError::NoPonForKakan(added));
                },
            };
            if let Some(kakan) = Kakan::from_pon_hand(pon, &hand) {
                kakan.consume_from_hand(&mut hand);
                cache.meld[actor_i] = Some(Meld::Kakan(kakan));
                cache.update_wait_cache(actor, &hand);
            } else {
                return Err(ActionError::TileNotExist(added));
            }
        },
        Action::TsumoAgari(tile) => {
            let drawn = match state.core.draw {
                Some(t) => t == tile,
                None => false,
            };
            if !drawn {
                return Err(ActionError::MustDeclareTsumoAgariOnDraw);
            }
            if let Some(Meld::Daiminkan(_)) = state.core.incoming_meld {
                hand.remove(tile);
                cache.update_wait_cache(actor, &hand);
            }
            let candidates = scorer.agari_candidates(
                begin,
                state,
                &cache.wait[actor_i],
                action,
                actor,
                actor,
            );
            return accept_win_candidates(cache, actor, candidates);
        },
        Action::AbortNineKinds => {
            if !is_first_chance(state) {
                return Err(ActionError::NotInitAbortable);
            }
            let n: u8 = hand.terminal_kinds();
            if n < 9 {
                return Err(ActionError::NotEnoughKindsForNineKinds(n));
            }
        },
    }
    Ok(())
}

} // verus!
