use riichi::engine::cache::EngineCache;
use riichi::engine::step::{
    finalize_agari, finalize_agari_with, is_agari_ready, is_normal_ready, next_abort, next_agari, next_normal,
};
use riichi::meld::{Ankan, Daiminkan, Kakan, Meld, Pon};
use riichi::model::{
    AbortReason, Action, ActionResult, AgariCandidate, AgariKind, Discard, FuritenFlags, Reaction,
    RiichiFlags, RoundBegin, RoundId, Scoring, State, StateCore,
};
use riichi::player::Player;
use riichi::tables::{GroupingTable, WaitingTable};
use riichi::tile::Tile;
use riichi::tile_set::TileSet37;

fn t(s: &str) -> Tile {
    let b = s.as_bytes();
    let num = b[0] - b'0';
    let code = match b[1] {
        b'm' => if num == 0 { 34 } else { num - 1 },
        b'p' => if num == 0 { 35 } else { 9 + num - 1 },
        b's' => if num == 0 { 36 } else { 18 + num - 1 },
        b'z' => 27 + num - 1,
        _ => panic!("no such suit"),
    };
    Tile::from_encoding(code).unwrap()
}

fn p(seat: u8) -> Player {
    Player::new(seat)
}

fn hand(tiles: &[&str]) -> TileSet37 {
    let mut h = TileSet37::new();
    for s in tiles {
        assert!(h.insert(t(s)));
    }
    h
}

const NO_RIICHI: RiichiFlags = RiichiFlags { is_active: false, is_ippatsu: false, is_double: false };
const NO_FURITEN: FuritenFlags = FuritenFlags { by_discard: false, miss_temporary: false, miss_permanent: false };

fn new_state(actor: u8) -> State {
    State {
        core: StateCore {
            seq: 8,
            action_player: p(actor),
            num_drawn_head: 60,
            num_drawn_tail: 0,
            num_dora_indicators: 1,
            draw: Some(t("5z")),
            incoming_meld: None,
            furiten: [NO_FURITEN; 4],
            riichi: [NO_RIICHI; 4],
        },
        melds: [vec![], vec![], vec![], vec![]],
        closed_hands: [TileSet37::new(); 4],
        discards: [vec![], vec![], vec![], vec![]],
    }
}

/// A round whose dora indicators are all 8s, and the tiles under them 8p:
/// no hand in these tests holds a 9s or a 9p unless it says so.
fn new_begin() -> RoundBegin {
    let mut wall: [Tile; 136] = std::array::from_fn(|i| Tile::from_encoding((i % 34) as u8).unwrap());
    for i in 0..5 {
        wall[130 - 2 * i] = t("8s");
        wall[131 - 2 * i] = t("8p");
    }
    RoundBegin { round_id: RoundId { kyoku: 0, honba: 0 }, wall, pot: 0, points: [25000; 4] }
}

fn discard(tile: &str, declares_riichi: bool) -> Action {
    Action::Discard(Discard { tile: t(tile), called_by: p(0), declares_riichi, is_tsumokiri: true })
}

fn candidate(yaku_fan: u8, fu: u8) -> AgariCandidate {
    AgariCandidate { scoring: Scoring { yaku_fan, yakuman_fan: 0, dora_hits: 0, fu } }
}

// waits on 1z and 2z
const READY: [&str; 13] = ["1m", "2m", "3m", "4p", "5p", "6p", "7s", "8s", "9s", "1z", "1z", "2z", "2z"];

#[test]
fn discard_that_nobody_calls_passes_the_turn() {
    let c_table = GroupingTable::new();
    let w_table = WaitingTable::new(&c_table);
    let cache = EngineCache::new(&c_table, &w_table);
    let begin = new_begin();
    for actor in 0..4u8 {
        let state = new_state(actor);
        let next = next_normal(&begin, &state, discard("5z", false), ActionResult::Pass, &cache);
        assert_eq!(
            next,
            StateCore {
                seq: 9,
                action_player: p((actor + 1) % 4),
                num_drawn_head: 61,
                draw: Some(begin.wall[60]),
                ..state.core
            }
        );
        // called by the discarding player itself means not called
        let same = next_normal(&begin, &state, discard("5z", false), ActionResult::CalledBy(p(actor)), &cache);
        assert_eq!(same, next);
    }
}

#[test]
fn called_discard_gives_the_turn_to_the_caller() {
    let c_table = GroupingTable::new();
    let w_table = WaitingTable::new(&c_table);
    let mut cache = EngineCache::new(&c_table, &w_table);
    let pon = Meld::Pon(Pon { own: [t("5z"); 2], called: t("5z"), dir: p(0) });
    cache.meld[2] = Some(pon);
    let begin = new_begin();
    let mut state = new_state(0);
    state.core.riichi[1] = RiichiFlags { is_active: true, is_ippatsu: true, is_double: false };
    state.core.riichi[3] = RiichiFlags { is_active: true, is_ippatsu: true, is_double: true };
    let next = next_normal(&begin, &state, discard("5z", false), ActionResult::CalledBy(p(2)), &cache);
    let mut riichi = state.core.riichi;
    riichi[1].is_ippatsu = false;
    riichi[3].is_ippatsu = false;
    assert_eq!(
        next,
        StateCore { seq: 9, action_player: p(2), draw: None, incoming_meld: Some(pon), riichi, ..state.core }
    );
}

#[test]
fn open_kan_draws_from_the_dead_wall() {
    let c_table = GroupingTable::new();
    let w_table = WaitingTable::new(&c_table);
    let mut cache = EngineCache::new(&c_table, &w_table);
    let kan = Meld::Daiminkan(Daiminkan { own: [t("5z"); 3], called: t("5z"), dir: p(0) });
    cache.meld[3] = Some(kan);
    let begin = new_begin();
    let mut state = new_state(0);
    state.core.num_drawn_tail = 1;
    let next = next_normal(&begin, &state, discard("5z", false), ActionResult::CalledBy(p(3)), &cache);
    assert_eq!(
        next,
        StateCore {
            seq: 9,
            action_player: p(3),
            draw: Some(begin.wall[135]),
            num_drawn_tail: 2,
            incoming_meld: Some(kan),
            ..state.core
        }
    );
    // its indicator is revealed after the discard of the next turn
    let mut after = state.clone();
    after.core = next;
    let then = next_normal(&begin, &after, discard("1m", false), ActionResult::Pass, &cache);
    assert_eq!(then.num_dora_indicators, 2);
    assert_eq!(then.incoming_meld, None);
    assert_eq!(then.action_player, p(0));
    assert_eq!(then.seq, 10);
}

#[test]
fn riichi_is_declared_with_the_discard() {
    let c_table = GroupingTable::new();
    let w_table = WaitingTable::new(&c_table);
    let mut cache = EngineCache::new(&c_table, &w_table);
    let begin = new_begin();
    let state = new_state(1);
    let next = next_normal(&begin, &state, discard("5z", true), ActionResult::Pass, &cache);
    assert_eq!(next.riichi[1], RiichiFlags { is_active: true, is_ippatsu: true, is_double: false });
    assert_eq!(next.riichi[0], NO_RIICHI);
    // in the first go-around it is a double riichi
    let mut first = new_state(1);
    first.core.seq = 1;
    let next = next_normal(&begin, &first, discard("5z", true), ActionResult::Pass, &cache);
    assert_eq!(next.riichi[1], RiichiFlags { is_active: true, is_ippatsu: true, is_double: true });
    first.melds[3] = vec![Meld::Ankan(Ankan { own: [t("1m"); 4] })];
    let next = next_normal(&begin, &first, discard("5z", true), ActionResult::Pass, &cache);
    assert_eq!(next.riichi[1], RiichiFlags { is_active: true, is_ippatsu: true, is_double: false });
    // a call takes the first-turn chance away at once
    cache.meld[3] = Some(Meld::Pon(Pon { own: [t("5z"); 2], called: t("5z"), dir: p(1) }));
    let next = next_normal(&begin, &state, discard("5z", true), ActionResult::CalledBy(p(3)), &cache);
    assert_eq!(next.riichi[1], RiichiFlags { is_active: true, is_ippatsu: false, is_double: false });
    // the next discard under riichi ends the chance
    let mut under = new_state(1);
    under.core.riichi[1] = RiichiFlags { is_active: true, is_ippatsu: true, is_double: true };
    let next = next_normal(&begin, &under, discard("5z", false), ActionResult::Pass, &cache);
    assert_eq!(next.riichi[1], RiichiFlags { is_active: true, is_ippatsu: false, is_double: true });
}

#[test]
fn kan_gives_another_turn() {
    let c_table = GroupingTable::new();
    let w_table = WaitingTable::new(&c_table);
    let mut cache = EngineCache::new(&c_table, &w_table);
    let begin = new_begin();
    let mut state = new_state(2);
    state.core.riichi[0] = RiichiFlags { is_active: true, is_ippatsu: true, is_double: false };
    let ankan = Meld::Ankan(Ankan { own: [t("1m"); 4] });
    cache.meld[2] = Some(ankan);
    let next = next_normal(&begin, &state, Action::Ankan(t("1m")), ActionResult::Pass, &cache);
    let mut riichi = state.core.riichi;
    riichi[0].is_ippatsu = false;
    assert_eq!(
        next,
        StateCore {
            seq: 9,
            action_player: p(2),
            draw: Some(begin.wall[134]),
            num_drawn_tail: 1,
            num_dora_indicators: 2,
            incoming_meld: Some(ankan),
            riichi,
            ..state.core
        }
    );
    let kakan = Meld::Kakan(Kakan { pon: Pon { own: [t("1m"); 2], called: t("1m"), dir: p(1) }, added: t("1m") });
    cache.meld[2] = Some(kakan);
    state.core.num_drawn_tail = 3;
    let next = next_normal(&begin, &state, Action::Kakan(t("1m")), ActionResult::Pass, &cache);
    assert_eq!(next.num_dora_indicators, 1);
    assert_eq!(next.draw, Some(begin.wall[133]));
    assert_eq!(next.num_drawn_tail, 4);
    assert_eq!(next.incoming_meld, Some(kakan));
    // a kan after a kan: the indicator owed is revealed, and for a concealed kan its own
    state.core.incoming_meld = Some(kakan);
    state.core.num_drawn_tail = 1;
    cache.meld[2] = Some(ankan);
    let next = next_normal(&begin, &state, Action::Ankan(t("1m")), ActionResult::Pass, &cache);
    assert_eq!(next.num_dora_indicators, 3);
}

#[test]
fn discarding_player_is_furiten_by_its_own_discards() {
    let c_table = GroupingTable::new();
    let w_table = WaitingTable::new(&c_table);
    let mut cache = EngineCache::new(&c_table, &w_table);
    cache.update_wait_cache(p(0), &hand(&READY));
    let begin = new_begin();
    let mut state = new_state(0);
    let d = |tile: &str| Discard { tile: t(tile), called_by: p(0), declares_riichi: false, is_tsumokiri: false };
    state.discards[0] = vec![d("9m"), d("5z")];
    state.core.furiten[0] = FuritenFlags { by_discard: true, miss_temporary: true, miss_permanent: false };
    let next = next_normal(&begin, &state, discard("5z", false), ActionResult::Pass, &cache);
    assert_eq!(next.furiten[0], NO_FURITEN);
    state.discards[0].push(d("2z"));
    state.core.furiten[0] = FuritenFlags { by_discard: false, miss_temporary: true, miss_permanent: false };
    let next = next_normal(&begin, &state, discard("5z", false), ActionResult::Pass, &cache);
    assert_eq!(next.furiten[0], FuritenFlags { by_discard: true, miss_temporary: false, miss_permanent: false });
    // the discards of others do not count
    state.discards[0] = vec![];
    state.discards[1] = vec![d("2z")];
    let next = next_normal(&begin, &state, discard("5z", false), ActionResult::Pass, &cache);
    assert_eq!(next.furiten[0], NO_FURITEN);
    // a permanent miss stays as it is, but the temporary one ends
    state.discards[0] = vec![d("2z")];
    state.core.furiten[0] = FuritenFlags { by_discard: false, miss_temporary: true, miss_permanent: true };
    let next = next_normal(&begin, &state, discard("5z", false), ActionResult::Pass, &cache);
    assert_eq!(next.furiten[0], FuritenFlags { by_discard: false, miss_temporary: false, miss_permanent: true });
}

#[test]
fn players_who_let_a_winning_tile_pass_are_furiten() {
    let c_table = GroupingTable::new();
    let w_table = WaitingTable::new(&c_table);
    let mut cache = EngineCache::new(&c_table, &w_table);
    cache.update_wait_cache(p(1), &hand(&READY));
    cache.update_wait_cache(p(2), &hand(&READY));
    cache.update_wait_cache(p(0), &hand(&READY));
    let begin = new_begin();
    let mut state = new_state(0);
    state.core.riichi[2].is_active = true;
    state.core.furiten[3] = FuritenFlags { by_discard: true, miss_temporary: false, miss_permanent: false };
    let next = next_normal(&begin, &state, discard("2z", false), ActionResult::Pass, &cache);
    assert_eq!(next.furiten[0], NO_FURITEN);
    assert_eq!(next.furiten[1], FuritenFlags { by_discard: false, miss_temporary: true, miss_permanent: false });
    assert_eq!(next.furiten[2], FuritenFlags { by_discard: false, miss_temporary: true, miss_permanent: true });
    assert_eq!(next.furiten[3], state.core.furiten[3]);
    let next = next_normal(&begin, &state, discard("3z", false), ActionResult::Pass, &cache);
    assert_eq!(next.furiten, state.core.furiten);
    // an added kan is missed like a discard
    cache.meld[0] = Some(Meld::Kakan(Kakan { pon: Pon { own: [t("2z"); 2], called: t("2z"), dir: p(1) }, added: t("2z") }));
    let next = next_normal(&begin, &state, Action::Kakan(t("2z")), ActionResult::Pass, &cache);
    assert!(next.furiten[1].miss_temporary);
    assert!(next.furiten[2].miss_permanent);
    // a concealed kan only by thirteen orphans
    cache.meld[0] = Some(Meld::Ankan(Ankan { own: [t("2z"); 4] }));
    let next = next_normal(&begin, &state, Action::Ankan(t("2z")), ActionResult::Pass, &cache);
    assert_eq!(next.furiten, state.core.furiten);
    let orphans = ["1m", "9m", "1p", "9p", "1s", "9s", "1z", "1z", "3z", "4z", "5z", "6z", "7z"];
    cache.update_wait_cache(p(3), &hand(&orphans));
    let next = next_normal(&begin, &state, Action::Ankan(t("2z")), ActionResult::Pass, &cache);
    assert_eq!(next.furiten[1], NO_FURITEN);
    assert_eq!(next.furiten[3], FuritenFlags { by_discard: true, miss_temporary: true, miss_permanent: false });
    // a player who has missed for good is left alone
    state.core.furiten[1] = FuritenFlags { by_discard: false, miss_temporary: false, miss_permanent: true };
    let next = next_normal(&begin, &state, discard("2z", false), ActionResult::Pass, &cache);
    assert_eq!(next.furiten[1], state.core.furiten[1]);
}

#[test]
fn best_candidate_is_chosen_with_dora_counted() {
    let c_table = GroupingTable::new();
    let w_table = WaitingTable::new(&c_table);
    let mut cache = EngineCache::new(&c_table, &w_table);
    // 1 fan 110 fu = 880, 3 fan 20 fu = 640; with 2 dora 2000 and 2000; with 3 dora 2000 and 3000
    cache.win[1] = vec![candidate(1, 110), candidate(3, 20)];
    let mut begin = new_begin();
    begin.pot = 2000;
    let mut state = new_state(0);
    state.core.riichi[2].is_active = true;
    let r = finalize_agari_with(&begin, &state, &cache, true, p(1), p(0), 0);
    assert_eq!(r.details, candidate(1, 110));
    assert_eq!(r.points_delta, [-3600, 3600 + 3000, 0, 0]);
    assert_eq!((r.winner, r.contributor, r.liable_player), (p(1), p(0), p(1)));
    let r = finalize_agari_with(&begin, &state, &cache, false, p(1), p(0), 0);
    assert_eq!(r.points_delta, [-3600, 3600, 0, 0]);
    // of equals, the last
    let r = finalize_agari_with(&begin, &state, &cache, false, p(1), p(0), 2);
    assert_eq!(r.details.scoring, Scoring { yaku_fan: 3, yakuman_fan: 0, dora_hits: 2, fu: 20 });
    assert_eq!(r.points_delta, [-8000, 8000, 0, 0]);
    let r = finalize_agari_with(&begin, &state, &cache, false, p(1), p(1), 3);
    assert_eq!(r.details.scoring, Scoring { yaku_fan: 3, yakuman_fan: 0, dora_hits: 3, fu: 20 });
    assert_eq!(r.points_delta, [-6000, 12000, -3000, -3000]);
    cache.win[1] = vec![candidate(3, 20), candidate(1, 110)];
    let r = finalize_agari_with(&begin, &state, &cache, false, p(1), p(0), 2);
    assert_eq!(r.details.scoring, Scoring { yaku_fan: 1, yakuman_fan: 0, dora_hits: 2, fu: 110 });
    let r = finalize_agari_with(&begin, &state, &cache, false, p(1), p(0), 3);
    assert_eq!(r.details.scoring, Scoring { yaku_fan: 3, yakuman_fan: 0, dora_hits: 3, fu: 20 });
}

#[test]
fn dora_are_counted_from_the_wall() {
    let c_table = GroupingTable::new();
    let w_table = WaitingTable::new(&c_table);
    let mut cache = EngineCache::new(&c_table, &w_table);
    cache.win[1] = vec![candidate(1, 30)];
    let mut begin = new_begin();
    // indicators 1m, 9s, 4z, 7z: dora 2m, 1s, 1z, 5z; under them 5p, 0p, 3z, 6z: 6p, 6p, 4z, 7z
    begin.wall[130] = t("1m");
    begin.wall[128] = t("9s");
    begin.wall[126] = t("4z");
    begin.wall[124] = t("7z");
    begin.wall[131] = t("5p");
    begin.wall[129] = t("0p");
    begin.wall[127] = t("3z");
    begin.wall[125] = t("6z");
    let mut state = new_state(0);
    state.closed_hands[1] = hand(&["2m", "2m", "3m", "1s", "0s", "6p", "1z", "1z", "5z", "7z"]);
    state.melds[1] = vec![Meld::Pon(Pon { own: [t("5m"), t("0m")], called: t("5m"), dir: p(0) })];
    state.core.num_dora_indicators = 1;
    let dora = |state: &State, kind, extra, tile: &str| {
        finalize_agari(&begin, state, &cache, kind, false, extra, p(1), p(0), t(tile)).details.scoring.dora_hits
    };
    // two 2m, and two red fives
    assert_eq!(dora(&state, AgariKind::Tsumo, 0, "2m"), 4);
    // the winning tile counts when it comes from another player
    assert_eq!(dora(&state, AgariKind::Ron, 0, "2m"), 5);
    assert_eq!(dora(&state, AgariKind::Ron, 0, "0p"), 5);
    assert_eq!(dora(&state, AgariKind::Ron, 0, "9p"), 4);
    // the second indicator makes the 1s dora
    assert_eq!(dora(&state, AgariKind::Tsumo, 1, "2m"), 5);
    state.core.num_dora_indicators = 2;
    assert_eq!(dora(&state, AgariKind::Tsumo, 0, "2m"), 5);
    // the third the 1z, the fourth the 5z
    assert_eq!(dora(&state, AgariKind::Tsumo, 1, "2m"), 7);
    assert_eq!(dora(&state, AgariKind::Tsumo, 2, "2m"), 8);
    // under riichi the tiles under the indicators count: 6p twice over
    state.core.riichi[1].is_active = true;
    assert_eq!(dora(&state, AgariKind::Tsumo, 0, "2m"), 7);
    state.core.num_dora_indicators = 4;
    assert_eq!(dora(&state, AgariKind::Tsumo, 0, "2m"), 8 + 2 + 1);
    // the riichi of another player does not
    state.core.riichi[1].is_active = false;
    state.core.riichi[0].is_active = true;
    assert_eq!(dora(&state, AgariKind::Tsumo, 0, "2m"), 8);
    // the tiles of a kan count four times
    state.melds[1] = vec![Meld::Ankan(Ankan { own: [t("5z"); 4] })];
    assert_eq!(dora(&state, AgariKind::Tsumo, 0, "2m"), 2 + 1 + 2 + 5 + 1);
    let r = finalize_agari(&begin, &state, &cache, AgariKind::Ron, false, 0, p(1), p(0), t("2m"));
    assert_eq!(r, finalize_agari_with(&begin, &state, &cache, false, p(1), p(0), 12));
    assert_eq!(r.points_delta, [-32000, 32000, 0, 0]);
}

#[test]
fn dora_go_round_within_suit_winds_and_dragons() {
    let pairs = [
        ("1m", "2m"), ("8m", "9m"), ("9m", "1m"), ("0m", "6m"), ("9p", "1p"), ("4s", "5s"), ("9s", "1s"),
        ("1z", "2z"), ("3z", "4z"), ("4z", "1z"), ("5z", "6z"), ("6z", "7z"), ("7z", "5z"),
    ];
    for (indicator, dora) in pairs {
        assert_eq!(t(indicator).indicated_dora(), t(dora));
    }
}

#[test]
fn tsumo_ends_the_round_for_the_actor() {
    let c_table = GroupingTable::new();
    let w_table = WaitingTable::new(&c_table);
    let mut cache = EngineCache::new(&c_table, &w_table);
    cache.win[2] = vec![candidate(3, 30)];
    let mut begin = new_begin();
    begin.pot = 1000;
    begin.round_id = RoundId { kyoku: 1, honba: 2 };
    begin.points = [30000, 20000, 24000, 25000];
    let mut state = new_state(2);
    state.core.riichi[2].is_active = true;
    state.core.num_dora_indicators = 0;
    state.closed_hands[2] = hand(&["0m"]);
    // a kan of the last turn adds no indicator for a self-drawn win
    state.core.incoming_meld = Some(Meld::Daiminkan(Daiminkan { own: [t("9s"); 3], called: t("9s"), dir: p(1) }));
    let reactions = [None, None, None, None];
    let end = next_agari(&begin, &state, Action::TsumoAgari(t("5z")), &reactions, AgariKind::Tsumo, &cache);
    assert_eq!(end.round_result, ActionResult::Agari(AgariKind::Tsumo));
    assert_eq!(end.pot, 0);
    // 4 fan 30 fu = 1920: 2000 + 200 from each, 3900 + 200 from the button; pot 1000 and one stake
    assert_eq!(end.points_delta, [-2200, -4100, 8500 + 2000, -2200]);
    assert_eq!(end.points, [27800, 15900, 34500, 22800]);
    assert!(!end.renchan);
    assert_eq!(end.next_round_id, Some(RoundId { kyoku: 2, honba: 0 }));
    assert!(end.agari_result[0].is_none() && end.agari_result[1].is_none() && end.agari_result[3].is_none());
    let one = end.agari_result[2].unwrap();
    assert_eq!(one.points_delta, end.points_delta);
    assert_eq!(one.details.scoring.dora_hits, 1);
    assert_eq!((one.winner, one.contributor), (p(2), p(2)));
    // the button wins: the round is repeated
    begin.round_id = RoundId { kyoku: 2, honba: 2 };
    let end = next_agari(&begin, &state, Action::TsumoAgari(t("5z")), &reactions, AgariKind::Tsumo, &cache);
    assert!(end.renchan);
    assert_eq!(end.next_round_id, Some(RoundId { kyoku: 2, honba: 3 }));
    assert_eq!(end.points_delta, [-4100, -4100, 12300 + 2000, -4100]);
}

#[test]
fn ron_of_two_players_gives_the_pot_to_the_nearer() {
    let c_table = GroupingTable::new();
    let w_table = WaitingTable::new(&c_table);
    let mut cache = EngineCache::new(&c_table, &w_table);
    cache.win[0] = vec![candidate(2, 30)];
    cache.win[3] = vec![candidate(1, 40)];
    let mut begin = new_begin();
    begin.pot = 3000;
    begin.round_id = RoundId { kyoku: 4, honba: 1 };
    let mut state = new_state(2);
    state.core.riichi[1].is_active = true;
    state.core.num_dora_indicators = 0;
    let reactions = [Some(Reaction::RonAgari), Some(Reaction::Pon(t("1z"), t("1z"))), None, Some(Reaction::RonAgari)];
    let end = next_agari(&begin, &state, discard("1z", false), &reactions, AgariKind::Ron, &cache);
    assert_eq!(end.round_result, ActionResult::Agari(AgariKind::Ron));
    // player 3 comes first after player 2: 1 fan 40 fu = 320, x4 = 1280 -> 1300, 300 for the repeat,
    // pot 3000 and one stake; player 0 has the button: 2 fan 30 fu = 480, x6 = 2880 -> 2900
    let first = end.agari_result[3].unwrap();
    let second = end.agari_result[0].unwrap();
    assert_eq!(first.points_delta, [0, 0, -1600, 1600 + 4000]);
    assert_eq!(second.points_delta, [2900, 0, -2900, 0]);
    assert_eq!(end.points_delta, [2900, 0, -4500, 5600]);
    assert_eq!(end.points, [27900, 25000, 20500, 30600]);
    assert!(end.agari_result[1].is_none() && end.agari_result[2].is_none());
    assert!(end.renchan);
    assert_eq!(end.next_round_id, Some(RoundId { kyoku: 4, honba: 2 }));
    assert_eq!(end.pot, 0);
    // the claim of the discarding player itself counts for nothing
    let reactions = [None, None, Some(Reaction::RonAgari), Some(Reaction::RonAgari)];
    let end = next_agari(&begin, &state, discard("1z", false), &reactions, AgariKind::Ron, &cache);
    assert!(end.agari_result[2].is_none());
    assert_eq!(end.points_delta, [0, 0, -1600, 5600]);
    assert!(!end.renchan);
    assert_eq!(end.next_round_id, Some(RoundId { kyoku: 5, honba: 0 }));
}

#[test]
fn ron_after_a_kan_counts_the_indicator_owed() {
    let c_table = GroupingTable::new();
    let w_table = WaitingTable::new(&c_table);
    let mut cache = EngineCache::new(&c_table, &w_table);
    cache.win[1] = vec![candidate(1, 30)];
    let mut begin = new_begin();
    begin.wall[130] = t("1m");
    begin.wall[128] = t("9s");
    let mut state = new_state(0);
    state.closed_hands[1] = hand(&["2m", "1s"]);
    state.core.num_dora_indicators = 1;
    let reactions = [None, Some(Reaction::RonAgari), None, None];
    let end = next_agari(&begin, &state, discard("1z", false), &reactions, AgariKind::Ron, &cache);
    assert_eq!(end.agari_result[1].unwrap().details.scoring.dora_hits, 1);
    state.core.incoming_meld = Some(Meld::Kakan(Kakan { pon: Pon { own: [t("1m"); 2], called: t("1m"), dir: p(1) }, added: t("1m") }));
    let end = next_agari(&begin, &state, discard("1z", false), &reactions, AgariKind::Ron, &cache);
    assert_eq!(end.agari_result[1].unwrap().details.scoring.dora_hits, 2);
    state.core.incoming_meld = Some(Meld::Ankan(Ankan { own: [t("1m"); 4] }));
    let end = next_agari(&begin, &state, discard("1z", false), &reactions, AgariKind::Ron, &cache);
    assert_eq!(end.agari_result[1].unwrap().details.scoring.dora_hits, 1);
    // the winning tile is one of the winner's tiles
    let end = next_agari(&begin, &state, discard("2m", false), &reactions, AgariKind::Ron, &cache);
    assert_eq!(end.agari_result[1].unwrap().details.scoring.dora_hits, 2);
}

#[test]
fn wall_exhaustion_pays_the_waiting_players() {
    let c_table = GroupingTable::new();
    let w_table = WaitingTable::new(&c_table);
    let mut cache = EngineCache::new(&c_table, &w_table);
    cache.update_wait_cache(p(1), &hand(&READY));
    let mut begin = new_begin();
    begin.pot = 1000;
    begin.round_id = RoundId { kyoku: 1, honba: 0 };
    let mut state = new_state(0);
    state.core.riichi[1].is_active = true;
    state.core.riichi[3].is_active = true;
    let end = next_abort(&begin, &state, AbortReason::WallExhausted, &cache);
    assert_eq!(end.round_result, ActionResult::Abort(AbortReason::WallExhausted));
    assert_eq!(end.pot, 3000);
    assert_eq!(end.points_delta, [-1000, 3000, -1000, -1000]);
    assert_eq!(end.points, [24000, 28000, 24000, 24000]);
    assert!(end.renchan);
    assert_eq!(end.next_round_id, Some(RoundId { kyoku: 1, honba: 1 }));
    assert_eq!(end.agari_result, [None, None, None, None]);
    begin.round_id = RoundId { kyoku: 2, honba: 4 };
    let end = next_abort(&begin, &state, AbortReason::WallExhausted, &cache);
    assert!(!end.renchan);
    assert_eq!(end.next_round_id, Some(RoundId { kyoku: 3, honba: 5 }));
    cache.update_wait_cache(p(2), &hand(&READY));
    cache.update_wait_cache(p(3), &hand(&READY));
    let end = next_abort(&begin, &state, AbortReason::WallExhausted, &cache);
    assert_eq!(end.points_delta, [-3000, 1000, 1000, 1000]);
    assert!(end.renchan);
}

#[test]
fn nagashi_mangan_ends_the_round_at_its_value() {
    let c_table = GroupingTable::new();
    let w_table = WaitingTable::new(&c_table);
    let mut cache = EngineCache::new(&c_table, &w_table);
    cache.update_wait_cache(p(0), &hand(&READY));
    let mut begin = new_begin();
    begin.round_id = RoundId { kyoku: 3, honba: 0 };
    let mut state = new_state(0);
    let d = |tile: &str, by: u8| Discard { tile: t(tile), called_by: p(by), declares_riichi: false, is_tsumokiri: false };
    state.discards = [vec![d("5m", 0)], vec![d("1m", 1), d("7z", 1)], vec![d("5m", 2)], vec![d("9p", 2)]];
    let end = next_abort(&begin, &state, AbortReason::NagashiMangan, &cache);
    assert_eq!(end.round_result, ActionResult::Abort(AbortReason::NagashiMangan));
    assert_eq!(end.points_delta, [-2000, 8000, -2000, -4000]);
    assert_eq!(end.points, [23000, 33000, 23000, 21000]);
    assert!(!end.renchan);
    assert_eq!(end.next_round_id, Some(RoundId { kyoku: 4, honba: 1 }));
    assert_eq!(end.pot, 0);
}

#[test]
fn forced_aborts_move_no_points_and_repeat_the_round() {
    let c_table = GroupingTable::new();
    let w_table = WaitingTable::new(&c_table);
    let mut cache = EngineCache::new(&c_table, &w_table);
    cache.update_wait_cache(p(1), &hand(&READY));
    let mut begin = new_begin();
    begin.pot = 500;
    begin.round_id = RoundId { kyoku: 2, honba: 1 };
    let mut state = new_state(0);
    state.core.riichi = [RiichiFlags { is_active: true, is_ippatsu: false, is_double: false }; 4];
    for reason in [
        AbortReason::NineKinds,
        AbortReason::FourKan,
        AbortReason::FourWind,
        AbortReason::FourRiichi,
        AbortReason::DoubleRon,
        AbortReason::TripleRon,
    ] {
        let end = next_abort(&begin, &state, reason, &cache);
        assert_eq!(end.round_result, ActionResult::Abort(reason));
        assert_eq!(end.points_delta, [0, 0, 0, 0]);
        assert_eq!(end.points, begin.points);
        assert_eq!(end.pot, 4500);
        assert!(end.renchan);
        assert_eq!(end.next_round_id, Some(RoundId { kyoku: 2, honba: 2 }));
        assert_eq!(end.agari_result, [None, None, None, None]);
    }
}

#[test]
fn normal_transition_is_ready_for_a_legal_action() {
    let c_table = GroupingTable::new();
    let w_table = WaitingTable::new(&c_table);
    let mut cache = EngineCache::new(&c_table, &w_table);
    let mut state = new_state(0);
    assert!(is_normal_ready(&state, discard("5z", false), ActionResult::Pass, &cache));
    assert!(is_normal_ready(&state, discard("5z", false), ActionResult::CalledBy(p(0)), &cache));
    // a call needs the meld of the caller
    assert!(!is_normal_ready(&state, discard("5z", false), ActionResult::CalledBy(p(1)), &cache));
    cache.meld[1] = Some(Meld::Pon(Pon { own: [t("5z"); 2], called: t("5z"), dir: p(0) }));
    assert!(is_normal_ready(&state, discard("5z", false), ActionResult::CalledBy(p(1)), &cache));
    // a kan needs a kan, and a tile in the dead wall
    assert!(!is_normal_ready(&state, Action::Ankan(t("1m")), ActionResult::Pass, &cache));
    cache.meld[0] = Some(Meld::Pon(Pon { own: [t("1m"); 2], called: t("1m"), dir: p(1) }));
    assert!(!is_normal_ready(&state, Action::Kakan(t("1m")), ActionResult::Pass, &cache));
    cache.meld[0] = Some(Meld::Ankan(Ankan { own: [t("1m"); 4] }));
    assert!(is_normal_ready(&state, Action::Ankan(t("1m")), ActionResult::Pass, &cache));
    state.core.num_drawn_tail = 4;
    assert!(!is_normal_ready(&state, Action::Ankan(t("1m")), ActionResult::Pass, &cache));
    assert!(is_normal_ready(&state, discard("5z", false), ActionResult::CalledBy(p(1)), &cache));
    state.core.num_drawn_tail = 0;
    // a win or an abort is no normal transition
    assert!(!is_normal_ready(&state, Action::TsumoAgari(t("5z")), ActionResult::Pass, &cache));
    assert!(!is_normal_ready(&state, Action::AbortNineKinds, ActionResult::Pass, &cache));
    // the counters need room
    state.core.seq = 255;
    assert!(!is_normal_ready(&state, discard("5z", false), ActionResult::Pass, &cache));
    state.core.seq = 8;
    state.core.num_drawn_head = 136;
    assert!(!is_normal_ready(&state, discard("5z", false), ActionResult::Pass, &cache));
    // a turn that begins with a meld draws nothing from the front
    assert!(is_normal_ready(&state, discard("5z", false), ActionResult::CalledBy(p(1)), &cache));
    assert!(is_normal_ready(&state, Action::Ankan(t("1m")), ActionResult::Pass, &cache));
    let next = next_normal(&new_begin(), &state, discard("5z", false), ActionResult::CalledBy(p(1)), &cache);
    assert_eq!(next.num_drawn_head, 136);
    assert_eq!(next.action_player, p(1));
    state.core.num_drawn_head = 60;
    // the indicators have room for one more unless two are revealed
    state.core.num_dora_indicators = 254;
    assert!(is_normal_ready(&state, discard("5z", false), ActionResult::Pass, &cache));
    assert!(is_normal_ready(&state, Action::Ankan(t("1m")), ActionResult::Pass, &cache));
    state.core.incoming_meld = Some(Meld::Daiminkan(Daiminkan { own: [t("9s"); 3], called: t("9s"), dir: p(1) }));
    assert!(is_normal_ready(&state, discard("5z", false), ActionResult::Pass, &cache));
    assert!(!is_normal_ready(&state, Action::Ankan(t("1m")), ActionResult::Pass, &cache));
    state.core.num_dora_indicators = 255;
    assert!(!is_normal_ready(&state, discard("5z", false), ActionResult::Pass, &cache));
    state.core.incoming_meld = None;
    assert!(is_normal_ready(&state, discard("5z", false), ActionResult::Pass, &cache));
    assert!(!is_normal_ready(&state, Action::Ankan(t("1m")), ActionResult::Pass, &cache));
}

#[test]
fn win_is_ready_when_every_winner_can_score() {
    let c_table = GroupingTable::new();
    let w_table = WaitingTable::new(&c_table);
    let mut cache = EngineCache::new(&c_table, &w_table);
    let mut begin = new_begin();
    let mut state = new_state(0);
    let none = [None, None, None, None];
    let two = [None, Some(Reaction::RonAgari), None, Some(Reaction::RonAgari)];
    assert!(!is_agari_ready(&begin, &state, Action::TsumoAgari(t("5z")), &none, AgariKind::Tsumo, &cache));
    cache.win[0] = vec![candidate(1, 30)];
    assert!(is_agari_ready(&begin, &state, Action::TsumoAgari(t("5z")), &none, AgariKind::Tsumo, &cache));
    assert!(is_agari_ready(&begin, &state, discard("5z", false), &none, AgariKind::Ron, &cache));
    assert!(!is_agari_ready(&begin, &state, discard("5z", false), &two, AgariKind::Ron, &cache));
    cache.win[1] = vec![candidate(1, 30)];
    cache.win[3] = vec![candidate(1, 30)];
    assert!(is_agari_ready(&begin, &state, discard("5z", false), &two, AgariKind::Ron, &cache));
    assert!(!is_agari_ready(&begin, &state, Action::AbortNineKinds, &two, AgariKind::Ron, &cache));
    state.core.draw = None;
    assert!(!is_agari_ready(&begin, &state, Action::TsumoAgari(t("5z")), &none, AgariKind::Tsumo, &cache));
    state.core.draw = Some(t("5z"));
    // no more indicators than the wall has
    state.core.num_dora_indicators = 5;
    assert!(is_agari_ready(&begin, &state, discard("5z", false), &two, AgariKind::Ron, &cache));
    state.core.incoming_meld = Some(Meld::Daiminkan(Daiminkan { own: [t("9s"); 3], called: t("9s"), dir: p(1) }));
    assert!(!is_agari_ready(&begin, &state, discard("5z", false), &two, AgariKind::Ron, &cache));
    assert!(is_agari_ready(&begin, &state, Action::TsumoAgari(t("5z")), &none, AgariKind::Tsumo, &cache));
    state.core.num_dora_indicators = 6;
    assert!(!is_agari_ready(&begin, &state, Action::TsumoAgari(t("5z")), &none, AgariKind::Tsumo, &cache));
    state.core.num_dora_indicators = 1;
    // points in range
    assert!(begin.is_wf());
    begin.points[2] = 1_000_000_000_001;
    assert!(!begin.is_wf());
    assert!(!is_agari_ready(&begin, &state, Action::TsumoAgari(t("5z")), &none, AgariKind::Tsumo, &cache));
    begin.points[2] = -1_000_000_000_000;
    assert!(begin.is_wf());
    begin.pot = -1;
    assert!(!begin.is_wf());
    begin.pot = 0;
    begin.round_id.honba = 255;
    assert!(!begin.is_wf());
}
