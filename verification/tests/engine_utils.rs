use riichi::decomp::RegularWait;
use riichi::engine::scoring::distribute_points;
use riichi::engine::utils::{
    all_players, calc_nagashi_mangan_delta, calc_wall_exhausted_delta, is_aborted_four_kan,
    is_aborted_four_riichi, is_aborted_four_wind, is_ankan_ok_under_riichi, is_any_player_nagashi_mangan,
    is_first_chance, is_forbidden_swap_call, is_init_abortable, is_last_draw, is_nagashi_mangan,
    is_wall_exhausted, num_active_riichi, other_players_after, player_oppo, player_pred, player_succ,
    resolve_wall_exhausted,
};
use riichi::group::HandGroup;
use riichi::meld::{Ankan, Chii, Daiminkan, Kakan, Meld, Pon};
use riichi::model::{
    kan_draw, Action, ActionResult, AgariKind, Discard, FuritenFlags, RiichiFlags, RoundId, Scoring, State,
    StateCore, Wall,
};
use riichi::player::Player;
use riichi::tables::WaitingKind;
use riichi::tile::Tile;
use riichi::tile_set::TileSet37;

fn t(s: &str) -> Tile {
    let b = s.as_bytes();
    let num = b[0] - b'0';
    let code = match b[1] {
        b'm' => if num == 0 { 34 } else { num - 1 },
        b'p' => if num == 0 { 35 } else { 9 + num - 1 },
        b's' => if num == 0 { 36 } else { 18 + num - 1 },
        b'z' => 27 + num - 1,
        _ => panic!("no such suit"),
    };
    Tile::from_encoding(code).unwrap()
}

fn p(seat: u8) -> Player {
    Player::new(seat)
}

fn new_state() -> State {
    State {
        core: StateCore {
            seq: 0,
            action_player: p(0),
            num_drawn_head: 53,
            num_drawn_tail: 0,
            num_dora_indicators: 1,
            draw: None,
            incoming_meld: None,
            furiten: [FuritenFlags { by_discard: false, miss_temporary: false, miss_permanent: false }; 4],
            riichi: [RiichiFlags { is_active: false, is_ippatsu: false, is_double: false }; 4],
        },
        melds: [vec![], vec![], vec![], vec![]],
        closed_hands: [TileSet37::new(); 4],
        discards: [vec![], vec![], vec![], vec![]],
    }
}

fn discard(tile: &str, by: u8) -> Discard {
    Discard { tile: t(tile), called_by: p(by), declares_riichi: false, is_tsumokiri: false }
}

fn pon(tile: &str) -> Meld {
    Meld::Pon(Pon { own: [t(tile), t(tile)], called: t(tile), dir: p(1) })
}

fn ankan(tile: &str) -> Meld {
    Meld::Ankan(Ankan { own: [t(tile); 4] })
}

fn kakan(tile: &str) -> Meld {
    Meld::Kakan(Kakan { pon: Pon { own: [t(tile), t(tile)], called: t(tile), dir: p(1) }, added: t(tile) })
}

fn daiminkan(tile: &str) -> Meld {
    Meld::Daiminkan(Daiminkan { own: [t(tile); 3], called: t(tile), dir: p(2) })
}

#[test]
fn players_go_round_the_table() {
    let all = all_players();
    for i in 0..4u8 {
        assert_eq!(all[i as usize], p(i));
        assert_eq!(all[i as usize].to_usize(), i as usize);
        assert_eq!(all[i as usize].to_u8(), i);
        assert_eq!(player_succ(p(i)), p((i + 1) % 4));
        assert_eq!(player_oppo(p(i)), p((i + 2) % 4));
        assert_eq!(player_pred(p(i)), p((i + 3) % 4));
        assert_eq!(other_players_after(p(i)), [p((i + 1) % 4), p((i + 2) % 4), p((i + 3) % 4)]);
        assert_eq!(player_pred(player_succ(p(i))), p(i));
    }
    assert_eq!(p(3).wrapping_add(p(3)), p(2));
}

#[test]
fn swap_call_after_chii() {
    // 56m calls 7m: neither the 7m nor the 4m may go
    let high = Meld::Chii(Chii { own: [t("5m"), t("6m")], called: t("7m"), min: t("5m"), dir: 2 });
    assert!(is_forbidden_swap_call(high, t("7m")));
    assert!(is_forbidden_swap_call(high, t("4m")));
    assert!(!is_forbidden_swap_call(high, t("8m")));
    assert!(!is_forbidden_swap_call(high, t("5m")));
    assert!(!is_forbidden_swap_call(high, t("4p")));
    // 56m calls 4m: neither the 4m nor the 7m may go
    let low = Meld::Chii(Chii { own: [t("0m"), t("6m")], called: t("4m"), min: t("4m"), dir: 0 });
    assert!(is_forbidden_swap_call(low, t("4m")));
    assert!(is_forbidden_swap_call(low, t("7m")));
    assert!(!is_forbidden_swap_call(low, t("3m")));
    // 68m calls 7m: only the 7m may not go
    let mid = Meld::Chii(Chii { own: [t("6m"), t("8m")], called: t("7m"), min: t("6m"), dir: 1 });
    assert!(is_forbidden_swap_call(mid, t("7m")));
    assert!(!is_forbidden_swap_call(mid, t("5m")));
    assert!(!is_forbidden_swap_call(mid, t("9m")));
    // 78m calls 9m: nothing below 7m+... the 6m may not go, and there is no tile above
    let top = Meld::Chii(Chii { own: [t("7m"), t("8m")], called: t("9m"), min: t("7m"), dir: 2 });
    assert!(is_forbidden_swap_call(top, t("6m")));
    assert!(is_forbidden_swap_call(top, t("9m")));
    // a red five called is a five
    let red = Meld::Chii(Chii { own: [t("3p"), t("4p")], called: t("0p"), min: t("3p"), dir: 2 });
    assert!(is_forbidden_swap_call(red, t("5p")));
    assert!(is_forbidden_swap_call(red, t("2p")));
}

#[test]
fn swap_call_after_pon_and_kan() {
    assert!(is_forbidden_swap_call(pon("5s"), t("5s")));
    assert!(is_forbidden_swap_call(pon("5s"), t("0s")));
    assert!(!is_forbidden_swap_call(pon("5s"), t("6s")));
    assert!(!is_forbidden_swap_call(daiminkan("5s"), t("5s")));
    assert!(!is_forbidden_swap_call(ankan("5s"), t("5s")));
    assert!(!is_forbidden_swap_call(kakan("5s"), t("5s")));
}

#[test]
fn ankan_under_riichi_needs_the_triplet_in_every_reading() {
    let k = |s: &str| HandGroup::Koutsu(t(s));
    let s = |s: &str| HandGroup::Shuntsu(t(s));
    let with = RegularWait::new(&[k("1m"), s("4p"), s("7s")], Some(t("1z")), WaitingKind::Shanpon, t("2z"), t("2z"));
    let also = RegularWait::new(&[s("4p"), k("1m"), s("7s")], Some(t("2z")), WaitingKind::Shanpon, t("1z"), t("1z"));
    let without = RegularWait::new(&[s("1m"), s("4p"), s("7s")], Some(t("1m")), WaitingKind::Tanki, t("2z"), t("2z"));
    assert!(is_ankan_ok_under_riichi(&[], t("1m")));
    assert!(is_ankan_ok_under_riichi(&[with.clone(), also.clone()], t("1m")));
    assert!(!is_ankan_ok_under_riichi(&[with.clone(), without.clone(), also.clone()], t("1m")));
    assert!(!is_ankan_ok_under_riichi(&[with.clone()], t("4p")));
    assert!(!is_ankan_ok_under_riichi(&[with], t("1z")));
    let five = RegularWait::new(&[k("5p")], None, WaitingKind::Tanki, t("2z"), t("2z"));
    assert!(is_ankan_ok_under_riichi(&[five], t("0p")));
}

#[test]
fn counts_active_riichi() {
    let mut state = new_state();
    assert_eq!(num_active_riichi(&state), 0);
    state.core.riichi[1].is_active = true;
    state.core.riichi[3].is_active = true;
    state.core.riichi[2].is_ippatsu = true;
    assert_eq!(num_active_riichi(&state), 2);
    state.core.riichi[0].is_active = true;
    state.core.riichi[2].is_active = true;
    assert_eq!(num_active_riichi(&state), 4);
}

#[test]
fn first_go_around_ends_with_the_fourth_turn_or_a_meld() {
    let mut state = new_state();
    assert!(is_init_abortable(&state));
    assert!(is_first_chance(&state));
    state.core.seq = 3;
    assert!(is_init_abortable(&state));
    state.core.seq = 4;
    assert!(!is_init_abortable(&state));
    assert!(!is_first_chance(&state));
    state.core.seq = 2;
    state.melds[3].push(pon("1z"));
    assert!(!is_init_abortable(&state));
}

#[test]
fn wall_is_exhausted_after_122_draws() {
    let mut state = new_state();
    assert!(!is_wall_exhausted(&state));
    state.core.num_drawn_head = 122;
    assert!(is_wall_exhausted(&state));
    assert!(is_last_draw(&state));
    state.core.num_drawn_head = 119;
    state.core.num_drawn_tail = 3;
    assert!(is_wall_exhausted(&state));
    state.core.num_drawn_tail = 2;
    assert!(!is_wall_exhausted(&state));
    state.core.num_drawn_head = 255;
    state.core.num_drawn_tail = 123;
    assert!(!is_wall_exhausted(&state));
}

#[test]
fn kan_draws_come_from_the_end_of_the_wall() {
    let wall: Wall = std::array::from_fn(|i| Tile::from_encoding((i % 37) as u8).unwrap());
    assert_eq!(kan_draw(&wall, 0), wall[134]);
    assert_eq!(kan_draw(&wall, 1), wall[135]);
    assert_eq!(kan_draw(&wall, 2), wall[132]);
    assert_eq!(kan_draw(&wall, 3), wall[133]);
}

#[test]
fn nagashi_mangan_needs_terminals_that_nobody_called() {
    let mut state = new_state();
    state.discards[0] = vec![discard("1m", 0), discard("7z", 0), discard("9s", 0)];
    state.discards[1] = vec![discard("1m", 1), discard("2m", 1)];
    state.discards[2] = vec![discard("1m", 2), discard("9m", 3)];
    assert!(is_nagashi_mangan(&state, p(0)));
    assert!(!is_nagashi_mangan(&state, p(1)));
    assert!(!is_nagashi_mangan(&state, p(2)));
    assert!(is_nagashi_mangan(&state, p(3)));
    assert!(is_any_player_nagashi_mangan(&state));
    state.discards[0].push(discard("5z", 1));
    state.discards[3].push(discard("0p", 3));
    assert!(!is_any_player_nagashi_mangan(&state));
}

#[test]
fn four_winds_abort_on_the_fourth_same_wind() {
    let mut state = new_state();
    state.core.seq = 3;
    state.core.action_player = p(3);
    for i in 0..3 {
        state.discards[i] = vec![discard("2z", i as u8)];
    }
    let act = |tile: &str| Action::Discard(discard(tile, 3));
    assert!(is_aborted_four_wind(&state, act("2z")));
    assert!(!is_aborted_four_wind(&state, act("3z")));
    assert!(!is_aborted_four_wind(&state, Action::Ankan(t("2z"))));
    state.core.seq = 2;
    assert!(!is_aborted_four_wind(&state, act("2z")));
    state.core.seq = 3;
    state.discards[1] = vec![discard("3z", 1)];
    assert!(!is_aborted_four_wind(&state, act("2z")));
    state.discards[1] = vec![discard("2z", 1), discard("2z", 1)];
    assert!(!is_aborted_four_wind(&state, act("2z")));
    state.discards[1] = vec![discard("2z", 1)];
    state.melds[0].push(ankan("1m"));
    assert!(!is_aborted_four_wind(&state, act("2z")));
    // dragons are no winds
    let mut state = new_state();
    state.core.seq = 3;
    for i in 0..3 {
        state.discards[i] = vec![discard("5z", i as u8)];
    }
    assert!(!is_aborted_four_wind(&state, act("5z")));
}

#[test]
fn four_kans_abort_unless_one_player_made_three() {
    let mut state = new_state();
    state.melds[0] = vec![ankan("1m"), kakan("2m"), pon("3m")];
    state.melds[1] = vec![daiminkan("1p")];
    assert!(is_aborted_four_kan(&state, Action::Ankan(t("5m")), ActionResult::Pass));
    assert!(is_aborted_four_kan(&state, Action::Kakan(t("3m")), ActionResult::Pass));
    assert!(is_aborted_four_kan(&state, Action::Discard(discard("5m", 0)), ActionResult::Daiminkan));
    assert!(!is_aborted_four_kan(&state, Action::Discard(discard("5m", 0)), ActionResult::Pass));
    assert!(!is_aborted_four_kan(&state, Action::Discard(discard("5m", 0)), ActionResult::CalledBy(p(1))));
    assert!(!is_aborted_four_kan(&state, Action::TsumoAgari(t("5m")), ActionResult::Agari(AgariKind::Tsumo)));
    // three kans of the player in turn: a fourth is allowed
    state.melds[0] = vec![ankan("1m"), kakan("2m"), ankan("4m")];
    state.melds[1] = vec![pon("1p")];
    assert!(!is_aborted_four_kan(&state, Action::Ankan(t("5m")), ActionResult::Pass));
    // three kans of another player
    state.core.action_player = p(1);
    assert!(is_aborted_four_kan(&state, Action::Ankan(t("5m")), ActionResult::Pass));
    // four kans of one player: a fifth is not
    state.core.action_player = p(0);
    state.melds[0].push(daiminkan("5m"));
    assert!(is_aborted_four_kan(&state, Action::Ankan(t("6m")), ActionResult::Pass));
    // two kans
    state.melds[0] = vec![ankan("1m")];
    state.melds[2] = vec![ankan("1s")];
    assert!(!is_aborted_four_kan(&state, Action::Ankan(t("6m")), ActionResult::Pass));
}

#[test]
fn four_riichi_abort_on_the_fourth_declaration() {
    let mut state = new_state();
    let declare = Action::Discard(Discard { declares_riichi: true, ..discard("1m", 0) });
    assert!(!is_aborted_four_riichi(&state, declare));
    for i in 1..4 {
        state.core.riichi[i].is_active = true;
    }
    assert!(is_aborted_four_riichi(&state, declare));
    assert!(!is_aborted_four_riichi(&state, Action::Discard(discard("1m", 0))));
    assert!(!is_aborted_four_riichi(&state, Action::Ankan(t("1m"))));
    state.core.riichi[0].is_active = true;
    assert!(!is_aborted_four_riichi(&state, declare));
}

#[test]
fn wall_exhausted_delta_by_number_of_waiting_players() {
    assert_eq!(calc_wall_exhausted_delta([0, 0, 0, 0]), [0, 0, 0, 0]);
    assert_eq!(calc_wall_exhausted_delta([1, 0, 0, 0]), [3000, -1000, -1000, -1000]);
    assert_eq!(calc_wall_exhausted_delta([0, 0, 1, 0]), [-1000, -1000, 3000, -1000]);
    assert_eq!(calc_wall_exhausted_delta([1, 1, 0, 0]), [1500, 1500, -1500, -1500]);
    assert_eq!(calc_wall_exhausted_delta([0, 1, 0, 1]), [-1500, 1500, -1500, 1500]);
    assert_eq!(calc_wall_exhausted_delta([1, 1, 1, 0]), [1000, 1000, 1000, -3000]);
    assert_eq!(calc_wall_exhausted_delta([1, 0, 1, 1]), [1000, -3000, 1000, 1000]);
    assert_eq!(calc_wall_exhausted_delta([1, 1, 1, 1]), [0, 0, 0, 0]);
}

#[test]
fn wall_exhausted_delta_sums_to_zero() {
    for bits in 0..16u8 {
        let waiting = [bits & 1, (bits >> 1) & 1, (bits >> 2) & 1, (bits >> 3) & 1];
        let n = waiting.iter().sum::<u8>();
        let delta = calc_wall_exhausted_delta(waiting);
        assert_eq!(delta.iter().sum::<i64>(), 0);
        for i in 0..4 {
            if n == 0 || n == 4 {
                assert_eq!(delta[i], 0);
            } else if waiting[i] > 0 {
                assert_eq!(delta[i], 3000 / n as i64);
            } else {
                assert_eq!(delta[i], -3000 / (4 - n as i64));
            }
        }
    }
}

#[test]
fn nagashi_mangan_delta_at_the_value_of_a_mangan() {
    let mut state = new_state();
    for i in 0..4 {
        state.discards[i] = vec![discard("5m", i as u8)];
    }
    assert_eq!(calc_nagashi_mangan_delta(&state, p(0)), [0, 0, 0, 0]);
    state.discards[1] = vec![discard("1m", 1)];
    assert_eq!(calc_nagashi_mangan_delta(&state, p(0)), [-4000, 8000, -2000, -2000]);
    assert_eq!(calc_nagashi_mangan_delta(&state, p(1)), [-4000, 12000, -4000, -4000]);
    assert_eq!(calc_nagashi_mangan_delta(&state, p(3)), [-2000, 8000, -2000, -4000]);
    state.discards[3] = vec![];
    assert_eq!(calc_nagashi_mangan_delta(&state, p(0)), [-8000, 6000, -4000, 6000]);
    assert_eq!(calc_nagashi_mangan_delta(&state, p(3)), [-6000, 4000, -6000, 8000]);
}

#[test]
fn wall_exhausted_resolution_prefers_nagashi_mangan() {
    let mut state = new_state();
    for i in 0..4 {
        state.discards[i] = vec![discard("5m", i as u8)];
    }
    assert_eq!(resolve_wall_exhausted(&state, [1, 0, 0, 0], p(0)), ([3000, -1000, -1000, -1000], true));
    assert_eq!(resolve_wall_exhausted(&state, [1, 0, 0, 0], p(1)), ([3000, -1000, -1000, -1000], false));
    assert_eq!(resolve_wall_exhausted(&state, [0, 0, 0, 0], p(2)), ([0, 0, 0, 0], false));
    state.discards[1] = vec![discard("1m", 1)];
    assert_eq!(resolve_wall_exhausted(&state, [1, 0, 0, 0], p(0)), ([-4000, 8000, -2000, -2000], true));
    assert_eq!(resolve_wall_exhausted(&state, [0, 1, 1, 1], p(0)), ([-4000, 8000, -2000, -2000], false));
    // where all four qualify their payments cancel, and nothing else is paid
    for i in 0..4 {
        state.discards[i] = vec![discard("9s", i as u8), discard("1z", i as u8)];
    }
    assert!(is_any_player_nagashi_mangan(&state));
    assert_eq!(calc_nagashi_mangan_delta(&state, p(2)), [0, 0, 0, 0]);
    assert_eq!(resolve_wall_exhausted(&state, [1, 0, 0, 0], p(0)), ([0, 0, 0, 0], true));
    assert_eq!(resolve_wall_exhausted(&state, [1, 1, 0, 1], p(2)), ([0, 0, 0, 0], false));
    // so it is where nobody has discarded yet
    let state = new_state();
    assert_eq!(resolve_wall_exhausted(&state, [1, 0, 0, 0], p(0)), ([0, 0, 0, 0], true));
    // three qualify
    let mut state = new_state();
    state.discards[3] = vec![discard("5m", 3)];
    assert_eq!(resolve_wall_exhausted(&state, [0, 0, 0, 1], p(3)), ([4000, 4000, 4000, -12000], true));
}

#[test]
fn round_id_button_and_next_round() {
    let id = RoundId { kyoku: 5, honba: 2 };
    assert_eq!(id.button(), p(1));
    assert_eq!(id.next_honba(true), RoundId { kyoku: 5, honba: 3 });
    assert_eq!(id.next_honba(false), RoundId { kyoku: 6, honba: 3 });
    assert_eq!(id.next_kyoku(), RoundId { kyoku: 6, honba: 0 });
    let last = RoundId { kyoku: 255, honba: 0 };
    assert_eq!(last.next_honba(true), RoundId { kyoku: 255, honba: 1 });
}

#[test]
fn basic_points_by_fan_and_fu() {
    let s = |yaku_fan, dora_hits, fu| Scoring { yaku_fan, yakuman_fan: 0, dora_hits, fu };
    assert_eq!(s(1, 0, 30).basic_points(), 240);
    assert_eq!(s(0, 0, 30).basic_points(), 120);
    assert_eq!(s(2, 1, 30).basic_points(), 960);
    assert_eq!(s(3, 1, 30).basic_points(), 1920);
    assert_eq!(s(3, 1, 40).basic_points(), 2000);
    assert_eq!(s(1, 2, 70).basic_points(), 2000);
    assert_eq!(s(2, 0, 110).basic_points(), 1760);
    assert_eq!(s(1, 4, 20).basic_points(), 2000);
    assert_eq!(s(6, 0, 20).basic_points(), 3000);
    assert_eq!(s(3, 4, 20).basic_points(), 3000);
    assert_eq!(s(8, 0, 20).basic_points(), 4000);
    assert_eq!(s(8, 2, 20).basic_points(), 4000);
    assert_eq!(s(8, 3, 20).basic_points(), 6000);
    assert_eq!(s(12, 0, 20).basic_points(), 6000);
    assert_eq!(s(13, 0, 20).basic_points(), 8000);
    assert_eq!(s(255, 255, 255).basic_points(), 8000);
    let y = Scoring { yaku_fan: 0, yakuman_fan: 1, dora_hits: 3, fu: 30 };
    assert_eq!(y.basic_points(), 8000);
    assert_eq!(Scoring { yakuman_fan: 3, ..y }.basic_points(), 24000);
    assert_eq!(Scoring { yakuman_fan: 255, ..y }.basic_points(), 2_040_000);
    assert_eq!(y.with_dora_hits(7), Scoring { dora_hits: 7, ..y });
}

#[test]
fn points_are_distributed_by_button_and_kind_of_win() {
    let id = RoundId { kyoku: 0, honba: 1 };
    // ron, winner without the button: 4 x 960 = 3840, rounded up, and 300
    assert_eq!(distribute_points(id, true, p(1), p(2), 960), [0, 4200, -4200, 0]);
    assert_eq!(distribute_points(id, false, p(1), p(2), 960), [0, 3900, -3900, 0]);
    // ron, winner with the button: 6 x 960 = 5760
    assert_eq!(distribute_points(id, true, p(0), p(3), 960), [6100, 0, 0, -6100]);
    // self-draw with the button: 2 x 2000 from each
    assert_eq!(distribute_points(id, true, p(0), p(0), 2000), [12300, -4100, -4100, -4100]);
    // self-draw without: 2 x 960 from the button, 960 from the others, rounded up
    assert_eq!(distribute_points(id, true, p(1), p(1), 960), [-2100, 4300, -1100, -1100]);
    assert_eq!(distribute_points(id, false, p(2), p(2), 240), [-500, -300, 1100, -300]);
    let id = RoundId { kyoku: 6, honba: 0 };
    assert_eq!(distribute_points(id, true, p(2), p(0), 8000), [-48000, 0, 48000, 0]);
    assert_eq!(distribute_points(id, true, p(3), p(3), 8000), [-8000, -8000, -16000, 32000]);
    assert_eq!(distribute_points(id, true, p(3), p(3), 0), [0, 0, 0, 0]);
    for w in 0..4u8 {
        for c in 0..4u8 {
            let d = distribute_points(RoundId { kyoku: 2, honba: 3 }, true, p(w), p(c), 1280);
            assert_eq!(d.iter().sum::<i64>(), 0);
            assert!(d[w as usize] > 0);
        }
    }
}
