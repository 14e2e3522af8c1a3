use riichi::analysis::WaitingInfo;
use riichi::decomp::{Decomposer, RegularWait};
use riichi::irregular::IrregularWait;
use riichi::tile_set::TileSet34;
use riichi::group::HandGroup;
use riichi::tables::{GroupingTable, WaitingKind, WaitingTable};
use riichi::tile::Tile;

type Canon = (Vec<HandGroup>, Option<Tile>, WaitingKind, Tile, Tile);

fn t(s: &str) -> Tile {
    let b = s.as_bytes();
    let num = b[0] - b'0';
    let code = match b[1] {
        b'm' => if num == 0 { 34 } else { num - 1 },
        b'p' => if num == 0 { 35 } else { 9 + num - 1 },
        b's' => if num == 0 { 36 } else { 18 + num - 1 },
        b'z' => 27 + num - 1,
        _ => panic!("no such suit"),
    };
    Tile::from_encoding(code).unwrap()
}

fn k(s: &str) -> HandGroup {
    HandGroup::Koutsu(t(s))
}

fn s(s: &str) -> HandGroup {
    HandGroup::Shuntsu(t(s))
}

fn canon(w: &RegularWait) -> Canon {
    let mut groups = w.groups();
    groups.sort();
    (groups, w.pair, w.waiting_kind, w.pattern_tile, w.waiting_tile)
}

fn decompose(keys: [u32; 4]) -> Vec<RegularWait> {
    let c_table = GroupingTable::new();
    let w_table = WaitingTable::new(&c_table);
    let mut decomposer = Decomposer::new(&c_table, &w_table);
    decomposer.with_keys(keys).iter()
}

fn print_decomp(keys: [u32; 4]) {
    println!("[0o{:09o}, 0o{:09o}, 0o{:09o}, 0o{:07o}]", keys[0], keys[1], keys[2], keys[3]);
    for x in decompose(keys) {
        println!("{:?}", x);
    }
    println!();
}

fn check_decomp(keys: [u32; 4], expected_decomp: &[RegularWait]) {
    let mut result: Vec<Canon> = decompose(keys).iter().map(canon).collect();
    result.sort();
    let mut expected: Vec<Canon> = expected_decomp.iter().map(canon).collect();
    expected.sort();
    assert_eq!(result, expected);
}

#[test]
fn debug_print_some_decomp() {
    print_decomp([0o111222202, 0, 0, 0]);
    print_decomp([0, 0, 0, 0o0122000]);
    print_decomp([0, 0, 0o000122000, 0]);
    print_decomp([0, 0o011300000, 0, 0o0002000]);
    print_decomp([0o000031100, 0o000022220, 0, 0]);
    print_decomp([3, 2, 1, 0]);
}

#[test]
fn check_decomp_examples() {
    // not waiting
    check_decomp([3, 2, 1, 0], &[]);
    check_decomp([0, 0, 0, 0o0122000], &[]);
    check_decomp([0, 0, 0, 0o0011000], &[]);

    // 2 x 2 independent
    check_decomp([0o000000333, 0, 0, 0o2200000], &[
        RegularWait::new(&[k("1m"), k("2m"), k("3m")], Some(t("6z")), WaitingKind::Shanpon, t("7z"), t("7z")),
        RegularWait::new(&[k("1m"), k("2m"), k("3m")], Some(t("7z")), WaitingKind::Shanpon, t("6z"), t("6z")),
        RegularWait::new(&[s("1m"), s("1m"), s("1m")], Some(t("6z")), WaitingKind::Shanpon, t("7z"), t("7z")),
        RegularWait::new(&[s("1m"), s("1m"), s("1m")], Some(t("7z")), WaitingKind::Shanpon, t("6z"), t("6z")),
    ]);

    // 2 x 2 Ryanmen + Shanpon
    check_decomp([0, 0o011300000, 0, 0o0002000], &[
        RegularWait::new(&[k("6p")], Some(t("4z")), WaitingKind::RyanmenBoth, t("7p"), t("6p")),
        RegularWait::new(&[k("6p")], Some(t("4z")), WaitingKind::RyanmenBoth, t("7p"), t("9p")),
        RegularWait::new(&[s("6p")], Some(t("6p")), WaitingKind::Shanpon, t("4z"), t("4z")),
        RegularWait::new(&[s("6p")], Some(t("4z")), WaitingKind::Shanpon, t("6p"), t("6p")),
    ]);

    check_decomp([0o001130000, 0o000000000, 0o000011000, 0o0000003], &[
        RegularWait::new(&[s("5m"), k("1z")], Some(t("5m")), WaitingKind::RyanmenBoth, t("4s"), t("3s")),
        RegularWait::new(&[s("5m"), k("1z")], Some(t("5m")), WaitingKind::RyanmenBoth, t("4s"), t("6s")),
    ]);
}

fn waiting_info(keys: [u32; 4]) -> WaitingInfo {
    let c_table = GroupingTable::new();
    let w_table = WaitingTable::new(&c_table);
    let mut decomposer = Decomposer::new(&c_table, &w_table);
    WaitingInfo::from_keys(&mut decomposer, &keys)
}

/// The suit key of the tiles that a wait holds.
fn key_of_wait(w: &RegularWait, suit: u8) -> u32 {
    let mut kinds: Vec<u8> = Vec::new();
    for g in w.groups() {
        match g {
            HandGroup::Koutsu(t) => {
                kinds.extend([t.encoding(); 3]);
            }
            HandGroup::Shuntsu(t) => {
                kinds.extend([t.encoding(), t.encoding() + 1, t.encoding() + 2]);
            }
        }
    }
    if let Some(t) = w.pair {
        kinds.extend([t.encoding(); 2]);
    }
    let p = w.pattern_tile.encoding();
    match w.waiting_kind {
        WaitingKind::Tanki => kinds.push(p),
        WaitingKind::Shanpon => kinds.extend([p, p]),
        WaitingKind::Kanchan => kinds.extend([p, p + 2]),
        _ => kinds.extend([p, p + 1]),
    }
    kinds.iter().filter(|k| **k / 9 == suit).map(|k| 1u32 << (3 * (*k % 9))).sum()
}

#[test]
fn tables_have_the_known_entries() {
    let c_table = GroupingTable::new();
    let w_table = WaitingTable::new(&c_table);
    let pair_only = c_table.groupings(0o000020000);
    assert_eq!(pair_only.len(), 1);
    assert_eq!(pair_only[0].groups, Vec::<u8>::new());
    assert_eq!(pair_only[0].pair, Some(4));
    let nothing = c_table.groupings(0);
    assert_eq!(nothing.len(), 1);
    assert_eq!(nothing[0].groups.len(), 0);
    assert_eq!(nothing[0].pair, None);
    let two = c_table.groupings(0o333);
    assert_eq!(two.len(), 2);
    let mut codes: Vec<Vec<u8>> = two.iter().map(|c| { let mut g = c.groups.clone(); g.sort(); g }).collect();
    codes.sort();
    assert_eq!(codes, vec![vec![0, 2, 4], vec![1, 1, 1]]);
    assert_eq!(c_table.groupings(0o300000000)[0].groups, vec![15]);
    assert!(c_table.groupings(1).is_empty());
    assert!(c_table.groupings(0o5).is_empty());
    let single = w_table.patterns(1);
    assert_eq!(single.len(), 1);
    assert_eq!(single[0].waiting_kind, WaitingKind::Tanki);
    assert_eq!(single[0].pattern_pos, 0);
    assert_eq!(single[0].complete_key, 0);
    let neighbours = w_table.patterns(0o110);
    assert_eq!(neighbours.len(), 1);
    assert_eq!(neighbours[0].waiting_kind, WaitingKind::RyanmenBoth);
    assert_eq!(neighbours[0].pattern_pos, 1);
    let low_end = w_table.patterns(0o11);
    assert_eq!(low_end.len(), 1);
    assert_eq!(low_end[0].waiting_kind, WaitingKind::RyanmenHigh);
    assert!(w_table.patterns(0).is_empty());
}

#[test]
fn fresh_decomposer_has_no_wait() {
    let c_table = GroupingTable::new();
    let w_table = WaitingTable::new(&c_table);
    let decomposer = Decomposer::new(&c_table, &w_table);
    assert!(decomposer.iter().is_empty());
}

#[test]
fn decomposer_serves_hands_in_turn() {
    let c_table = GroupingTable::new();
    let w_table = WaitingTable::new(&c_table);
    let mut decomposer = Decomposer::new(&c_table, &w_table);
    assert_eq!(decomposer.with_keys([0, 0o011300000, 0, 0o0002000]).iter().len(), 4);
    assert_eq!(decomposer.with_keys([3, 2, 1, 0]).iter().len(), 0);
    assert_eq!(decomposer.with_keys([0o000000333, 0, 0, 0o2200000]).iter().len(), 4);
    let mut tiles = TileSet34::new();
    for code in [0u8, 0, 0, 1, 2, 3, 4, 5, 6, 7, 8, 8, 8] {
        assert!(tiles.insert(Tile::from_encoding(code).unwrap()));
    }
    let mut by_tiles: Vec<Canon> = decomposer.with_tile_set(&tiles).iter().iter().map(canon).collect();
    let mut by_keys: Vec<Canon> = decompose([0o311111113, 0, 0, 0]).iter().map(canon).collect();
    by_tiles.sort();
    by_keys.sort();
    assert_eq!(by_tiles, by_keys);
}

#[test]
fn no_wait_where_two_suits_have_no_grouping() {
    assert!(decompose([3, 2, 1, 0]).is_empty());
    assert!(decompose([1, 1, 0, 0]).is_empty());
    assert!(decompose([0o333, 0o2, 0, 0o1]).is_empty());
    assert!(decompose([0, 0, 0o11, 0o11]).is_empty());
    // one such suit is the suit of the incomplete unit
    assert_eq!(decompose([0o333, 0o2, 0, 0o2]).len(), 4);
}

#[test]
fn two_by_two_shanpon_has_four_waits() {
    let waits = decompose([0o000000333, 0, 0, 0o2200000]);
    assert_eq!(waits.len(), 4);
    for w in waits.iter() {
        assert_eq!(w.waiting_kind, WaitingKind::Shanpon);
        assert_eq!(w.num_groups(), 3);
        assert_eq!(w.pattern_tile, w.waiting_tile);
        assert!(w.has_pair_or_tanki());
        assert!(!w.is_true_ryanmen());
    }
    let runs = waits.iter().filter(|w| w.groups().iter().all(|g| g.is_shuntsu())).count();
    let on_6z = waits.iter().filter(|w| w.waiting_tile == t("6z")).count();
    assert_eq!(runs, 2);
    assert_eq!(on_6z, 2);
}

#[test]
fn waits_hold_the_tiles_of_the_hand() {
    for keys in [
        [0o311111113, 0, 0, 0],
        [0o000000333, 0, 0, 0o2200000],
        [0, 0o011300000, 0, 0o0002000],
        [0o001130000, 0, 0o000011000, 0o0000003],
        [0o000031100, 0o000022220, 0, 0],
        [0o111222202, 0, 0, 0],
    ] {
        let waits = decompose(keys);
        assert!(!waits.is_empty());
        for w in waits.iter() {
            for suit in 0..4u8 {
                assert_eq!(key_of_wait(w, suit), keys[suit as usize]);
            }
        }
    }
}

#[test]
fn two_sided_run_waits_stay_in_the_suit() {
    for keys in [
        [0o311111113, 0, 0, 0],
        [0, 0o011300000, 0, 0o0002000],
        [0o001130000, 0, 0o000011000, 0o0000003],
        [0o000000011, 0o333, 0o333, 0o3002],
        [0o110000000, 0o333, 0o333, 0o3002],
        [0o011000000, 0o333, 0o333, 0o3002],
    ] {
        for w in decompose(keys) {
            if w.waiting_kind == WaitingKind::RyanmenBoth {
                let p = w.pattern_tile.encoding();
                let x = w.waiting_tile.encoding();
                assert!(w.waiting_tile.is_numeral());
                assert_eq!(w.waiting_tile.suit(), w.pattern_tile.suit());
                assert!(x + 1 == p || x == p + 2);
                assert!(w.is_true_ryanmen());
            }
        }
    }
    // 12 waits for 3 alone, 89 waits for 7 alone, 78 waits for 6 and 9
    let low = decompose([0o000000011, 0o333, 0o333, 0o3002]);
    assert_eq!(low.len(), 4);
    assert!(low.iter().all(|w| w.waiting_tile == t("3m") && !w.is_true_ryanmen()));
    let high = decompose([0o110000000, 0o333, 0o333, 0o3002]);
    assert_eq!(high.len(), 4);
    assert!(high.iter().all(|w| w.waiting_tile == t("7m") && !w.is_true_ryanmen()));
    let both = decompose([0o011000000, 0o333, 0o333, 0o3002]);
    assert_eq!(both.len(), 8);
    assert_eq!(both.iter().filter(|w| w.waiting_tile == t("6m")).count(), 4);
    assert_eq!(both.iter().filter(|w| w.waiting_tile == t("9m")).count(), 4);
}

#[test]
fn honors_form_no_runs() {
    assert!(decompose([0, 0, 0, 0o0122000]).is_empty());
    assert!(decompose([0, 0, 0, 0o0011000]).is_empty());
    assert!(decompose([0, 0, 0, 0o111]).is_empty());
    let tanki = decompose([0, 0, 0, 0o1]);
    assert_eq!(tanki.len(), 1);
    assert_eq!(tanki[0].waiting_kind, WaitingKind::Tanki);
    assert_eq!(tanki[0].pair_or_tanki(), Some(t("1z")));
    assert_eq!(tanki[0].pair, None);
}

#[test]
fn honors_have_seven_ranks() {
    // counts beyond the seventh rank stand for no tile
    assert!(decompose([0, 0, 0, 0o10000000]).is_empty());
    assert!(decompose([0, 0, 0, 0o30000001]).is_empty());
    assert!(decompose([0, 0, 0, 0o200000002]).is_empty());
    assert_eq!(decompose([0, 0, 0, 0o2000002]).len(), 2);
}

#[test]
fn nine_gates_waits_on_all_nine() {
    let info = waiting_info([0o311111113, 0, 0, 0]);
    assert_eq!(info.waiting_set.bits, 0x1ff);
    assert_eq!(info.irregular, None);
    assert_eq!(info.regular.len(), 15);
    for code in 0..9u8 {
        let tile = Tile::from_encoding(code).unwrap();
        assert!(info.regular.iter().any(|w| w.waiting_tile == tile));
    }
}

#[test]
fn waiting_info_of_a_hand_that_does_not_wait() {
    let info = waiting_info([3, 2, 1, 0]);
    assert_eq!(info.waiting_set.bits, 0);
    assert!(info.waiting_set.is_empty());
    assert!(info.regular.is_empty());
    assert_eq!(info.irregular, None);
    let empty = WaitingInfo::new();
    assert_eq!(empty.waiting_set.bits, 0);
    assert!(empty.regular.is_empty());
}

#[test]
fn waiting_info_takes_both_kinds_of_wait() {
    // 11 22 33 44 55 66 m, 7 m: seven pairs on 7m, and 123 123 456 456 + 7
    let info = waiting_info([0o1222222, 0, 0, 0]);
    assert_eq!(info.irregular, Some(IrregularWait::SevenPairs(t("7m"))));
    assert!(!info.regular.is_empty());
    assert!(info.waiting_set.has(t("7m")));
    let mut bits = 0u64;
    for w in info.regular.iter() {
        bits |= 1 << w.waiting_tile.encoding();
    }
    assert_eq!(info.waiting_set.bits, bits | (1 << 6));
    let orphans = waiting_info([0o100000001, 0o100000001, 0o100000001, 0o1111111]);
    assert!(orphans.regular.is_empty());
    assert_eq!(orphans.irregular, Some(IrregularWait::ThirteenOrphansAll));
    assert_eq!(orphans.waiting_set.bits, 0x3_fc06_0301);
}

#[test]
fn waiting_info_is_the_same_each_time() {
    let c_table = GroupingTable::new();
    let w_table = WaitingTable::new(&c_table);
    let mut decomposer = Decomposer::new(&c_table, &w_table);
    for keys in [[0o311111113, 0, 0, 0], [0, 0o011300000, 0, 0o0002000], [3, 2, 1, 0]] {
        let first = WaitingInfo::from_keys(&mut decomposer, &keys);
        let between = WaitingInfo::from_keys(&mut decomposer, &[0o1222222, 0, 0, 0]);
        let second = WaitingInfo::from_keys(&mut decomposer, &keys);
        assert_eq!(first.waiting_set, second.waiting_set);
        assert_eq!(first.irregular, second.irregular);
        assert_eq!(first.regular, second.regular);
        assert!(between.irregular.is_some());
    }
}

#[test]
fn waits_are_equal_whatever_the_order_of_groups() {
    let a = RegularWait::new(&[k("1m"), s("2m"), k("3m")], Some(t("6z")), WaitingKind::Shanpon, t("7z"), t("7z"));
    let b = RegularWait::new(&[k("3m"), k("1m"), s("2m")], Some(t("6z")), WaitingKind::Shanpon, t("7z"), t("7z"));
    assert!(a == b);
    assert!(a.same_as(&b));
    let fewer = RegularWait::new(&[k("1m"), s("2m")], Some(t("6z")), WaitingKind::Shanpon, t("7z"), t("7z"));
    assert!(a != fewer);
    let twice = RegularWait::new(&[k("1m"), k("1m"), s("2m")], Some(t("6z")), WaitingKind::Shanpon, t("7z"), t("7z"));
    let once = RegularWait::new(&[k("1m"), s("2m"), s("2m")], Some(t("6z")), WaitingKind::Shanpon, t("7z"), t("7z"));
    assert!(twice != once);
    let other_pair = RegularWait::new(&[k("1m"), s("2m"), k("3m")], Some(t("5z")), WaitingKind::Shanpon, t("7z"), t("7z"));
    assert!(a != other_pair);
    let other_kind = RegularWait::new(&[k("1m"), s("2m"), k("3m")], Some(t("6z")), WaitingKind::Tanki, t("7z"), t("7z"));
    assert!(a != other_kind);
    let other_tile = RegularWait::new(&[k("1m"), s("2m"), k("3m")], Some(t("6z")), WaitingKind::Shanpon, t("7z"), t("6z"));
    assert!(a != other_tile);
    let koutsu_for_shuntsu = RegularWait::new(&[k("1m"), k("2m"), k("3m")], Some(t("6z")), WaitingKind::Shanpon, t("7z"), t("7z"));
    assert!(a != koutsu_for_shuntsu);
}

#[test]
fn true_ryanmen_is_open_at_both_ends() {
    let w = |kind, p: &str, x: &str| RegularWait::new(&[], None, kind, t(p), t(x));
    assert!(w(WaitingKind::RyanmenBoth, "4m", "3m").is_true_ryanmen());
    assert!(w(WaitingKind::RyanmenLow, "2m", "1m").is_true_ryanmen());
    assert!(w(WaitingKind::RyanmenHigh, "7m", "9m").is_true_ryanmen());
    assert!(!w(WaitingKind::RyanmenHigh, "1m", "3m").is_true_ryanmen());
    assert!(!w(WaitingKind::RyanmenLow, "8m", "7m").is_true_ryanmen());
    assert!(!w(WaitingKind::Kanchan, "4m", "5m").is_true_ryanmen());
    assert!(!w(WaitingKind::Tanki, "4m", "4m").is_true_ryanmen());
    assert!(!w(WaitingKind::Tanki, "4m", "4m").has_pair_or_tanki() == false);
    assert_eq!(w(WaitingKind::Kanchan, "4m", "5m").pair_or_tanki(), None);
    assert!(!w(WaitingKind::Kanchan, "4m", "5m").has_pair_or_tanki());
    assert!(WaitingKind::Kanchan.is_shuntsu());
    assert!(WaitingKind::RyanmenBoth.is_shuntsu());
    assert!(!WaitingKind::Shanpon.is_shuntsu());
    assert!(!WaitingKind::Tanki.is_shuntsu());
}

/// All suit keys with `n` tiles and at most four of a rank.
fn keys_with(n: u32) -> Vec<u32> {
    fn go(rank: u32, left: u32, key: u32, out: &mut Vec<u32>) {
        if rank == 9 {
            if left == 0 {
                out.push(key);
            }
            return;
        }
        for c in 0..=left.min(4) {
            go(rank + 1, left - c, key + (c << (3 * rank)), out);
        }
    }
    let mut out = Vec::new();
    go(0, n, 0, &mut out);
    out
}

#[test]
fn waiting_table_agrees_with_grouping_table() {
    let c_table = GroupingTable::new();
    let w_table = WaitingTable::new(&c_table);
    let mut checked = 0;
    let mut waiting = 0;
    for n in [1, 4, 7, 10, 13] {
        for key in keys_with(n) {
            // the ranks that the patterns of the key wait for
            let mut by_patterns = [false; 9];
            for p in w_table.patterns(key) {
                assert!(!c_table.groupings(p.complete_key).is_empty());
                let (pattern, max_pos) = match p.waiting_kind {
                    WaitingKind::Tanki => (0o1, 8),
                    WaitingKind::Shanpon => (0o2, 8),
                    WaitingKind::Kanchan => (0o101, 6),
                    _ => (0o11, 7),
                };
                assert!(p.pattern_pos <= max_pos);
                assert_eq!(p.complete_key + (pattern << (3 * p.pattern_pos as u32)), key);
                // rank by rank, with no digit running over
                for rank in 0..9 {
                    let of_pattern = ((pattern << (3 * p.pattern_pos as u32)) >> (3 * rank)) & 7;
                    let of_rest = (p.complete_key >> (3 * rank)) & 7;
                    assert_eq!(of_pattern + of_rest, (key >> (3 * rank)) & 7);
                }
                let pos = p.pattern_pos as usize;
                match p.waiting_kind {
                    WaitingKind::Tanki | WaitingKind::Shanpon => by_patterns[pos] = true,
                    WaitingKind::Kanchan => by_patterns[pos + 1] = true,
                    WaitingKind::RyanmenHigh => by_patterns[pos + 2] = true,
                    WaitingKind::RyanmenLow => by_patterns[pos - 1] = true,
                    WaitingKind::RyanmenBoth => {
                        by_patterns[pos - 1] = true;
                        by_patterns[pos + 2] = true;
                    }
                }
            }
            // the ranks of which one more tile makes a complete suit
            let mut by_groupings = [false; 9];
            for rank in 0..9 {
                let held = (key >> (3 * rank)) & 7;
                by_groupings[rank] = held < 4 && !c_table.groupings(key + (1 << (3 * rank))).is_empty();
            }
            assert_eq!(by_patterns, by_groupings, "key {:o}", key);
            checked += 1;
            if by_patterns.iter().any(|w| *w) {
                waiting += 1;
            }
        }
    }
    assert_eq!(checked, 9 + 495 + 6030 + 32211 + 93600);
    assert!(waiting > 1000);
}

#[test]
fn grouping_table_entries_make_up_their_keys() {
    let c_table = GroupingTable::new();
    let mut entries = 0;
    for n in [0, 2, 3, 5, 6, 8, 9, 11, 12, 14] {
        for key in keys_with(n) {
            for c in c_table.groupings(key) {
                // of each rank the grouping holds as many tiles as the key counts
                let mut held = [0u32; 9];
                for code in c.groups.iter() {
                    assert!(*code <= 15);
                    let rank = if *code == 15 { 8 } else { (*code / 2) as usize };
                    if *code == 15 || *code % 2 == 0 {
                        held[rank] += 3;
                    } else {
                        held[rank] += 1;
                        held[rank + 1] += 1;
                        held[rank + 2] += 1;
                    }
                }
                if let Some(p) = c.pair {
                    held[p as usize] += 2;
                }
                for rank in 0..9 {
                    assert_eq!(held[rank], (key >> (3 * rank)) & 7);
                }
                assert_eq!(c.groups.len() as u32, n / 3);
                assert_eq!(c.pair.is_some(), n % 3 == 2);
                entries += 1;
            }
        }
    }
    assert!(entries > 5000);
}
