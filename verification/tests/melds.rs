use riichi::meld::{Ankan, Chii, Daiminkan, Kakan, Meld, Pon};
use riichi::model::{Action, Discard};
use riichi::player::Player;
use riichi::tile::Tile;
use riichi::tile_set::TileSet37;

fn tile(code: u8) -> Tile {
    Tile::from_encoding(code).unwrap()
}

fn hand(codes: &[u8]) -> TileSet37 {
    let mut h = TileSet37::new();
    for c in codes {
        assert!(h.insert(tile(*c)));
    }
    h
}

#[test]
fn ankan_from_hand_needs_all_four() {
    assert_eq!(Ankan::from_hand(&hand(&[3, 3, 3]), tile(3)), None);
    assert_eq!(Ankan::from_hand(&hand(&[3, 3, 3, 3, 5]), tile(4)), None);
    let h = hand(&[3, 3, 3, 3, 5]);
    let kan = Ankan::from_hand(&h, tile(3)).unwrap();
    assert_eq!(kan.own, [tile(3); 4]);
    let mut rest = h;
    kan.consume_from_hand(&mut rest);
    assert_eq!(rest.count(tile(3)), 0);
    assert_eq!(rest.count(tile(5)), 1);
    assert_eq!(rest.packed_34(), [0o100000, 0, 0, 0]);
}

#[test]
fn ankan_from_hand_puts_red_fives_last() {
    let h = hand(&[22, 36, 22, 36, 1]);
    for asked in [22u8, 36] {
        let kan = Ankan::from_hand(&h, tile(asked)).unwrap();
        assert_eq!(kan.own, [tile(22), tile(22), tile(36), tile(36)]);
        let mut rest = h;
        kan.consume_from_hand(&mut rest);
        assert_eq!(rest.count_normal(tile(22)), 0);
        assert_eq!(rest.packed_34(), [0o10, 0, 0, 0]);
    }
}

#[test]
fn kakan_takes_the_plain_tile_before_the_red_one() {
    let pon = Pon { own: [tile(13), tile(13)], called: tile(35), dir: Player::new(3) };
    assert_eq!(Kakan::from_pon_hand(pon, &hand(&[12, 14])), None);
    let both = hand(&[13, 35]);
    let kan = Kakan::from_pon_hand(pon, &both).unwrap();
    assert_eq!(kan, Kakan { pon, added: tile(13) });
    let red = hand(&[35, 1]);
    let kan = Kakan::from_pon_hand(pon, &red).unwrap();
    assert_eq!(kan.added, tile(35));
    let mut rest = red;
    kan.consume_from_hand(&mut rest);
    assert_eq!(rest.count(tile(35)), 0);
    assert_eq!(rest.count(tile(1)), 1);
    // a kind without a red tile
    let pon = Pon { own: [tile(30), tile(30)], called: tile(30), dir: Player::new(1) };
    assert_eq!(Kakan::from_pon_hand(pon, &hand(&[30])).unwrap().added, tile(30));
    assert_eq!(Kakan::from_pon_hand(pon, &hand(&[29])), None);
}

#[test]
fn melds_of_four_are_kans() {
    let pon = Pon { own: [tile(1), tile(1)], called: tile(1), dir: Player::new(1) };
    let chii = Chii { own: [tile(1), tile(2)], called: tile(3), min: tile(1), dir: 2 };
    assert_eq!(chii.dir(), 2);
    assert!(!Meld::Chii(chii).is_kan());
    assert!(!Meld::Pon(pon).is_kan());
    assert!(Meld::Kakan(Kakan { pon, added: tile(1) }).is_kan());
    assert!(Meld::Daiminkan(Daiminkan { own: [tile(1); 3], called: tile(1), dir: Player::new(2) }).is_kan());
    assert!(Meld::Ankan(Ankan { own: [tile(1); 4] }).is_kan());
}

#[test]
fn actions_name_their_tile() {
    let d = Discard { tile: tile(7), called_by: Player::new(0), declares_riichi: false, is_tsumokiri: true };
    assert_eq!(Action::Discard(d).tile(), Some(tile(7)));
    assert_eq!(Action::Ankan(tile(8)).tile(), Some(tile(8)));
    assert_eq!(Action::Kakan(tile(9)).tile(), Some(tile(9)));
    assert_eq!(Action::TsumoAgari(tile(36)).tile(), Some(tile(36)));
    assert_eq!(Action::AbortNineKinds.tile(), None);
}
