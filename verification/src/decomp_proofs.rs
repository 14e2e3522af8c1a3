//! What holds of every wait that the decomposition yields.

use vstd::prelude::*;
use crate::decomp::{
    WaitShape,
    all_waits,
    complete_all,
    decode_groups,
    extend_all,
    extend_each,
    groupings_by_suit,
    groups_kinds,
    lemma_no_waits_in_suit,
    other_suits,
    regular_waits,
    start_all,
    usable_in,
    usable_of,
    waits_in_suit,
};
use crate::group::{
    HandGroup,
    all_kinds_real,
    codes_count,
    count_in,
    key_digit,
    lemma_count_in_concat,
};
use crate::tables::{GroupingShape, GroupingTable, WaitingPattern, WaitingTable};
use crate::tile::Tile;
use crate::tile_set::{keys_of, lemma_key_digit, lemma_key_in_range, total_in};

verus! {

/// Each element of `usable_of(cs, suit)` is a usable element of `cs`.
pub proof fn lemma_usable_of_origin(cs: Seq<GroupingShape>, suit: int, i: int) -> (j: int)
    requires
        0 <= i < usable_of(cs, suit).len(),
    ensures
        0 <= j < cs.len(),
        cs[j] == usable_of(cs, suit)[i],
        usable_in(suit, cs[j]),
    decreases cs.len(),
{
    let head = usable_of(cs.drop_last(), suit);
    if i < head.len() {
        lemma_usable_of_origin(cs.drop_last(), suit, i)
    } else {
        cs.len() - 1
    }
}

/// Each element of `extend_each(p, suit, cs)` extends `p` by an element of `cs`.
pub proof fn lemma_extend_each_origin(p: WaitShape, suit: int, cs: Seq<GroupingShape>, i: int) -> (j:
    int)
    requires
        0 <= i < extend_each(p, suit, cs).len(),
    ensures
        0 <= j < cs.len(),
        p.extend(suit, cs[j]) == Some(extend_each(p, suit, cs)[i]),
    decreases cs.len(),
{
    let head = extend_each(p, suit, cs.drop_last());
    if i < head.len() {
        lemma_extend_each_origin(p, suit, cs.drop_last(), i)
    } else {
        cs.len() - 1
    }
}

/// Each element of `extend_all(ps, suit, cs)` extends an element of `ps` by
/// an element of `cs`.
pub proof fn lemma_extend_all_origin(ps: Seq<WaitShape>, suit: int, cs: Seq<GroupingShape>, i: int)
    -> (kj: (int, int))
    requires
        0 <= i < extend_all(ps, suit, cs).len(),
    ensures
        0 <= kj.0 < ps.len(),
        0 <= kj.1 < cs.len(),
        ps[kj.0].extend(suit, cs[kj.1]) == Some(extend_all(ps, suit, cs)[i]),
    decreases ps.len(),
{
    let head = extend_all(ps.drop_last(), suit, cs);
    if i < head.len() {
        lemma_extend_all_origin(ps.drop_last(), suit, cs, i)
    } else {
        let j = lemma_extend_each_origin(ps.last(), suit, cs, i - head.len());
        (ps.len() - 1, j)
    }
}

/// Each element of `complete_all(ps)` is a finished wait of an element of `ps`.
pub proof fn lemma_complete_all_origin(ps: Seq<WaitShape>, i: int) -> (kj: (int, int))
    requires
        0 <= i < complete_all(ps).len(),
    ensures
        0 <= kj.0 < ps.len(),
        0 <= kj.1 < ps[kj.0].complete().len(),
        ps[kj.0].complete()[kj.1] == complete_all(ps)[i],
    decreases ps.len(),
{
    let head = complete_all(ps.drop_last());
    if i < head.len() {
        lemma_complete_all_origin(ps.drop_last(), i)
    } else {
        (ps.len() - 1, i - head.len())
    }
}

/// Each element of `start_all(c_table, suit, ws)` is the incomplete unit of
/// an element of `ws` extended by a grouping of that pattern's complete key.
pub proof fn lemma_start_all_origin(
    c_table: GroupingTable,
    suit: int,
    ws: Seq<WaitingPattern>,
    i: int,
) -> (kj: (int, int))
    requires
        0 <= i < start_all(c_table, suit, ws).len(),
    ensures
        0 <= kj.0 < ws.len(),
        0 <= kj.1 < c_table.groupings_of(ws[kj.0].complete_key).len(),
        WaitShape::start(suit, ws[kj.0]).is_some(),
        WaitShape::start(suit, ws[kj.0]).unwrap().extend(
            suit,
            c_table.groupings_of(ws[kj.0].complete_key)[kj.1],
        ) == Some(start_all(c_table, suit, ws)[i]),
    decreases ws.len(),
{
    let head = start_all(c_table, suit, ws.drop_last());
    if i < head.len() {
        lemma_start_all_origin(c_table, suit, ws.drop_last(), i)
    } else {
        let w = ws.last();
        let p = WaitShape::start(suit, w).unwrap();
        let j = lemma_extend_each_origin(
            p,
            suit,
            c_table.groupings_of(w.complete_key),
            i - head.len(),
        );
        (ws.len() - 1, j)
    }
}

/// Where two suits have no grouping at all, the hand has no regular wait.
pub proof fn lemma_two_suits_without_grouping(
    c_table: GroupingTable,
    w_table: WaitingTable,
    keys: Seq<u32>,
    cs: Seq<Seq<GroupingShape>>,
    suit_a: int,
    suit_b: int,
)
    requires
        keys.len() == 4,
        cs.len() == 4,
        0 <= suit_a <= 3,
        0 <= suit_b <= 3,
        suit_a != suit_b,
        cs[suit_a].len() == 0,
        cs[suit_b].len() == 0,
    ensures
        all_waits(c_table, w_table, keys, cs) == Seq::<WaitShape>::empty(),
{
    assert forall|s: int| 0 <= s <= 3 implies waits_in_suit(c_table, w_table, s, keys[s], cs)
        == Seq::<WaitShape>::empty() by {
        if s == suit_a {
            lemma_no_waits_in_suit(c_table, w_table, s, keys[s], cs, suit_b);
        } else {
            lemma_no_waits_in_suit(c_table, w_table, s, keys[s], cs, suit_a);
        }
    }
}

/// Where two suits of a hand have no usable grouping, the hand has no
/// regular wait.
pub proof fn lemma_no_regular_waits(
    c_table: GroupingTable,
    w_table: WaitingTable,
    keys: Seq<u32>,
    suit_a: int,
    suit_b: int,
)
    requires
        keys.len() == 4,
        0 <= suit_a <= 3,
        0 <= suit_b <= 3,
        suit_a != suit_b,
        usable_of(c_table.groupings_of(keys[suit_a]), suit_a).len() == 0,
        usable_of(c_table.groupings_of(keys[suit_b]), suit_b).len() == 0,
    ensures
        regular_waits(c_table, w_table, keys) == Seq::<WaitShape>::empty(),
{
    lemma_two_suits_without_grouping(
        c_table,
        w_table,
        keys,
        groupings_by_suit(c_table, keys),
        suit_a,
        suit_b,
    );
}

/// The parts that one wait of `waits_in_suit` was put together from.
pub struct WaitOrigin {
    /// The waiting pattern in the suit of the incomplete unit.
    pub pattern: WaitingPattern,
    /// The grouping of the rest of that suit.
    pub own: GroupingShape,
    /// The groupings of the three other suits, in rising order of suit.
    pub first: GroupingShape,
    pub second: GroupingShape,
    pub third: GroupingShape,
    /// The partial wait before its waiting tile was set.
    pub partial: WaitShape,
    /// Which of the partial wait's finished waits this one is.
    pub pick: int,
}

impl WaitOrigin {
    /// `w` is put together from these parts, with the incomplete unit in
    /// suit `suit_w` of key `key`, and `cs` the groupings of each suit.
    pub open spec fn gives(
        self,
        c_table: GroupingTable,
        w_table: WaitingTable,
        suit_w: int,
        key: u32,
        cs: Seq<Seq<GroupingShape>>,
        w: WaitShape,
    ) -> bool {
        let (a, b, c) = other_suits(suit_w);
        &&& w_table.patterns_of(key).contains(self.pattern)
        &&& c_table.groupings_of(self.pattern.complete_key).contains(self.own)
        &&& cs[a].contains(self.first)
        &&& cs[b].contains(self.second)
        &&& cs[c].contains(self.third)
        &&& WaitShape::start(suit_w, self.pattern).is_some()
        &&& WaitShape::start(suit_w, self.pattern).unwrap().extend(suit_w, self.own).is_some()
        &&& WaitShape::start(suit_w, self.pattern).unwrap().extend(
            suit_w,
            self.own,
        ).unwrap().extend(a, self.first).is_some()
        &&& WaitShape::start(suit_w, self.pattern).unwrap().extend(
            suit_w,
            self.own,
        ).unwrap().extend(a, self.first).unwrap().extend(b, self.second).is_some()
        &&& WaitShape::start(suit_w, self.pattern).unwrap().extend(
            suit_w,
            self.own,
        ).unwrap().extend(a, self.first).unwrap().extend(b, self.second).unwrap().extend(
            c,
            self.third,
        ) == Some(self.partial)
        &&& 0 <= self.pick < self.partial.complete().len()
        &&& self.partial.complete()[self.pick] == w
    }
}

/// Every wait of `waits_in_suit` is put together from a pattern and a
/// grouping of the suit of the incomplete unit and a grouping of each other
/// suit.
pub proof fn lemma_wait_origin(
    c_table: GroupingTable,
    w_table: WaitingTable,
    suit_w: int,
    key: u32,
    cs: Seq<Seq<GroupingShape>>,
    i: int,
) -> (o: WaitOrigin)
    requires
        0 <= i < waits_in_suit(c_table, w_table, suit_w, key, cs).len(),
    ensures
        o.gives(c_table, w_table, suit_w, key, cs, waits_in_suit(c_table, w_table, suit_w, key, cs)[i]),
{
    let (a, b, c) = other_suits(suit_w);
    let ws = w_table.patterns_of(key);
    let chain0 = start_all(c_table, suit_w, ws);
    let chain1 = extend_all(chain0, a, cs[a]);
    let chain2 = extend_all(chain1, b, cs[b]);
    let chain3 = extend_all(chain2, c, cs[c]);
    let (k3, pick) = lemma_complete_all_origin(chain3, i);
    let (k2, j3) = lemma_extend_all_origin(chain2, c, cs[c], k3);
    let (k1, j2) = lemma_extend_all_origin(chain1, b, cs[b], k2);
    let (k0, j1) = lemma_extend_all_origin(chain0, a, cs[a], k1);
    let (kw, j0) = lemma_start_all_origin(c_table, suit_w, ws, k0);
    WaitOrigin {
        pattern: ws[kw],
        own: c_table.groupings_of(ws[kw].complete_key)[j0],
        first: cs[a][j1],
        second: cs[b][j2],
        third: cs[c][j3],
        partial: chain3[k3],
        pick,
    }
}

/// Which suit holds the incomplete unit of the `i`-th wait of `all_waits`,
/// and the index of that wait among the waits of the suit.
pub proof fn lemma_all_waits_origin(
    c_table: GroupingTable,
    w_table: WaitingTable,
    keys: Seq<u32>,
    cs: Seq<Seq<GroupingShape>>,
    i: int,
) -> (sj: (int, int))
    requires
        keys.len() == 4,
        0 <= i < all_waits(c_table, w_table, keys, cs).len(),
    ensures
        0 <= sj.0 <= 3,
        0 <= sj.1 < waits_in_suit(c_table, w_table, sj.0, keys[sj.0], cs).len(),
        waits_in_suit(c_table, w_table, sj.0, keys[sj.0], cs)[sj.1] == all_waits(
            c_table,
            w_table,
            keys,
            cs,
        )[i],
{
    let w0 = waits_in_suit(c_table, w_table, 0, keys[0], cs);
    let w1 = waits_in_suit(c_table, w_table, 1, keys[1], cs);
    let w2 = waits_in_suit(c_table, w_table, 2, keys[2], cs);
    if i < w0.len() {
        (0, i)
    } else if i < w0.len() + w1.len() {
        (1, i - w0.len())
    } else if i < w0.len() + w1.len() + w2.len() {
        (2, i - w0.len() - w1.len())
    } else {
        (3, i - w0.len() - w1.len() - w2.len())
    }
}

/// A finished wait differs from its partial wait in the waiting tile alone,
/// which is one of the partial wait's two waiting tiles.
pub proof fn lemma_complete_pick(p: WaitShape, pick: int)
    requires
        0 <= pick < p.complete().len(),
    ensures
        p.complete()[pick] == p.with_waiting_tile(p.complete()[pick].waiting_tile),
        Some(p.complete()[pick].waiting_tile) == p.waiting_tile_low() || Some(
            p.complete()[pick].waiting_tile,
        ) == p.waiting_tile_high(),
{
}

/// A partial wait whose incomplete unit is a two-sided run wait yields only
/// numerals of the pattern's suit, one rank below the pattern tile or two
/// ranks above it, and at most one of them where the pattern tile is a 1
/// or lies above 7.
pub proof fn lemma_two_sided_run_wait(p: WaitShape, pick: int)
    requires
        p.waiting_kind is RyanmenBoth,
        0 <= pick < p.complete().len(),
    ensures
        p.pattern_tile.kind() < 27,
        p.complete()[pick].waiting_tile.kind() < 27,
        p.complete()[pick].waiting_tile.suit_spec() == p.pattern_tile.suit_spec(),
        p.complete()[pick].waiting_tile.rank() == p.pattern_tile.rank() - 1
            || p.complete()[pick].waiting_tile.rank() == p.pattern_tile.rank() + 2,
        0 <= p.complete()[pick].waiting_tile.rank() <= 8,
        (p.pattern_tile.rank() == 0 || p.pattern_tile.rank() >= 7) ==> p.complete().len() == 1,
{
    let t = p.complete()[pick].waiting_tile;
    lemma_complete_pick(p, pick);
    let k = p.pattern_tile.kind();
    p.pattern_tile.lemma_code_of();
    if Some(t) == p.waiting_tile_low() {
        Tile::lemma_of_code(k - 1);
    } else {
        Tile::lemma_of_code(k + 2);
    }
}

/// Every regular wait of a hand has as its waiting tile one of the tiles
/// that complete its incomplete unit. For a two-sided run wait this is a
/// numeral of the pattern's suit one rank below the pattern tile or two
/// ranks above it.
pub proof fn lemma_regular_wait_tile(
    c_table: GroupingTable,
    w_table: WaitingTable,
    keys: Seq<u32>,
    i: int,
)
    requires
        keys.len() == 4,
        0 <= i < regular_waits(c_table, w_table, keys).len(),
    ensures
        ({
            let w = regular_waits(c_table, w_table, keys)[i];
            &&& Some(w.waiting_tile) == w.waiting_tile_low() || Some(w.waiting_tile)
                == w.waiting_tile_high()
            &&& w.waiting_kind is RyanmenBoth ==> {
                &&& w.waiting_tile.kind() < 27
                &&& w.waiting_tile.suit_spec() == w.pattern_tile.suit_spec()
                &&& 0 <= w.waiting_tile.rank() <= 8
                &&& w.waiting_tile.rank() == w.pattern_tile.rank() - 1 || w.waiting_tile.rank()
                    == w.pattern_tile.rank() + 2
            }
        }),
{
    let cs = groupings_by_suit(c_table, keys);
    let (s, j) = lemma_all_waits_origin(c_table, w_table, keys, cs, i);
    let o = lemma_wait_origin(c_table, w_table, s, keys[s], cs, j);
    lemma_complete_pick(o.partial, o.pick);
    if o.partial.waiting_kind is RyanmenBoth {
        lemma_two_sided_run_wait(o.partial, o.pick);
    }
}

/// The tiles of two sequences of groups, one after the other.
pub proof fn lemma_groups_kinds_concat(a: Seq<HandGroup>, b: Seq<HandGroup>)
    ensures
        groups_kinds(a + b) == groups_kinds(a) + groups_kinds(b),
    decreases b.len(),
{
    if b.len() == 0 {
        assert(a + b =~= a);
        assert(groups_kinds(a) + groups_kinds(b) =~= groups_kinds(a));
    } else {
        assert((a + b).drop_last() =~= a + b.drop_last());
        lemma_groups_kinds_concat(a, b.drop_last());
        assert(groups_kinds(a + b) =~= groups_kinds(a) + groups_kinds(b));
    }
}

/// The groups decoded from a sequence of codes lie in the suit they were
/// decoded for, where they hold of each rank what the codes count.
pub proof fn lemma_decoded_count(suit_c: int, codes: Seq<u8>, suit: int, rank: int)
    requires
        decode_groups(suit_c, codes).is_some(),
        0 <= rank <= 8,
    ensures
        count_in(groups_kinds(decode_groups(suit_c, codes).unwrap()), 9 * suit + rank) == (if suit
            == suit_c {
            codes_count(codes, rank)
        } else {
            0
        }),
        all_kinds_real(groups_kinds(decode_groups(suit_c, codes).unwrap())),
    decreases codes.len(),
{
    let d = decode_groups(suit_c, codes).unwrap();
    if codes.len() > 0 {
        let rest = codes.drop_last();
        assert forall|j: int| 0 <= j < rest.len() implies (#[trigger] HandGroup::decode(
            suit_c,
            rest[j] as int,
        )).is_some() by {
            assert(HandGroup::decode(suit_c, codes[j] as int).is_some());
        }
        assert(d.drop_last() =~= decode_groups(suit_c, rest).unwrap());
        lemma_decoded_count(suit_c, rest, suit, rank);
        assert(HandGroup::decode(suit_c, codes[codes.len() - 1] as int).is_some());
        HandGroup::lemma_decode(suit_c, codes.last() as int, suit, rank);
        lemma_count_in_concat(groups_kinds(d.drop_last()), d.last().kinds(), 9 * suit + rank);
    }
}

/// A wait holds of a kind what its groups, its pair and its incomplete
/// unit hold of it.
pub proof fn lemma_held_count(w: WaitShape, kind: int)
    ensures
        w.count(kind) == count_in(groups_kinds(w.groups), kind) + count_in(w.pair_kinds(), kind)
            + count_in(w.pattern_kinds(), kind),
{
    lemma_count_in_concat(groups_kinds(w.groups), w.pair_kinds(), kind);
    lemma_count_in_concat(groups_kinds(w.groups) + w.pair_kinds(), w.pattern_kinds(), kind);
}

/// A pair holds two tiles of its kind.
pub proof fn lemma_pair_count(w: WaitShape, kind: int)
    ensures
        count_in(w.pair_kinds(), kind) == (if w.pair.is_some() && w.pair.unwrap().kind() == kind {
            2int
        } else {
            0int
        }),
{
    reveal_with_fuel(count_in, 3);
    if w.pair.is_some() {
        let kinds = w.pair_kinds();
        assert(kinds.drop_last().last() == kinds[0]);
    }
}

/// Extending a partial wait by a grouping of a suit adds the tiles of the
/// grouping to that suit and nothing to the others.
pub proof fn lemma_extend_count(p: WaitShape, suit_c: int, g: GroupingShape, suit: int, rank: int)
    requires
        p.extend(suit_c, g).is_some(),
        0 <= rank <= 8,
    ensures
        p.extend(suit_c, g).unwrap().count(9 * suit + rank) == p.count(9 * suit + rank) + (if suit
            == suit_c {
            g.count(rank)
        } else {
            0
        }),
{
    let q = p.extend(suit_c, g).unwrap();
    let d = decode_groups(suit_c, g.groups).unwrap();
    let kind = 9 * suit + rank;
    lemma_held_count(p, kind);
    lemma_held_count(q, kind);
    lemma_pair_count(p, kind);
    lemma_pair_count(q, kind);
    lemma_groups_kinds_concat(p.groups, d);
    lemma_count_in_concat(groups_kinds(p.groups), groups_kinds(d), kind);
    lemma_decoded_count(suit_c, g.groups, suit, rank);
    assert(q.pattern_kinds() == p.pattern_kinds());
    if p.pair.is_none() && g.pair.is_some() {
        let r = g.pair.unwrap() as int;
        Tile::lemma_of_code(9 * suit_c + r);
        assert(q.pair.unwrap().kind() == 9 * suit_c + r);
    }
}

/// A partial wait that holds tiles of real kinds only still does so when
/// it is extended by a grouping.
pub proof fn lemma_extend_real(p: WaitShape, suit_c: int, g: GroupingShape)
    requires
        p.extend(suit_c, g).is_some(),
        all_kinds_real(p.held_kinds()),
    ensures
        all_kinds_real(p.extend(suit_c, g).unwrap().held_kinds()),
{
    let q = p.extend(suit_c, g).unwrap();
    let d = decode_groups(suit_c, g.groups).unwrap();
    lemma_groups_kinds_concat(p.groups, d);
    lemma_decoded_count(suit_c, g.groups, 0, 0);
    let old = p.held_kinds();
    let new = q.held_kinds();
    let a = groups_kinds(p.groups);
    let dk = groups_kinds(d);
    if p.pair.is_none() && g.pair.is_some() {
        Tile::lemma_of_code(9 * suit_c + g.pair.unwrap() as int);
    }
    assert forall|j: int| 0 <= j < new.len() implies 0 <= #[trigger] new[j] <= 33 by {
        if j < a.len() {
            assert(new[j] == old[j]);
        } else if j < a.len() + dk.len() {
            assert(new[j] == dk[j - a.len()]);
        } else if j < a.len() + dk.len() + q.pair_kinds().len() {
            if p.pair.is_some() {
                assert(new[j] == old[j - dk.len()]);
            }
        } else {
            assert(new[j] == old[j - dk.len() - q.pair_kinds().len() + p.pair_kinds().len()]);
        }
    }
}

/// The partial wait that a pattern starts holds the tiles of the pattern in
/// its suit and nothing else.
pub proof fn lemma_start_count(suit_w: int, pat: WaitingPattern, suit: int, rank: int)
    requires
        WaitShape::start(suit_w, pat).is_some(),
        pat.pattern_pos <= pat.waiting_kind.max_pos(),
        0 <= rank <= 8,
    ensures
        WaitShape::start(suit_w, pat).unwrap().count(9 * suit + rank) == (if suit == suit_w {
            pat.waiting_kind.count_at(pat.pattern_pos as int, rank)
        } else {
            0
        }),
        all_kinds_real(WaitShape::start(suit_w, pat).unwrap().held_kinds()),
{
    let p = WaitShape::start(suit_w, pat).unwrap();
    let pos = pat.pattern_pos as int;
    Tile::lemma_of_code(9 * suit_w + pos);
    assert(groups_kinds(p.groups) =~= Seq::<int>::empty());
    assert(p.held_kinds() =~= p.pattern_kinds());
    reveal_with_fuel(count_in, 3);
    let kinds = p.pattern_kinds();
    if kinds.len() == 2 {
        assert(kinds.drop_last().last() == kinds[0]);
    }
}

/// A usable grouping of a suit of the hand fits the key of that suit.
pub proof fn lemma_usable_fits(c_table: GroupingTable, keys: Seq<u32>, suit: int, g: GroupingShape)
    requires
        c_table.sound(),
        keys.len() == 4,
        0 <= suit <= 3,
        groupings_by_suit(c_table, keys)[suit].contains(g),
    ensures
        g.fits(keys[suit]),
{
    let all = c_table.groupings_of(keys[suit]);
    let us = usable_of(all, suit);
    let i = choose|i: int| 0 <= i < us.len() && us[i] == g;
    let j = lemma_usable_of_origin(all, suit, i);
    assert(all[j].fits(keys[suit]));
}

/// The tiles that a regular wait holds are exactly the tiles of the hand:
/// of each rank of each suit, its groups, its pair and its incomplete unit
/// together hold as many tiles as the key of the suit counts. And they
/// hold no tile of any other kind.
pub proof fn lemma_regular_wait_tiles(
    c_table: GroupingTable,
    w_table: WaitingTable,
    keys: Seq<u32>,
    i: int,
    suit: int,
    rank: int,
)
    requires
        c_table.sound(),
        w_table.sound(),
        keys.len() == 4,
        0 <= i < regular_waits(c_table, w_table, keys).len(),
        0 <= suit <= 3,
        0 <= rank <= 8,
    ensures
        regular_waits(c_table, w_table, keys)[i].count(9 * suit + rank) == key_digit(
            keys[suit] as int,
            rank,
        ),
        all_kinds_real(regular_waits(c_table, w_table, keys)[i].held_kinds()),
{
    let cs = groupings_by_suit(c_table, keys);
    let (s, j) = lemma_all_waits_origin(c_table, w_table, keys, cs, i);
    let o = lemma_wait_origin(c_table, w_table, s, keys[s], cs, j);
    let (a, b, c) = other_suits(s);
    let begun = WaitShape::start(s, o.pattern).unwrap();
    let with_own = begun.extend(s, o.own).unwrap();
    let with_first = with_own.extend(a, o.first).unwrap();
    let with_second = with_first.extend(b, o.second).unwrap();
    // The pattern and the suit's own grouping make up the key of the suit.
    let ws = w_table.patterns_of(keys[s]);
    let kw = choose|kw: int| 0 <= kw < ws.len() && ws[kw] == o.pattern;
    assert(ws[kw].fits(keys[s]));
    let gs = c_table.groupings_of(o.pattern.complete_key);
    let j0 = choose|j0: int| 0 <= j0 < gs.len() && gs[j0] == o.own;
    assert(gs[j0].fits(o.pattern.complete_key));
    assert(o.own.count(rank) == key_digit(o.pattern.complete_key as int, rank));
    assert(key_digit(keys[s] as int, rank) == key_digit(o.pattern.complete_key as int, rank)
        + o.pattern.waiting_kind.count_at(o.pattern.pattern_pos as int, rank));
    // Each other grouping makes up the key of its suit.
    lemma_usable_fits(c_table, keys, a, o.first);
    lemma_usable_fits(c_table, keys, b, o.second);
    lemma_usable_fits(c_table, keys, c, o.third);
    assert(o.first.count(rank) == key_digit(keys[a] as int, rank));
    assert(o.second.count(rank) == key_digit(keys[b] as int, rank));
    assert(o.third.count(rank) == key_digit(keys[c] as int, rank));
    lemma_start_count(s, o.pattern, suit, rank);
    lemma_extend_count(begun, s, o.own, suit, rank);
    lemma_extend_count(with_own, a, o.first, suit, rank);
    lemma_extend_count(with_first, b, o.second, suit, rank);
    lemma_extend_count(with_second, c, o.third, suit, rank);
    lemma_extend_real(begun, s, o.own);
    lemma_extend_real(with_own, a, o.first);
    lemma_extend_real(with_first, b, o.second);
    lemma_extend_real(with_second, c, o.third);
    lemma_complete_pick(o.partial, o.pick);
    assert(regular_waits(c_table, w_table, keys)[i].held_kinds() == o.partial.held_kinds());
}

/// A regular wait of a hand holds exactly the tiles of the hand: of each
/// kind as many as the hand holds, red fives counted with their kind.
pub proof fn lemma_regular_wait_holds_hand(
    c_table: GroupingTable,
    w_table: WaitingTable,
    counts: Seq<u8>,
    i: int,
    kind: int,
)
    requires
        c_table.sound(),
        w_table.sound(),
        counts.len() == 37,
        forall|k: int| 0 <= k < 34 ==> #[trigger] total_in(counts, k) <= 7,
        0 <= i < regular_waits(c_table, w_table, keys_of(counts)).len(),
        0 <= kind <= 33,
    ensures
        regular_waits(c_table, w_table, keys_of(counts))[i].count(kind) == total_in(counts, kind),
{
    let suit = kind / 9;
    let rank = kind % 9;
    let keys = keys_of(counts);
    lemma_key_in_range(counts, suit);
    lemma_key_digit(counts, suit, 0, rank);
    lemma_regular_wait_tiles(c_table, w_table, keys, i, suit, rank);
}

} // verus!
