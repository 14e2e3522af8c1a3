//! Decomposition of a waiting hand into complete groups, a pair and one
//! incomplete unit.

use vstd::prelude::*;
use crate::group::{HandGroup, count_in};
use crate::tables::{
    CompleteGrouping,
    GroupingShape,
    GroupingTable,
    WaitingKind,
    WaitingPattern,
    WaitingTable,
    shapes_of,
};
use crate::tile::Tile;
use crate::tile_set::TileSet34;

verus! {

/// One regular way to read a waiting hand of `3N + 1` tiles: `N` groups of
/// which at most one is incomplete, and a pair that is complete or is itself
/// the incomplete unit.
///
/// The order of `groups` carries no meaning.
#[derive(Clone, Debug)]
pub struct RegularWait {
    /// The complete groups.
    pub groups: Vec<HandGroup>,
    /// The complete pair, if there is one.
    pub pair: Option<Tile>,
    /// The kind of the incomplete unit.
    pub waiting_kind: WaitingKind,
    /// The lowest tile of the incomplete unit.
    pub pattern_tile: Tile,
    /// The tile that completes the hand.
    pub waiting_tile: Tile,
}

/// The mathematical value of a `RegularWait`.
pub struct WaitShape {
    pub groups: Seq<HandGroup>,
    pub pair: Option<Tile>,
    pub waiting_kind: WaitingKind,
    pub pattern_tile: Tile,
    pub waiting_tile: Tile,
}

impl View for RegularWait {
    type V = WaitShape;

    open spec fn view(&self) -> WaitShape {
        WaitShape {
            groups: self.groups@,
            pair: self.pair,
            waiting_kind: self.waiting_kind,
            pattern_tile: self.pattern_tile,
            waiting_tile: self.waiting_tile,
        }
    }
}

/// The views of a sequence of waits.
pub open spec fn wait_shapes(v: Seq<RegularWait>) -> Seq<WaitShape> {
    v.map_values(|w: RegularWait| w@)
}

/// The view of an optional wait.
pub open spec fn wait_shape_of(o: Option<RegularWait>) -> Option<WaitShape> {
    match o {
        Some(w) => Some(w@),
        None => None,
    }
}

/// The tile `delta` ranks away from `t` in the same numeral suit, if any.
pub open spec fn shifted_tile(t: Tile, delta: int) -> Option<Tile> {
    match t.shifted(delta) {
        Some(k) => Some(Tile::of_code(k)),
        None => None,
    }
}

/// The groups that a sequence of codes stands for in a suit, if every code
/// stands for one.
pub open spec fn decode_groups(suit: int, codes: Seq<u8>) -> Option<Seq<HandGroup>> {
    if forall|j: int| 0 <= j < codes.len() ==> (#[trigger] HandGroup::decode(
        suit,
        codes[j] as int,
    )).is_some() {
        Some(Seq::new(codes.len(), |j: int| HandGroup::decode(suit, codes[j] as int).unwrap()))
    } else {
        None
    }
}

/// Whether a pair of rank `pair` exists in a suit: honors have seven ranks.
pub open spec fn pair_exists(suit: int, pair: Option<u8>) -> bool {
    match pair {
        Some(p) => p <= 8 && (suit < 3 || p <= 6),
        None => true,
    }
}

/// The tile of a pair of rank `pair` in a suit.
pub open spec fn decode_pair(suit: int, pair: Option<u8>) -> Option<Tile> {
    match pair {
        Some(p) => Some(Tile::of_code(9 * suit + p)),
        None => None,
    }
}

/// Whether a grouping can stand in a suit: all its groups and its pair exist
/// there. In a numeral suit this asks only for valid codes and ranks.
pub open spec fn usable_in(suit: int, c: GroupingShape) -> bool {
    0 <= suit <= 3 && decode_groups(suit, c.groups).is_some() && pair_exists(suit, c.pair)
}

/// The normal kinds of all tiles of a sequence of groups.
pub open spec fn groups_kinds(gs: Seq<HandGroup>) -> Seq<int>
    decreases gs.len(),
{
    if gs.len() == 0 {
        Seq::empty()
    } else {
        groups_kinds(gs.drop_last()) + gs.last().kinds()
    }
}

impl WaitShape {
    /// The normal kinds of the two tiles of the complete pair.
    pub open spec fn pair_kinds(self) -> Seq<int> {
        match self.pair {
            Some(t) => seq![t.kind(), t.kind()],
            None => Seq::empty(),
        }
    }

    /// The normal kinds of the tiles held in the incomplete unit.
    pub open spec fn pattern_kinds(self) -> Seq<int> {
        let k = self.pattern_tile.kind();
        match self.waiting_kind {
            WaitingKind::Tanki => seq![k],
            WaitingKind::Shanpon => seq![k, k],
            WaitingKind::Kanchan => seq![k, k + 2],
            _ => seq![k, k + 1],
        }
    }

    /// The normal kinds of all tiles that the wait holds: those of its
    /// groups, of its pair and of its incomplete unit.
    pub open spec fn held_kinds(self) -> Seq<int> {
        groups_kinds(self.groups) + self.pair_kinds() + self.pattern_kinds()
    }

    /// The number of tiles of normal kind `kind` that the wait holds.
    pub open spec fn count(self, kind: int) -> int {
        count_in(self.held_kinds(), kind)
    }

    /// Whether the wait has a pair, complete or incomplete.
    pub open spec fn has_pair_or_tanki(self) -> bool {
        self.pair.is_some() || self.waiting_kind is Tanki
    }

    /// The tile of the pair, complete or incomplete.
    pub open spec fn pair_or_tanki(self) -> Option<Tile> {
        if self.pair.is_some() {
            self.pair
        } else if self.waiting_kind is Tanki {
            Some(self.waiting_tile)
        } else {
            None
        }
    }

    /// Whether the incomplete unit is two neighbouring numerals open at both
    /// ends, whichever end the waiting tile is on.
    pub open spec fn is_true_ryanmen(self) -> bool {
        match self.waiting_kind {
            WaitingKind::RyanmenLow | WaitingKind::RyanmenHigh => 1 <= self.pattern_tile.rank()
                <= 6,
            WaitingKind::RyanmenBoth => true,
            _ => false,
        }
    }

    /// The partial wait that holds nothing but the incomplete unit of a
    /// pattern in suit `suit`; none where the suit has no such unit.
    pub open spec fn start(suit: int, w: WaitingPattern) -> Option<WaitShape> {
        if 0 <= suit <= 3 && w.pattern_pos <= 8 && !(suit == 3 && (w.waiting_kind.forms_run()
            || w.pattern_pos > 6)) {
            Some(
                WaitShape {
                    groups: Seq::empty(),
                    pair: None,
                    waiting_kind: w.waiting_kind,
                    pattern_tile: Tile::of_code(9 * suit + w.pattern_pos),
                    waiting_tile: Tile::of_code(0),
                },
            )
        } else {
            None
        }
    }

    /// The partial wait with the groups and the pair of a grouping of suit
    /// `suit` added; none if that would give two pairs, or if the grouping
    /// cannot stand in the suit.
    pub open spec fn extend(self, suit: int, c: GroupingShape) -> Option<WaitShape> {
        if (self.has_pair_or_tanki() && c.pair.is_some()) || !usable_in(suit, c) {
            None
        } else {
            Some(
                WaitShape {
                    groups: self.groups + decode_groups(suit, c.groups).unwrap(),
                    pair: if self.pair.is_some() {
                        self.pair
                    } else {
                        decode_pair(suit, c.pair)
                    },
                    ..self
                },
            )
        }
    }

    /// The waiting tile at or below the pattern tile, if the kind has one.
    pub open spec fn waiting_tile_low(self) -> Option<Tile> {
        match self.waiting_kind {
            WaitingKind::Tanki | WaitingKind::Shanpon => Some(self.pattern_tile),
            WaitingKind::Kanchan => shifted_tile(self.pattern_tile, 1),
            WaitingKind::RyanmenHigh => None,
            WaitingKind::RyanmenLow | WaitingKind::RyanmenBoth => shifted_tile(
                self.pattern_tile,
                -1,
            ),
        }
    }

    /// The waiting tile above the two tiles of the pattern, if the kind has one.
    pub open spec fn waiting_tile_high(self) -> Option<Tile> {
        match self.waiting_kind {
            WaitingKind::RyanmenHigh | WaitingKind::RyanmenBoth => shifted_tile(
                self.pattern_tile,
                2,
            ),
            _ => None,
        }
    }

    /// The same wait with waiting tile `t`.
    pub open spec fn with_waiting_tile(self, t: Tile) -> WaitShape {
        WaitShape { waiting_tile: t, ..self }
    }

    /// The finished waits of a partial wait: one for each waiting tile, the
    /// low one first.
    pub open spec fn complete(self) -> Seq<WaitShape> {
        (match self.waiting_tile_low() {
            Some(t) => seq![self.with_waiting_tile(t)],
            None => Seq::empty(),
        }) + (match self.waiting_tile_high() {
            Some(t) => seq![self.with_waiting_tile(t)],
            None => Seq::empty(),
        })
    }
}

/// A copy of a vector of groups.
fn copy_groups(v: &Vec<HandGroup>) -> (r: Vec<HandGroup>)
    ensures
        r@ == v@,
{
    let mut r: Vec<HandGroup> = Vec::new();
    let mut i: usize = 0;
    while i < v.len()
        invariant
            i <= v.len(),
            r@ == v@.take(i as int),
        decreases v.len() - i,
    {
        r.push(v[i]);
        i += 1;
    }
    r
}

impl RegularWait {
    /// Builds a wait from its parts.
    pub fn new(
        groups: &[HandGroup],
        pair: Option<Tile>,
        waiting_kind: WaitingKind,
        pattern_tile: Tile,
        waiting_tile: Tile,
    ) -> (r: RegularWait)
        ensures
            r@ == (WaitShape {
                groups: groups@,
                pair,
                waiting_kind,
                pattern_tile,
                waiting_tile,
            }),
    {
        let mut v: Vec<HandGroup> = Vec::new();
        let mut i: usize = 0;
        while i < groups.len()
            invariant
                i <= groups.len(),
                v@ == groups@.take(i as int),
            decreases groups.len() - i,
        {
            v.push(groups[i]);
            i += 1;
        }
        assert(groups@.take(groups.len() as int) =~= groups@);
        RegularWait { groups: v, pair, waiting_kind, pattern_tile, waiting_tile }
    }

    /// All complete groups of this decomposition.
    pub fn groups(&self) -> (r: Vec<HandGroup>)
        ensures
            r@ == self@.groups,
    {
        copy_groups(&self.groups)
    }

    /// The number of complete groups.
    pub fn num_groups(&self) -> (r: usize)
        ensures
            r == self@.groups.len(),
    {
        self.groups.len()
    }

    /// Whether this wait has a pair, complete or incomplete.
    pub fn has_pair_or_tanki(&self) -> (r: bool)
        ensures
            r == self@.has_pair_or_tanki(),
    {
        self.pair.is_some() || matches!(self.waiting_kind, WaitingKind::Tanki)
    }

    /// The tile of the pair, complete or incomplete.
    pub fn pair_or_tanki(&self) -> (r: Option<Tile>)
        ensures
            r == self@.pair_or_tanki(),
    {
        if self.pair.is_some() {
            self.pair
        } else if matches!(self.waiting_kind, WaitingKind::Tanki) {
            Some(self.waiting_tile)
        } else {
            None
        }
    }

    /// Whether the incomplete unit is a two-sided run wait in the sense of
    /// the game's rules: neighbouring numerals from 2-3 up to 7-8, whichever
    /// side the waiting tile is on.
    pub fn is_true_ryanmen(&self) -> (r: bool)
        ensures
            r == self@.is_true_ryanmen(),
    {
        let n: u8 = self.pattern_tile.normal_num();
        match self.waiting_kind {
            WaitingKind::RyanmenLow | WaitingKind::RyanmenHigh => 2 <= n && n <= 7,
            WaitingKind::RyanmenBoth => true,
            _ => false,
        }
    }
}

/// What an optional wait contributes to a sequence of waits.
pub open spec fn kept(o: Option<WaitShape>) -> Seq<WaitShape> {
    match o {
        Some(w) => seq![w],
        None => Seq::empty(),
    }
}

/// The groupings of `cs`, in order, that can stand in suit `suit`.
pub open spec fn usable_of(cs: Seq<GroupingShape>, suit: int) -> Seq<GroupingShape>
    decreases cs.len(),
{
    if cs.len() == 0 {
        Seq::empty()
    } else {
        usable_of(cs.drop_last(), suit) + (if usable_in(suit, cs.last()) {
            seq![cs.last()]
        } else {
            Seq::empty()
        })
    }
}

/// One partial wait extended by each grouping of `cs` in turn, dropping the
/// groupings that do not go with it.
pub open spec fn extend_each(p: WaitShape, suit: int, cs: Seq<GroupingShape>) -> Seq<WaitShape>
    decreases cs.len(),
{
    if cs.len() == 0 {
        Seq::empty()
    } else {
        extend_each(p, suit, cs.drop_last()) + kept(p.extend(suit, cs.last()))
    }
}

/// Each partial wait of `ps` in turn extended by each grouping of `cs`.
pub open spec fn extend_all(ps: Seq<WaitShape>, suit: int, cs: Seq<GroupingShape>) -> Seq<
    WaitShape,
>
    decreases ps.len(),
{
    if ps.len() == 0 {
        Seq::empty()
    } else {
        extend_all(ps.drop_last(), suit, cs) + extend_each(ps.last(), suit, cs)
    }
}

/// The finished waits of each partial wait of `ps` in turn.
pub open spec fn complete_all(ps: Seq<WaitShape>) -> Seq<WaitShape>
    decreases ps.len(),
{
    if ps.len() == 0 {
        Seq::empty()
    } else {
        complete_all(ps.drop_last()) + ps.last().complete()
    }
}

/// The partial waits of suit `suit` that begin with pattern `w`: its
/// incomplete unit together with each grouping of the rest of the suit.
pub open spec fn start_one(c_table: GroupingTable, suit: int, w: WaitingPattern) -> Seq<
    WaitShape,
> {
    match WaitShape::start(suit, w) {
        Some(p) => extend_each(p, suit, c_table.groupings_of(w.complete_key)),
        None => Seq::empty(),
    }
}

/// The partial waits of suit `suit` that begin with each pattern of `ws` in turn.
pub open spec fn start_all(c_table: GroupingTable, suit: int, ws: Seq<WaitingPattern>) -> Seq<
    WaitShape,
>
    decreases ws.len(),
{
    if ws.len() == 0 {
        Seq::empty()
    } else {
        start_all(c_table, suit, ws.drop_last()) + start_one(c_table, suit, ws.last())
    }
}

/// The three suits other than `suit`, in rising order.
pub open spec fn other_suits(suit: int) -> (int, int, int) {
    if suit == 0 {
        (1, 2, 3)
    } else if suit == 1 {
        (0, 2, 3)
    } else if suit == 2 {
        (0, 1, 3)
    } else {
        (0, 1, 2)
    }
}

/// All waits whose incomplete unit lies in suit `suit_w`, where `key` is the
/// key of that suit and `cs` holds the usable groupings of each suit.
pub open spec fn waits_in_suit(
    c_table: GroupingTable,
    w_table: WaitingTable,
    suit_w: int,
    key: u32,
    cs: Seq<Seq<GroupingShape>>,
) -> Seq<WaitShape> {
    let (a, b, c) = other_suits(suit_w);
    let chain = start_all(c_table, suit_w, w_table.patterns_of(key));
    let chain = extend_all(chain, a, cs[a]);
    let chain = extend_all(chain, b, cs[b]);
    let chain = extend_all(chain, c, cs[c]);
    complete_all(chain)
}

/// All regular waits of a hand: those of each suit in turn as the suit of
/// the incomplete unit.
pub open spec fn all_waits(
    c_table: GroupingTable,
    w_table: WaitingTable,
    keys: Seq<u32>,
    cs: Seq<Seq<GroupingShape>>,
) -> Seq<WaitShape> {
    waits_in_suit(c_table, w_table, 0, keys[0], cs) + waits_in_suit(
        c_table,
        w_table,
        1,
        keys[1],
        cs,
    ) + waits_in_suit(c_table, w_table, 2, keys[2], cs) + waits_in_suit(
        c_table,
        w_table,
        3,
        keys[3],
        cs,
    )
}

/// The usable groupings of each of the four suits of a hand.
pub open spec fn groupings_by_suit(c_table: GroupingTable, keys: Seq<u32>) -> Seq<
    Seq<GroupingShape>,
> {
    Seq::new(4, |s: int| usable_of(c_table.groupings_of(keys[s]), s))
}

/// All regular waits of the hand with suit keys `keys`.
pub open spec fn regular_waits(c_table: GroupingTable, w_table: WaitingTable, keys: Seq<u32>) -> Seq<
    WaitShape,
> {
    all_waits(c_table, w_table, keys, groupings_by_suit(c_table, keys))
}

/// The views of a sequence with one more wait.
proof fn lemma_wait_shapes_push(v: Seq<RegularWait>, w: RegularWait)
    ensures
        wait_shapes(v.push(w)) == wait_shapes(v).push(w@),
{
}

/// Extending by no grouping at all leaves no partial wait.
pub proof fn lemma_extend_all_empty(ps: Seq<WaitShape>, suit: int)
    ensures
        extend_all(ps, suit, Seq::empty()) == Seq::<WaitShape>::empty(),
    decreases ps.len(),
{
    if ps.len() > 0 {
        lemma_extend_all_empty(ps.drop_last(), suit);
    }
}

impl RegularWait {
    fn from_waiting_pattern(suit: u8, w: WaitingPattern) -> (r: Option<RegularWait>)
        ensures
            wait_shape_of(r) == WaitShape::start(suit as int, w),
    {
        if suit > 3 || w.pattern_pos > 8 {
            return None;
        }
        if suit == 3 && (w.waiting_kind.is_shuntsu() || w.pattern_pos > 6) {
            return None;
        }
        let pattern_tile = match Tile::from_encoding(9 * suit + w.pattern_pos) {
            Some(t) => t,
            None => {
                return None;
            },
        };
        let waiting_tile = match Tile::from_encoding(0) {
            Some(t) => t,
            None => {
                return None;
            },
        };
        Some(
            RegularWait {
                groups: Vec::new(),
                pair: None,
                waiting_kind: w.waiting_kind,
                pattern_tile,
                waiting_tile,
            },
        )
    }

    fn try_extend(&self, suit: u8, c: &CompleteGrouping) -> (r: Option<RegularWait>)
        ensures
            wait_shape_of(r) == self@.extend(suit as int, c@),
    {
        if (self.has_pair_or_tanki() && c.pair.is_some()) || suit > 3 {
            return None;
        }
        let added_pair: Option<Tile> = match c.pair {
            Some(p) => {
                if p > 8 || (suit == 3 && p > 6) {
                    return None;
                }
                Tile::from_encoding(9 * suit + p)
            },
            None => None,
        };
        let mut groups = copy_groups(&self.groups);
        let mut i: usize = 0;
        while i < c.groups.len()
            invariant
                i <= c.groups.len(),
                pair_exists(suit as int, c.pair),
                groups@.len() == self.groups@.len() + i,
                forall|j: int| 0 <= j < self.groups@.len() ==> groups@[j] == self.groups@[j],
                forall|j: int|
                    0 <= j < i ==> (#[trigger] HandGroup::decode(
                        suit as int,
                        c.groups@[j] as int,
                    )) == Some(groups@[self.groups@.len() + j]),
            decreases c.groups.len() - i,
        {
            match HandGroup::from_suit_code(suit, c.groups[i]) {
                Some(g) => {
                    groups.push(g);
                },
                None => {
                    return None;
                },
            }
            i += 1;
        }
        proof {
            let decoded = decode_groups(suit as int, c@.groups);
            assert(groups@ =~= self@.groups + decoded.unwrap());
        }
        let pair = if self.pair.is_some() {
            self.pair
        } else {
            added_pair
        };
        Some(
            RegularWait {
                groups,
                pair,
                waiting_kind: self.waiting_kind,
                pattern_tile: self.pattern_tile,
                waiting_tile: self.waiting_tile,
            },
        )
    }

    fn waiting_tile_low(&self) -> (r: Option<Tile>)
        ensures
            r == self@.waiting_tile_low(),
    {
        match self.waiting_kind {
            WaitingKind::Tanki | WaitingKind::Shanpon => Some(self.pattern_tile),
            WaitingKind::Kanchan => self.pattern_tile.succ(),
            WaitingKind::RyanmenHigh => None,
            WaitingKind::RyanmenLow | WaitingKind::RyanmenBoth => self.pattern_tile.pred(),
        }
    }

    fn waiting_tile_high(&self) -> (r: Option<Tile>)
        ensures
            r == self@.waiting_tile_high(),
    {
        match self.waiting_kind {
            WaitingKind::RyanmenHigh | WaitingKind::RyanmenBoth => self.pattern_tile.succ2(),
            _ => None,
        }
    }

    fn with_waiting_tile(&self, waiting_tile: Tile) -> (r: RegularWait)
        ensures
            r@ == self@.with_waiting_tile(waiting_tile),
    {
        RegularWait {
            groups: copy_groups(&self.groups),
            pair: self.pair,
            waiting_kind: self.waiting_kind,
            pattern_tile: self.pattern_tile,
            waiting_tile,
        }
    }

    /// Appends to `out` the finished waits of this partial wait.
    fn complete(&self, out: &mut Vec<RegularWait>)
        ensures
            wait_shapes(final(out)@) == wait_shapes(old(out)@) + self@.complete(),
    {
        if let Some(t) = self.waiting_tile_low() {
            let w = self.with_waiting_tile(t);
            proof {
                lemma_wait_shapes_push(out@, w);
            }
            out.push(w);
        }
        if let Some(t) = self.waiting_tile_high() {
            let w = self.with_waiting_tile(t);
            proof {
                lemma_wait_shapes_push(out@, w);
            }
            out.push(w);
        }
    }
}

/// The views of a sequence with one more grouping.
proof fn lemma_shapes_of_push(v: Seq<CompleteGrouping>, c: CompleteGrouping)
    ensures
        shapes_of(v.push(c)) == shapes_of(v).push(c@),
{
}

/// Where another suit than `suit_w` has no grouping, no wait has its
/// incomplete unit in `suit_w`.
pub proof fn lemma_no_waits_in_suit(
    c_table: GroupingTable,
    w_table: WaitingTable,
    suit_w: int,
    key: u32,
    cs: Seq<Seq<GroupingShape>>,
    empty_suit: int,
)
    requires
        cs.len() == 4,
        0 <= suit_w <= 3,
        0 <= empty_suit <= 3,
        empty_suit != suit_w,
        cs[empty_suit].len() == 0,
    ensures
        waits_in_suit(c_table, w_table, suit_w, key, cs) == Seq::<WaitShape>::empty(),
{
    let (a, b, c) = other_suits(suit_w);
    let chain0 = start_all(c_table, suit_w, w_table.patterns_of(key));
    let chain1 = extend_all(chain0, a, cs[a]);
    let chain2 = extend_all(chain1, b, cs[b]);
    assert(cs[empty_suit] =~= Seq::<GroupingShape>::empty());
    if empty_suit == a {
        lemma_extend_all_empty(chain0, a);
    } else if empty_suit == b {
        lemma_extend_all_empty(chain1, b);
    } else {
        lemma_extend_all_empty(chain2, c);
    }
}

/// In a numeral suit every grouping that fits a key can stand.
proof fn lemma_usable_of_all(cs: Seq<GroupingShape>, suit: int, key: u32)
    requires
        0 <= suit <= 2,
        forall|i: int| 0 <= i < cs.len() ==> (#[trigger] cs[i]).fits(key),
    ensures
        usable_of(cs, suit) == cs,
    decreases cs.len(),
{
    if cs.len() > 0 {
        lemma_usable_of_all(cs.drop_last(), suit, key);
    }
}

/// A copy of a grouping.
fn copy_grouping(c: &CompleteGrouping) -> (r: CompleteGrouping)
    ensures
        r@ == c@,
{
    let mut groups: Vec<u8> = Vec::new();
    let mut i: usize = 0;
    while i < c.groups.len()
        invariant
            i <= c.groups.len(),
            groups@ == c.groups@.take(i as int),
        decreases c.groups.len() - i,
    {
        groups.push(c.groups[i]);
        i += 1;
    }
    assert(c.groups@.take(c.groups.len() as int) =~= c.groups@);
    CompleteGrouping { groups, pair: c.pair }
}

/// Whether a grouping can stand in a suit.
fn is_usable_in(suit: u8, c: &CompleteGrouping) -> (r: bool)
    ensures
        r == usable_in(suit as int, c@),
{
    if suit > 3 {
        return false;
    }
    if let Some(p) = c.pair {
        if p > 8 || (suit == 3 && p > 6) {
            return false;
        }
    }
    let mut i: usize = 0;
    while i < c.groups.len()
        invariant
            i <= c.groups.len(),
            forall|j: int|
                0 <= j < i ==> (#[trigger] HandGroup::decode(
                    suit as int,
                    c.groups@[j] as int,
                )).is_some(),
        decreases c.groups.len() - i,
    {
        if HandGroup::from_suit_code(suit, c.groups[i]).is_none() {
            return false;
        }
        i += 1;
    }
    true
}

/// All complete groupings of the tiles of `key`.
fn c_iter(c_table: &GroupingTable, key: u32) -> (r: Vec<CompleteGrouping>)
    requires
        c_table.sound(),
    ensures
        shapes_of(r@) == c_table.groupings_of(key),
        forall|i: int| 0 <= i < r.len() ==> (#[trigger] r[i])@.fits(key),
{
    c_table.groupings(key)
}

/// All waiting patterns of the tiles of `key`.
fn w_iter(w_table: &WaitingTable, key: u32) -> (r: Vec<WaitingPattern>)
    requires
        w_table.sound(),
    ensures
        r@ == w_table.patterns_of(key),
{
    w_table.patterns(key)
}

/// The complete groupings of the tiles of `key` that can stand among the honors.
fn c_iter_z(c_table: &GroupingTable, key: u32) -> (r: Vec<CompleteGrouping>)
    requires
        c_table.sound(),
    ensures
        shapes_of(r@) == usable_of(c_table.groupings_of(key), 3),
{
    let all = c_iter(c_table, key);
    let ghost shapes = shapes_of(all@);
    let mut r: Vec<CompleteGrouping> = Vec::new();
    let mut i: usize = 0;
    while i < all.len()
        invariant
            i <= all.len(),
            shapes == shapes_of(all@),
            shapes_of(r@) == usable_of(shapes.take(i as int), 3),
        decreases all.len() - i,
    {
        proof {
            assert(shapes.take(i as int + 1).drop_last() =~= shapes.take(i as int));
        }
        if is_usable_in(3, &all[i]) {
            let c = copy_grouping(&all[i]);
            proof {
                lemma_shapes_of_push(r@, c);
            }
            r.push(c);
        }
        i += 1;
    }
    assert(shapes.take(all.len() as int) =~= shapes);
    r
}

/// Appends to `out` the extensions of `partial` by each grouping of `cs`.
fn extend_into(
    out: &mut Vec<RegularWait>,
    partial: &RegularWait,
    suit: u8,
    cs: &Vec<CompleteGrouping>,
)
    ensures
        wait_shapes(final(out)@) == wait_shapes(old(out)@) + extend_each(
            partial@,
            suit as int,
            shapes_of(cs@),
        ),
{
    let ghost before = wait_shapes(out@);
    let ghost shapes = shapes_of(cs@);
    let mut i: usize = 0;
    while i < cs.len()
        invariant
            i <= cs.len(),
            shapes == shapes_of(cs@),
            wait_shapes(out@) == before + extend_each(
                partial@,
                suit as int,
                shapes.take(i as int),
            ),
        decreases cs.len() - i,
    {
        proof {
            assert(shapes.take(i as int + 1).drop_last() =~= shapes.take(i as int));
        }
        if let Some(w) = partial.try_extend(suit, &cs[i]) {
            proof {
                lemma_wait_shapes_push(out@, w);
            }
            out.push(w);
        }
        i += 1;
    }
    assert(shapes.take(cs.len() as int) =~= shapes);
}

/// The partial waits of suit `suit` with key `key`: each waiting pattern of
/// the key with each grouping of the rest of the suit.
fn new_partial_iter(c_table: &GroupingTable, w_table: &WaitingTable, suit: u8, key: u32) -> (r:
    Vec<RegularWait>)
    requires
        c_table.sound(),
        w_table.sound(),
    ensures
        wait_shapes(r@) == start_all(*c_table, suit as int, w_table.patterns_of(key)),
{
    let ws = w_iter(w_table, key);
    let mut r: Vec<RegularWait> = Vec::new();
    let mut i: usize = 0;
    while i < ws.len()
        invariant
            i <= ws.len(),
            c_table.sound(),
            wait_shapes(r@) == start_all(*c_table, suit as int, ws@.take(i as int)),
        decreases ws.len() - i,
    {
        proof {
            assert(ws@.take(i as int + 1).drop_last() =~= ws@.take(i as int));
        }
        let w = ws[i];
        match RegularWait::from_waiting_pattern(suit, w) {
            Some(p) => {
                let cs = c_iter(c_table, w.complete_key);
                extend_into(&mut r, &p, suit, &cs);
            },
            None => {
            },
        }
        i += 1;
    }
    assert(ws@.take(ws.len() as int) =~= ws@);
    r
}

/// Each partial wait in turn extended by each grouping of another suit.
fn extend_partial_iter(partials: &Vec<RegularWait>, suit: u8, cs: &Vec<CompleteGrouping>) -> (r:
    Vec<RegularWait>)
    ensures
        wait_shapes(r@) == extend_all(wait_shapes(partials@), suit as int, shapes_of(cs@)),
{
    let ghost ps = wait_shapes(partials@);
    let mut r: Vec<RegularWait> = Vec::new();
    let mut i: usize = 0;
    while i < partials.len()
        invariant
            i <= partials.len(),
            ps == wait_shapes(partials@),
            wait_shapes(r@) == extend_all(ps.take(i as int), suit as int, shapes_of(cs@)),
        decreases partials.len() - i,
    {
        proof {
            assert(ps.take(i as int + 1).drop_last() =~= ps.take(i as int));
        }
        extend_into(&mut r, &partials[i], suit, cs);
        i += 1;
    }
    assert(ps.take(partials.len() as int) =~= ps);
    r
}

/// Appends to `out` the finished waits of each partial wait in turn.
fn complete_into(out: &mut Vec<RegularWait>, partials: &Vec<RegularWait>)
    ensures
        wait_shapes(final(out)@) == wait_shapes(old(out)@) + complete_all(wait_shapes(partials@)),
{
    let ghost before = wait_shapes(out@);
    let ghost ps = wait_shapes(partials@);
    let mut i: usize = 0;
    while i < partials.len()
        invariant
            i <= partials.len(),
            ps == wait_shapes(partials@),
            wait_shapes(out@) == before + complete_all(ps.take(i as int)),
        decreases partials.len() - i,
    {
        proof {
            assert(ps.take(i as int + 1).drop_last() =~= ps.take(i as int));
        }
        partials[i].complete(out);
        i += 1;
    }
    assert(ps.take(partials.len() as int) =~= ps);
}

/// Enumerates the regular waits of a hand. One decomposer serves any number
/// of hands in turn: load a hand with `with_keys`, then call `iter`.
pub struct Decomposer<'a> {
    c_table: &'a GroupingTable,
    w_table: &'a WaitingTable,
    keys: [u32; 4],
    c_for_suit: [Vec<CompleteGrouping>; 4],
}

impl<'a> Decomposer<'a> {
    /// The table of complete groupings that the decomposer works on.
    pub closed spec fn c_table(self) -> GroupingTable {
        *self.c_table
    }

    /// The table of waiting patterns that the decomposer works on.
    pub closed spec fn w_table(self) -> WaitingTable {
        *self.w_table
    }

    /// The suit keys of the hand that was loaded last.
    pub closed spec fn keys(self) -> Seq<u32> {
        self.keys@
    }

    /// The groupings held for each of the four suits.
    pub closed spec fn groupings(self) -> Seq<Seq<GroupingShape>> {
        Seq::new(4, |s: int| shapes_of(self.c_for_suit@[s]@))
    }

    /// Both tables are sound.
    pub open spec fn wf(self) -> bool {
        self.c_table().sound() && self.w_table().sound()
    }

    /// The groupings held are those of the loaded hand. A decomposer that
    /// has no hand loaded holds no groupings.
    pub open spec fn loaded(self) -> bool {
        self.groupings() == groupings_by_suit(self.c_table(), self.keys())
    }

    /// Groupings are held for each of the four suits.
    pub proof fn lemma_groupings_len(self)
        ensures
            self.groupings().len() == 4,
    {
    }

    /// The waits that `iter` enumerates.
    pub open spec fn waits(self) -> Seq<WaitShape> {
        all_waits(self.c_table(), self.w_table(), self.keys(), self.groupings())
    }

    /// A decomposer over the two tables, with no hand loaded.
    pub fn new(c_table: &'a GroupingTable, w_table: &'a WaitingTable) -> (r: Decomposer<'a>)
        requires
            c_table.sound(),
            w_table.sound(),
        ensures
            r.wf(),
            r.c_table() == *c_table,
            r.w_table() == *w_table,
            r.keys() == seq![0u32, 0u32, 0u32, 0u32],
            r.groupings() == Seq::new(4, |s: int| Seq::<GroupingShape>::empty()),
    {
        let r = Decomposer {
            c_table,
            w_table,
            keys: [0, 0, 0, 0],
            c_for_suit: [Vec::new(), Vec::new(), Vec::new(), Vec::new()],
        };
        proof {
            assert forall|s: int| 0 <= s < 4 implies #[trigger] r.groupings()[s] == Seq::<
                GroupingShape,
            >::empty() by {
            }
        }
        r
    }

    /// Loads a hand given by its four suit keys: three numeral suits, then
    /// the honors. Each key holds one octal digit per rank, counting the
    /// tiles of that rank.
    pub fn with_keys(&mut self, keys: [u32; 4]) -> (r: &Self)
        requires
            old(self).wf(),
        ensures
            final(self).wf(),
            final(self).c_table() == old(self).c_table(),
            final(self).w_table() == old(self).w_table(),
            final(self).keys() == keys@,
            final(self).loaded(),
            *r == *final(self),
    {
        let c0 = c_iter(self.c_table, keys[0]);
        let c1 = c_iter(self.c_table, keys[1]);
        let c2 = c_iter(self.c_table, keys[2]);
        let c3 = c_iter_z(self.c_table, keys[3]);
        proof {
            lemma_usable_of_all(shapes_of(c0@), 0, keys[0]);
            lemma_usable_of_all(shapes_of(c1@), 1, keys[1]);
            lemma_usable_of_all(shapes_of(c2@), 2, keys[2]);
        }
        self.keys = keys;
        self.c_for_suit = [c0, c1, c2, c3];
        proof {
            assert(self.groupings() =~= groupings_by_suit(self.c_table(), self.keys()));
        }
        self
    }

    /// Loads a hand given by its tiles.
    pub fn with_tile_set(&mut self, tile_set: &TileSet34) -> (r: &Self)
        requires
            old(self).wf(),
        ensures
            final(self).wf(),
            final(self).c_table() == old(self).c_table(),
            final(self).w_table() == old(self).w_table(),
            final(self).keys() == tile_set.keys(),
            final(self).loaded(),
            *r == *final(self),
    {
        self.with_keys(tile_set.packed_34())
    }

    /// All regular waits of the loaded hand, one for each way to read the
    /// hand and each tile that completes it.
    pub fn iter(&self) -> (r: Vec<RegularWait>)
        requires
            self.wf(),
        ensures
            wait_shapes(r@) == self.waits(),
            self.loaded() ==> wait_shapes(r@) == regular_waits(
                self.c_table(),
                self.w_table(),
                self.keys(),
            ),
    {
        // The one suit without a grouping, 4 if there is none, 5 if there
        // are several.
        let mut suit_x: u8 = 4;
        let mut s: u8 = 0;
        while s < 4
            invariant
                s <= 4,
                suit_x <= 5,
                suit_x == 4 ==> forall|t: int| 0 <= t < s ==> self.groupings()[t].len() > 0,
                suit_x < 4 ==> suit_x < s && self.groupings()[suit_x as int].len() == 0
                    && forall|t: int|
                    0 <= t < s && t != suit_x ==> self.groupings()[t].len() > 0,
                suit_x == 5 ==> exists|t: int, u: int|
                    0 <= t < u < s && self.groupings()[t].len() == 0
                        && self.groupings()[u].len() == 0,
            decreases 4 - s,
        {
            let len = self.c_for_suit[s as usize].len();
            if len == 0 {
                if suit_x == 4 {
                    suit_x = s;
                } else if suit_x < 4 {
                    assert(self.groupings()[suit_x as int].len() == 0 && self.groupings()[s as int].len() == 0);
                    suit_x = 5;
                }
            }
            s += 1;
        }
        let mut r: Vec<RegularWait> = Vec::new();
        let mut suit_w: u8 = 0;
        while suit_w < 4
            invariant
                suit_w <= 4,
                self.wf(),
                suit_x <= 5,
                suit_x == 4 ==> forall|t: int| 0 <= t < 4 ==> self.groupings()[t].len() > 0,
                suit_x < 4 ==> self.groupings()[suit_x as int].len() == 0,
                suit_x == 5 ==> exists|t: int, u: int|
                    0 <= t < u < 4 && self.groupings()[t].len() == 0
                        && self.groupings()[u].len() == 0,
                wait_shapes(r@) == self.waits_up_to(suit_w as int),
            decreases 4 - suit_w,
        {
            let key = self.keys[suit_w as usize];
            if suit_x == 4 || suit_x == suit_w {
                let (a, b, c) = others(suit_w);
                let chain = new_partial_iter(self.c_table, self.w_table, suit_w, key);
                let chain = extend_partial_iter(&chain, a, &self.c_for_suit[a as usize]);
                let chain = extend_partial_iter(&chain, b, &self.c_for_suit[b as usize]);
                let chain = extend_partial_iter(&chain, c, &self.c_for_suit[c as usize]);
                complete_into(&mut r, &chain);
            } else {
                proof {
                    let empty_suit: int = if suit_x < 4 {
                        suit_x as int
                    } else {
                        let (t, u) = choose|t: int, u: int|
                            0 <= t < u < 4 && self.groupings()[t].len() == 0
                                && self.groupings()[u].len() == 0;
                        if t == suit_w {
                            u
                        } else {
                            t
                        }
                    };
                    lemma_no_waits_in_suit(
                        self.c_table(),
                        self.w_table(),
                        suit_w as int,
                        key,
                        self.groupings(),
                        empty_suit,
                    );
                }
            }
            suit_w += 1;
        }
        proof {
            self.lemma_waits_up_to();
        }
        r
    }

    /// The waits whose incomplete unit lies in one of the first `n` suits.
    spec fn waits_up_to(self, n: int) -> Seq<WaitShape>
        decreases n,
    {
        if n <= 0 {
            Seq::empty()
        } else {
            self.waits_up_to(n - 1) + waits_in_suit(
                self.c_table(),
                self.w_table(),
                n - 1,
                self.keys()[n - 1],
                self.groupings(),
            )
        }
    }

    /// The waits of all four suits are all waits.
    proof fn lemma_waits_up_to(self)
        ensures
            self.waits_up_to(4) == self.waits(),
    {
        reveal_with_fuel(Decomposer::waits_up_to, 5);
    }
}

/// The three suits other than `suit`, in rising order.
fn others(suit: u8) -> (r: (u8, u8, u8))
    requires
        suit <= 3,
    ensures
        (r.0 as int, r.1 as int, r.2 as int) == other_suits(suit as int),
{
    if suit == 0 {
        (1, 2, 3)
    } else if suit == 1 {
        (0, 2, 3)
    } else if suit == 2 {
        (0, 1, 3)
    } else {
        (0, 1, 2)
    }
}

/// How often a group occurs in a sequence of groups.
pub open spec fn occurrences(gs: Seq<HandGroup>, g: HandGroup) -> nat
    decreases gs.len(),
{
    if gs.len() == 0 {
        0
    } else {
        occurrences(gs.drop_last(), g) + (if gs.last() == g {
            1nat
        } else {
            0nat
        })
    }
}

/// Two sequences hold the same groups, each as often in one as in the
/// other, in whatever order.
pub open spec fn same_groups(a: Seq<HandGroup>, b: Seq<HandGroup>) -> bool {
    forall|g: HandGroup| #[trigger] occurrences(a, g) == occurrences(b, g)
}

impl WaitShape {
    /// Two waits are the same if they have the same groups in whatever
    /// order, and the same pair, kind, pattern tile and waiting tile.
    pub open spec fn same_as(self, other: WaitShape) -> bool {
        &&& same_groups(self.groups, other.groups)
        &&& self.pair == other.pair
        &&& self.waiting_kind == other.waiting_kind
        &&& self.pattern_tile == other.pattern_tile
        &&& self.waiting_tile == other.waiting_tile
    }
}

/// A group that is nowhere in a sequence occurs in it zero times.
proof fn lemma_occurrences_none(gs: Seq<HandGroup>, g: HandGroup)
    requires
        forall|i: int| 0 <= i < gs.len() ==> gs[i] != g,
    ensures
        occurrences(gs, g) == 0,
    decreases gs.len(),
{
    if gs.len() > 0 {
        lemma_occurrences_none(gs.drop_last(), g);
    }
}

/// How often `g` occurs in `v`.
fn count_group(v: &Vec<HandGroup>, g: HandGroup) -> (r: usize)
    ensures
        r == occurrences(v@, g),
{
    let mut n: usize = 0;
    let mut i: usize = 0;
    while i < v.len()
        invariant
            i <= v.len(),
            n <= i,
            n == occurrences(v@.take(i as int), g),
        decreases v.len() - i,
    {
        proof {
            assert(v@.take(i as int + 1).drop_last() =~= v@.take(i as int));
        }
        if v[i] == g {
            n += 1;
        }
        i += 1;
    }
    assert(v@.take(v.len() as int) =~= v@);
    n
}

/// Whether each group of `a` occurs as often in `b` as in `a`.
fn covers(a: &Vec<HandGroup>, b: &Vec<HandGroup>) -> (r: bool)
    ensures
        r == forall|i: int|
            0 <= i < a@.len() ==> occurrences(a@, #[trigger] a@[i]) == occurrences(b@, a@[i]),
{
    let mut i: usize = 0;
    while i < a.len()
        invariant
            i <= a.len(),
            forall|k: int|
                0 <= k < i ==> occurrences(a@, #[trigger] a@[k]) == occurrences(b@, a@[k]),
        decreases a.len() - i,
    {
        if count_group(a, a[i]) != count_group(b, a[i]) {
            return false;
        }
        i += 1;
    }
    true
}

/// Whether two optional tiles are the same.
fn same_pair(a: Option<Tile>, b: Option<Tile>) -> (r: bool)
    ensures
        r == (a == b),
{
    match (a, b) {
        (Some(x), Some(y)) => x == y,
        (None, None) => true,
        _ => false,
    }
}

impl RegularWait {
    /// Whether two waits are the same, whatever the order of their groups.
    pub fn same_as(&self, other: &RegularWait) -> (r: bool)
        ensures
            r == self@.same_as(other@),
    {
        let forth = covers(&self.groups, &other.groups);
        let back = covers(&other.groups, &self.groups);
        proof {
            let a = self.groups@;
            let b = other.groups@;
            if forth && back {
                assert forall|g: HandGroup| #[trigger] occurrences(a, g) == occurrences(b, g) by {
                    if exists|i: int| 0 <= i < a.len() && a[i] == g {
                        let i = choose|i: int| 0 <= i < a.len() && a[i] == g;
                    } else if exists|i: int| 0 <= i < b.len() && b[i] == g {
                        let i = choose|i: int| 0 <= i < b.len() && b[i] == g;
                    } else {
                        lemma_occurrences_none(a, g);
                        lemma_occurrences_none(b, g);
                    }
                }
            } else if !forth {
                let i = choose|i: int|
                    0 <= i < a.len() && occurrences(a, #[trigger] a[i]) != occurrences(b, a[i]);
            } else {
                let i = choose|i: int|
                    0 <= i < b.len() && occurrences(b, #[trigger] b[i]) != occurrences(a, b[i]);
            }
        }
        forth && back && same_pair(self.pair, other.pair) && self.waiting_kind
            == other.waiting_kind && self.pattern_tile == other.pattern_tile && self.waiting_tile
            == other.waiting_tile
    }
}

impl PartialEq for RegularWait {
    fn eq(&self, other: &Self) -> (r: bool) {
        self.same_as(other)
    }
}

impl Eq for RegularWait {

}

impl vstd::std_specs::cmp::PartialEqSpecImpl for RegularWait {
    open spec fn obeys_eq_spec() -> bool {
        true
    }

    open spec fn eq_spec(&self, other: &Self) -> bool {
        self@.same_as(other@)
    }
}

} // verus!
