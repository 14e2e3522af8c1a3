//! Collections of tiles: counted sets, their packed suit keys, and masks
//! over the 34 normal kinds.

use vstd::prelude::*;
use crate::group::key_digit;
use crate::tile::Tile;

verus! {

/// The number of ranks of a suit: nine numerals, seven honors.
pub open spec fn ranks_in(suit: int) -> int {
    if suit == 3 {
        7
    } else {
        9
    }
}

/// The number of tiles of normal kind `kind` among `counts`, red fives included.
pub open spec fn total_in(counts: Seq<u8>, kind: int) -> int {
    counts[kind] + (if kind == 4 {
        counts[34] as int
    } else if kind == 13 {
        counts[35] as int
    } else if kind == 22 {
        counts[36] as int
    } else {
        0
    })
}

/// The key of the tiles of suit `suit` from rank `rank` up: in base 8, its
/// lowest digit is the number of tiles of rank `rank`, the next the number
/// of tiles of the next rank, and so on.
pub open spec fn key_from(counts: Seq<u8>, suit: int, rank: int) -> int
    decreases ranks_in(suit) - rank,
{
    if rank >= ranks_in(suit) {
        0
    } else {
        total_in(counts, 9 * suit + rank) + 8 * key_from(counts, suit, rank + 1)
    }
}

/// `8^n`, a bound for keys of `n` ranks.
spec fn pow8(n: int) -> int
    decreases n,
{
    if n <= 0 {
        1
    } else {
        8 * pow8(n - 1)
    }
}

/// No digit of zero counts a tile.
pub proof fn lemma_zero_digit(rank: int)
    ensures
        key_digit(0, rank) == 0,
    decreases rank,
{
    if rank > 0 {
        lemma_zero_digit(rank - 1);
    }
}

/// Each digit of a key counts the tiles of its rank, where no rank is held
/// more than seven times: the digit of rank `rank` of the key of suit `suit`
/// is the number of tiles of that rank, and zero for a rank that the suit
/// does not have.
pub proof fn lemma_key_digit(counts: Seq<u8>, suit: int, from: int, rank: int)
    requires
        counts.len() == 37,
        forall|k: int| 0 <= k < 34 ==> #[trigger] total_in(counts, k) <= 7,
        0 <= suit <= 3,
        0 <= from <= rank <= 8,
    ensures
        key_digit(key_from(counts, suit, from), rank - from) == (if rank < ranks_in(suit) {
            total_in(counts, 9 * suit + rank)
        } else {
            0
        }),
        key_from(counts, suit, from) >= 0,
    decreases rank - from,
{
    if from >= ranks_in(suit) {
        lemma_zero_digit(rank - from);
    } else {
        let t = total_in(counts, 9 * suit + from);
        assert(0 <= t <= 7);
        lemma_key_nonnegative(counts, suit, from + 1);
        if rank > from {
            lemma_key_digit(counts, suit, from + 1, rank);
        }
    }
}

/// A key of tiles of which no rank is held more than seven times has
/// nine octal digits.
pub proof fn lemma_key_in_range(counts: Seq<u8>, suit: int)
    requires
        counts.len() == 37,
        forall|k: int| 0 <= k < 34 ==> #[trigger] total_in(counts, k) <= 7,
        0 <= suit <= 3,
    ensures
        0 <= key_from(counts, suit, 0) < 0x800_0000,
{
    lemma_key_below(counts, suit, 0);
    reveal_with_fuel(pow8, 10);
}

/// The key of the ranks from `from` up is below `8` to the number of
/// these ranks.
proof fn lemma_key_below(counts: Seq<u8>, suit: int, from: int)
    requires
        counts.len() == 37,
        forall|k: int| 0 <= k < 34 ==> #[trigger] total_in(counts, k) <= 7,
        0 <= suit <= 3,
        0 <= from <= ranks_in(suit),
    ensures
        0 <= key_from(counts, suit, from) < pow8(ranks_in(suit) - from),
    decreases ranks_in(suit) - from,
{
    if from < ranks_in(suit) {
        lemma_key_below(counts, suit, from + 1);
        assert(0 <= total_in(counts, 9 * suit + from) <= 7);
    }
}

/// A key is not negative.
pub proof fn lemma_key_nonnegative(counts: Seq<u8>, suit: int, from: int)
    requires
        counts.len() == 37,
        0 <= suit <= 3,
        0 <= from,
    ensures
        key_from(counts, suit, from) >= 0,
    decreases ranks_in(suit) - from,
{
    if from < ranks_in(suit) {
        lemma_key_nonnegative(counts, suit, from + 1);
    }
}

/// The four suit keys of `counts`.
pub open spec fn keys_of(counts: Seq<u8>) -> Seq<u32> {
    Seq::new(4, |s: int| key_from(counts, s, 0) as u32)
}

/// The counts with one tile of encoding `code` less, or the counts
/// themselves if they hold no such tile.
pub open spec fn counts_without(counts: Seq<u8>, code: int) -> Seq<u8> {
    if 0 <= code < counts.len() && counts[code] > 0 {
        counts.update(code, (counts[code] - 1) as u8)
    } else {
        counts
    }
}

/// How many tiles of each encoding a player holds. No normal kind, red
/// fives counted with the ordinary fives, is held more than four times.
#[derive(Clone, Copy, Debug)]
pub struct TileSet37 {
    counts: [u8; 37],
}

impl View for TileSet37 {
    type V = Seq<u8>;

    closed spec fn view(&self) -> Seq<u8> {
        self.counts@
    }
}

impl TileSet37 {
    #[verifier::type_invariant]
    closed spec fn inv(self) -> bool {
        forall|k: int| 0 <= k < 34 ==> #[trigger] total_in(self.counts@, k) <= 4
    }

    /// A set counts the tiles of each of the 37 encodings.
    pub proof fn lemma_len(self)
        ensures
            self@.len() == 37,
    {
    }

    /// The number of tiles of encoding `code`.
    pub open spec fn count_of(self, code: int) -> int {
        self@[code] as int
    }

    /// The number of tiles of normal kind `kind`, red fives included.
    pub open spec fn total(self, kind: int) -> int {
        total_in(self@, kind)
    }

    /// The key of suit `suit`.
    pub open spec fn suit_key(self, suit: int) -> int {
        key_from(self@, suit, 0)
    }

    /// The four suit keys as machine integers.
    pub open spec fn keys(self) -> Seq<u32> {
        keys_of(self@)
    }

    /// The set that holds no tile.
    pub fn new() -> (r: TileSet37)
        ensures
            forall|code: int| 0 <= code < 37 ==> r.count_of(code) == 0,
    {
        TileSet37 { counts: [0u8; 37] }
    }

    /// The number of tiles with the encoding of `tile`.
    pub fn count(&self, tile: Tile) -> (r: u8)
        ensures
            r == self.count_of(tile.code()),
            r <= 4,
    {
        let k: u8 = tile.normal_encoding();
        proof {
            use_type_invariant(self);
            assert(total_in(self.counts@, k as int) <= 4);
        }
        self.counts[tile.encoding() as usize]
    }

    /// The number of tiles of the normal kind of `tile`, red fives included.
    pub fn count_normal(&self, tile: Tile) -> (r: u8)
        ensures
            r == self.total(tile.kind()),
            r <= 4,
    {
        let k: u8 = tile.normal_encoding();
        proof {
            use_type_invariant(self);
            assert(total_in(self.counts@, k as int) <= 4);
        }
        let base: u8 = self.counts[k as usize];
        if k == 4 {
            base + self.counts[34]
        } else if k == 13 {
            base + self.counts[35]
        } else if k == 22 {
            base + self.counts[36]
        } else {
            base
        }
    }

    /// Adds one tile, unless four of its kind are held already.
    pub fn insert(&mut self, tile: Tile) -> (done: bool)
        ensures
            done == (old(self).total(tile.kind()) < 4),
            0 <= tile.code() <= 36,
            forall|code: int|
                0 <= code < 37 ==> final(self).count_of(code) == old(self).count_of(code) + (
                if done && code == tile.code() {
                    1int
                } else {
                    0int
                }),
    {
        proof {
            use_type_invariant(&*self);
        }
        let i: usize = tile.encoding() as usize;
        if self.count_normal(tile) >= 4 {
            return false;
        }
        let ghost before = *self;
        let ghost kind = tile.kind();
        let mut counts = self.counts;
        counts[i] = counts[i] + 1;
        proof {
            let after = TileSet37 { counts };
            assert forall|k: int| 0 <= k < 34 implies #[trigger] total_in(after.counts@, k)
                <= 4 by {
                assert(after.total(k) == before.total(k) + (if k == kind {
                    1int
                } else {
                    0int
                }));
            }
        }
        let after = TileSet37 { counts };
        *self = after;
        true
    }

    /// Takes one tile out, if one with this encoding is held.
    pub fn remove(&mut self, tile: Tile) -> (done: bool)
        ensures
            done == (old(self).count_of(tile.code()) > 0),
            final(self)@ == counts_without(old(self)@, tile.code()),
            forall|code: int|
                0 <= code < 37 ==> final(self).count_of(code) == old(self).count_of(code) - (
                if done && code == tile.code() {
                    1int
                } else {
                    0int
                }),
    {
        proof {
            use_type_invariant(&*self);
        }
        let i: usize = tile.encoding() as usize;
        if self.counts[i] == 0 {
            return false;
        }
        let ghost before = *self;
        let mut counts = self.counts;
        counts[i] = counts[i] - 1;
        proof {
            let after = TileSet37 { counts };
            assert forall|k: int| 0 <= k < 34 implies #[trigger] total_in(after.counts@, k)
                <= 4 by {
                assert(after.total(k) <= before.total(k));
            }
        }
        let after = TileSet37 { counts };
        *self = after;
        true
    }

    /// The number of distinct terminal and honor kinds held: the 1 and the 9
    /// of each numeral suit and the seven honors.
    pub open spec fn terminal_kinds_upto(self, n: int) -> int
        decreases n,
    {
        if n <= 0 {
            0
        } else {
            self.terminal_kinds_upto(n - 1) + (if Tile::kind_is_terminal(n - 1) && self.count_of(
                n - 1,
            ) > 0 {
                1int
            } else {
                0int
            })
        }
    }

    /// The number of distinct terminal and honor kinds held.
    pub fn terminal_kinds(&self) -> (r: u8)
        ensures
            r == self.terminal_kinds_upto(34),
            r <= 13,
    {
        let mut n: u8 = 0;
        let mut k: usize = 0;
        while k < 34
            invariant
                k <= 34,
                n == self.terminal_kinds_upto(k as int),
                n <= k,
            decreases 34 - k,
        {
            if (k >= 27 || k % 9 == 0 || k % 9 == 8) && self.counts[k] > 0 {
                n += 1;
            }
            k += 1;
        }
        proof {
            self.lemma_terminal_kinds_bound(34);
        }
        n
    }

    /// There are no more than thirteen terminal and honor kinds.
    proof fn lemma_terminal_kinds_bound(self, n: int)
        requires
            0 <= n <= 34,
        ensures
            self.terminal_kinds_upto(n) <= (if n <= 0 {
                0int
            } else if n <= 8 {
                1
            } else if n <= 9 {
                2
            } else if n <= 17 {
                3
            } else if n <= 18 {
                4
            } else if n <= 26 {
                5
            } else {
                n - 21
            }),
        decreases n,
    {
        if n > 0 {
            self.lemma_terminal_kinds_bound(n - 1);
        }
    }

    /// The four suit keys of the held tiles, red fives counted as fives.
    /// Each octal digit of a key is the number of tiles of one rank.
    pub fn packed_34(&self) -> (r: [u32; 4])
        ensures
            forall|s: int| 0 <= s < 4 ==> r@[s] == self.suit_key(s),
            r@ == self.keys(),
            forall|s: int, rank: int|
                0 <= s < 4 && 0 <= rank <= 8 ==> #[trigger] key_digit(r@[s] as int, rank) == (
                if rank < ranks_in(s) {
                    self.total(9 * s + rank)
                } else {
                    0
                }),
    {
        let mut keys: [u32; 4] = [0u32; 4];
        let mut s: usize = 0;
        while s < 4
            invariant
                s <= 4,
                forall|t: int| 0 <= t < s ==> keys@[t] == self.suit_key(t),
            decreases 4 - s,
        {
            let n: usize = if s == 3 {
                7
            } else {
                9
            };
            let mut key: u32 = 0;
            let mut rank: usize = n;
            while rank > 0
                invariant
                    rank <= n,
                    n == ranks_in(s as int),
                    s < 4,
                    key == key_from(self@, s as int, rank as int),
                    key < pow8(n - rank),
                decreases rank,
            {
                rank -= 1;
                proof {
                    use_type_invariant(self);
                    assert(total_in(self.counts@, 9 * s + rank) <= 4);
                    reveal_with_fuel(pow8, 10);
                }
                let k: usize = 9 * s + rank;
                let mut total: u32 = self.counts[k] as u32;
                if k == 4 {
                    total = total + self.counts[34] as u32;
                } else if k == 13 {
                    total = total + self.counts[35] as u32;
                } else if k == 22 {
                    total = total + self.counts[36] as u32;
                }
                key = key * 8 + total;
            }
            keys[s] = key;
            s += 1;
        }
        proof {
            use_type_invariant(self);
            assert forall|s: int| 0 <= s < 4 implies keys@[s] == #[trigger] self.keys()[s] by {
                assert(keys@[s] == self.suit_key(s));
            }
            assert forall|k: int| 0 <= k < 34 implies #[trigger] total_in(self@, k) <= 7 by {
                assert(total_in(self.counts@, k) <= 4);
            }
            assert forall|s: int, rank: int| 0 <= s < 4 && 0 <= rank <= 8 implies #[trigger] key_digit(
                keys@[s] as int,
                rank,
            ) == (if rank < ranks_in(s) {
                self.total(9 * s + rank)
            } else {
                0
            }) by {
                assert(keys@[s] == self.suit_key(s));
                assert(self@.len() == 37);
                lemma_key_digit(self@, s, 0, rank);
                assert(rank - 0 == rank);
            }
        }
        keys
    }
}

/// How many tiles of each normal kind a player holds, with no red five
/// told apart from an ordinary five.
#[derive(Clone, Copy, Debug)]
pub struct TileSet34 {
    tiles: TileSet37,
}

impl View for TileSet34 {
    type V = Seq<u8>;

    /// The counts by encoding; those of the three red fives are zero.
    closed spec fn view(&self) -> Seq<u8> {
        self.tiles@
    }
}

impl TileSet34 {
    #[verifier::type_invariant]
    closed spec fn inv(self) -> bool {
        self.tiles.counts@[34] == 0 && self.tiles.counts@[35] == 0 && self.tiles.counts@[36] == 0
    }

    /// The number of tiles of normal kind `kind`.
    pub open spec fn count_of(self, kind: int) -> int {
        self@[kind] as int
    }

    /// The four suit keys as machine integers.
    pub open spec fn keys(self) -> Seq<u32> {
        keys_of(self@)
    }

    /// The set that holds no tile.
    pub fn new() -> (r: TileSet34)
        ensures
            forall|kind: int| 0 <= kind < 37 ==> r.count_of(kind) == 0,
    {
        let tiles = TileSet37::new();
        proof {
            assert forall|kind: int| 0 <= kind < 37 implies tiles@[kind] == 0 by {
                assert(tiles.count_of(kind) == 0);
            }
            assert(tiles.count_of(34) == 0 && tiles.count_of(35) == 0 && tiles.count_of(36) == 0);
        }
        TileSet34 { tiles }
    }

    /// The number of tiles of the normal kind of `tile`.
    pub fn count(&self, tile: Tile) -> (r: u8)
        ensures
            r == self.count_of(tile.kind()),
            r <= 4,
    {
        self.tiles.count(tile.to_normal())
    }

    /// Adds one tile of the normal kind of `tile`, unless four are held already.
    pub fn insert(&mut self, tile: Tile) -> (done: bool)
        ensures
            done == (old(self).count_of(tile.kind()) < 4),
            done ==> final(self).count_of(tile.kind()) == old(self).count_of(tile.kind()) + 1,
            !done ==> final(self)@ == old(self)@,
            forall|kind: int|
                0 <= kind < 37 && kind != tile.kind() ==> final(self).count_of(kind) == old(
                    self,
                ).count_of(kind),
    {
        proof {
            use_type_invariant(&*self);
        }
        let normal = tile.to_normal();
        let mut tiles = self.tiles;
        let ghost before = tiles@;
        let done = tiles.insert(normal);
        proof {
            tiles.lemma_len();
            self.tiles.lemma_len();
            assert(self.tiles.total(tile.kind()) == self.tiles.count_of(tile.kind()));
            assert forall|kind: int| 0 <= kind < 37 implies tiles@[kind] == before[kind] + (if done
                && kind == tile.kind() {
                1int
            } else {
                0int
            }) by {
                assert(tiles.count_of(kind) == self.tiles.count_of(kind) + (if done && kind
                    == normal.code() {
                    1int
                } else {
                    0int
                }));
            }
            if !done {
                assert(tiles@ =~= before);
            }
        }
        self.tiles = tiles;
        done
    }

    /// The four suit keys of the held tiles.
    pub fn packed_34(&self) -> (r: [u32; 4])
        ensures
            r@ == self.keys(),
    {
        self.tiles.packed_34()
    }
}

/// Whether bit `k` of `bits` is set.
pub open spec fn has_bit(bits: u64, k: int) -> bool {
    0 <= k < 64 && (bits >> (k as u64)) & 1 == 1
}

/// Setting bit `k` changes no other bit.
pub proof fn lemma_set_bit(bits: u64, k: u64, j: u64)
    requires
        k < 64,
        j < 64,
    ensures
        has_bit(bits | (1u64 << k), j as int) == (j == k || has_bit(bits, j as int)),
{
    assert((((bits | (1u64 << k)) >> j) & 1 == 1) == (j == k || (bits >> j) & 1 == 1))
        by (bit_vector)
        requires
            k < 64,
            j < 64,
    ;
}

/// A bit of `a | b` is set exactly when it is set in `a` or in `b`.
pub proof fn lemma_or_bit(a: u64, b: u64, j: u64)
    requires
        j < 64,
    ensures
        has_bit(a | b, j as int) == (has_bit(a, j as int) || has_bit(b, j as int)),
{
    assert((((a | b) >> j) & 1 == 1) == ((a >> j) & 1 == 1 || (b >> j) & 1 == 1))
        by (bit_vector)
        requires
            j < 64,
    ;
}

/// A bit of `a & b` is set exactly when it is set in `a` and in `b`.
pub proof fn lemma_and_bit(a: u64, b: u64, j: u64)
    requires
        j < 64,
    ensures
        has_bit(a & b, j as int) == (has_bit(a, j as int) && has_bit(b, j as int)),
{
    assert((((a & b) >> j) & 1 == 1) == ((a >> j) & 1 == 1 && (b >> j) & 1 == 1))
        by (bit_vector)
        requires
            j < 64,
    ;
}

/// No bit of zero is set.
pub proof fn lemma_no_bit(j: u64)
    requires
        j < 64,
    ensures
        !has_bit(0, j as int),
{
    assert((0u64 >> j) & 1 == 0) by (bit_vector)
        requires
            j < 64,
    ;
}

/// Where something is left of `x` from bit `n` on, a bit from `n` on is set.
proof fn lemma_some_bit_from(x: u64, n: u64)
    requires
        n < 64,
        (x >> n) != 0,
    ensures
        exists|k: int| n <= k < 64 && #[trigger] has_bit(x, k),
    decreases 64 - n,
{
    if (x >> n) & 1 == 1 {
        assert(has_bit(x, n as int));
    } else if n < 63 {
        let m: u64 = (n + 1) as u64;
        assert((x >> m) != 0) by (bit_vector)
            requires
                n < 63,
                m == n + 1,
                (x >> n) != 0,
                (x >> n) & 1 != 1,
        ;
        lemma_some_bit_from(x, m);
    } else {
        assert(false) by (bit_vector)
            requires
                n == 63,
                (x >> n) != 0,
                (x >> n) & 1 != 1,
        ;
    }
}

/// A mask is zero exactly when none of its bits is set.
pub proof fn lemma_zero_has_no_bit(x: u64)
    ensures
        (x == 0) == forall|k: int| 0 <= k < 64 ==> !#[trigger] has_bit(x, k),
{
    if x == 0 {
        assert forall|k: int| 0 <= k < 64 implies !#[trigger] has_bit(x, k) by {
            lemma_no_bit(k as u64);
        }
    } else {
        assert((x >> 0) == x) by (bit_vector);
        lemma_some_bit_from(x, 0);
    }
}

/// The mask with exactly the bits of `codes` set.
pub open spec fn mask_of(codes: Seq<int>) -> u64
    decreases codes.len(),
{
    if codes.len() == 0 {
        0
    } else {
        mask_of(codes.drop_last()) | (1u64 << (codes.last() as u64))
    }
}

/// Bit `j` of `mask_of(codes)` is set exactly when `j` occurs in `codes`.
pub proof fn lemma_mask_of(codes: Seq<int>, j: int)
    requires
        forall|i: int| 0 <= i < codes.len() ==> 0 <= #[trigger] codes[i] < 64,
        0 <= j < 64,
    ensures
        has_bit(mask_of(codes), j) == codes.contains(j),
    decreases codes.len(),
{
    if codes.len() == 0 {
        lemma_no_bit(j as u64);
    } else {
        let rest = codes.drop_last();
        lemma_mask_of(rest, j);
        lemma_set_bit(mask_of(rest), codes.last() as u64, j as u64);
        if codes.contains(j) && codes.last() != j {
            let i = choose|i: int| 0 <= i < codes.len() && codes[i] == j;
            assert(rest[i] == j);
        }
    }
}

/// A set of normal tile kinds, one bit for each: bit `k` stands for kind `k`.
#[derive(Clone, Copy, Debug, PartialEq, Eq, Structural, Hash)]
pub struct TileMask34 {
    pub bits: u64,
}

impl TileMask34 {
    /// Whether the set holds the normal kind `kind`.
    pub open spec fn has_kind(self, kind: int) -> bool {
        has_bit(self.bits, kind)
    }

    /// The set that holds no kind.
    pub fn new() -> (r: TileMask34)
        ensures
            r.bits == 0,
    {
        TileMask34 { bits: 0 }
    }

    /// Whether the set holds the normal kind of `tile`.
    pub fn has(&self, tile: Tile) -> (r: bool)
        ensures
            r == self.has_kind(tile.kind()),
    {
        let k: u8 = tile.normal_encoding();
        (self.bits >> (k as u64)) & 1 == 1
    }

    /// Adds the normal kind of `tile`.
    pub fn insert(&mut self, tile: Tile)
        ensures
            final(self).bits == old(self).bits | (1u64 << (tile.kind() as u64)),
            0 <= tile.kind() <= 33,
            forall|k: int|
                0 <= k < 64 ==> #[trigger] final(self).has_kind(k) == (k == tile.kind() || old(
                    self,
                ).has_kind(k)),
    {
        let k: u8 = tile.normal_encoding();
        proof {
            assert forall|j: int| 0 <= j < 64 implies #[trigger] has_bit(
                self.bits | (1u64 << (k as u64)),
                j,
            ) == (j == k || has_bit(self.bits, j)) by {
                lemma_set_bit(self.bits, k as u64, j as u64);
            }
        }
        self.bits = self.bits | (1u64 << (k as u64));
    }

    /// Whether the set holds no kind.
    pub fn is_empty(&self) -> (r: bool)
        ensures
            r == (self.bits == 0),
            r == forall|k: int| 0 <= k < 64 ==> !#[trigger] self.has_kind(k),
    {
        proof {
            lemma_zero_has_no_bit(self.bits);
            assert forall|k: int| self.has_kind(k) == #[trigger] has_bit(self.bits, k) by {}
        }
        self.bits == 0
    }

    /// Whether the set holds some kind.
    pub fn any(&self) -> (r: bool)
        ensures
            r == (self.bits != 0),
            r == exists|k: int| 0 <= k < 64 && #[trigger] self.has_kind(k),
    {
        proof {
            lemma_zero_has_no_bit(self.bits);
            if self.bits != 0 {
                let k = choose|k: int| 0 <= k < 64 && #[trigger] has_bit(self.bits, k);
                assert(self.has_kind(k));
            }
        }
        self.bits != 0
    }

    /// The kinds of either set.
    pub fn union(&self, other: &TileMask34) -> (r: TileMask34)
        ensures
            r.bits == self.bits | other.bits,
            forall|k: int|
                0 <= k < 64 ==> #[trigger] r.has_kind(k) == (self.has_kind(k) || other.has_kind(k)),
    {
        proof {
            assert forall|k: int| 0 <= k < 64 implies #[trigger] has_bit(self.bits | other.bits, k)
                == (has_bit(self.bits, k) || has_bit(other.bits, k)) by {
                lemma_or_bit(self.bits, other.bits, k as u64);
            }
        }
        TileMask34 { bits: self.bits | other.bits }
    }

    /// Whether some kind is in both sets.
    pub open spec fn shares_kind(self, other: TileMask34) -> bool {
        exists|k: int| 0 <= k < 64 && #[trigger] self.has_kind(k) && other.has_kind(k)
    }

    /// Whether the two sets share a kind.
    pub fn intersects(&self, other: &TileMask34) -> (r: bool)
        ensures
            r == (self.bits & other.bits != 0),
            r == self.shares_kind(*other),
    {
        proof {
            let both = self.bits & other.bits;
            lemma_zero_has_no_bit(both);
            assert forall|k: int| 0 <= k < 64 implies #[trigger] has_bit(both, k) == (
            self.has_kind(k) && other.has_kind(k)) by {
                lemma_and_bit(self.bits, other.bits, k as u64);
            }
            if both != 0 {
                let k = choose|k: int| 0 <= k < 64 && #[trigger] has_bit(both, k);
            } else {
                assert forall|k: int| 0 <= k < 64 implies !(#[trigger] self.has_kind(k)
                    && other.has_kind(k)) by {
                    assert(!has_bit(both, k));
                }
            }
        }
        self.bits & other.bits != 0
    }
}

} // verus!
