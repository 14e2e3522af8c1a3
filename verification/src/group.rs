//! Complete groups of three tiles, and counting the tiles of a kind.

use vstd::prelude::*;
use crate::tile::Tile;

verus! {

/// Digit `rank` of a suit key in base 8: the number of tiles of 0-based
/// rank `rank` that the key counts.
pub open spec fn key_digit(key: int, rank: int) -> int
    decreases rank,
{
    if rank <= 0 {
        key % 8
    } else {
        key_digit(key / 8, rank - 1)
    }
}

/// The number of tiles of normal kind `kind` among tiles given by their
/// normal kinds.
pub open spec fn count_in(kinds: Seq<int>, kind: int) -> int
    decreases kinds.len(),
{
    if kinds.len() == 0 {
        0
    } else {
        count_in(kinds.drop_last(), kind) + (if kinds.last() == kind {
            1int
        } else {
            0int
        })
    }
}

/// Two collections of tiles together hold of each kind what both hold.
pub proof fn lemma_count_in_concat(a: Seq<int>, b: Seq<int>, kind: int)
    ensures
        count_in(a + b, kind) == count_in(a, kind) + count_in(b, kind),
    decreases b.len(),
{
    if b.len() > 0 {
        assert((a + b).drop_last() =~= a + b.drop_last());
        lemma_count_in_concat(a, b.drop_last(), kind);
    } else {
        assert(a + b =~= a);
    }
}

/// Whether all of some tiles are of real kinds, `0..=33`.
pub open spec fn all_kinds_real(kinds: Seq<int>) -> bool {
    forall|j: int| 0 <= j < kinds.len() ==> 0 <= #[trigger] kinds[j] <= 33
}

/// The number of tiles of 0-based rank `rank` in the group with code
/// `code`: three of the one rank for three of a kind, one of each of three
/// ranks in a row for a run.
pub open spec fn code_count(code: int, rank: int) -> int {
    if code == 15 {
        if rank == 8 {
            3
        } else {
            0
        }
    } else if code % 2 == 0 {
        if rank == code / 2 {
            3
        } else {
            0
        }
    } else if code / 2 <= rank <= code / 2 + 2 {
        1
    } else {
        0
    }
}

/// The number of tiles of 0-based rank `rank` in the groups with codes `codes`.
pub open spec fn codes_count(codes: Seq<u8>, rank: int) -> int
    decreases codes.len(),
{
    if codes.len() == 0 {
        0
    } else {
        codes_count(codes.drop_last(), rank) + code_count(codes.last() as int, rank)
    }
}

/// A complete group in a hand: three of a kind, or a run of three numerals
/// named by its lowest tile.
#[derive(Clone, Copy, Debug, PartialEq, Eq, Structural, PartialOrd, Ord, Hash)]
pub enum HandGroup {
    Koutsu(Tile),
    Shuntsu(Tile),
}

impl HandGroup {
    /// The tile that names the group.
    pub open spec fn tile(self) -> Tile {
        match self {
            HandGroup::Koutsu(t) => t,
            HandGroup::Shuntsu(t) => t,
        }
    }

    /// A group is well formed when its tile is a normal kind, and, for a run,
    /// a numeral of rank at most 7.
    pub open spec fn wf(self) -> bool {
        match self {
            HandGroup::Koutsu(t) => t.code() <= 33,
            HandGroup::Shuntsu(t) => t.code() < 27 && t.code() % 9 <= 6,
        }
    }

    /// The normal kinds of the three tiles of the group.
    pub open spec fn kinds(self) -> Seq<int> {
        match self {
            HandGroup::Koutsu(t) => seq![t.kind(), t.kind(), t.kind()],
            HandGroup::Shuntsu(t) => seq![t.kind(), t.kind() + 1, t.kind() + 2],
        }
    }

    /// The 4-bit code of a group within its suit: twice the rank for three of
    /// a kind, except 15 for the ninth rank; twice the rank plus one for a run.
    pub open spec fn suit_code(self) -> int {
        match self {
            HandGroup::Koutsu(t) => if t.rank() == 8 {
                15
            } else {
                2 * t.rank()
            },
            HandGroup::Shuntsu(t) => 2 * t.rank() + 1,
        }
    }

    /// The byte that packs the suit into bits 4 and 5 above the suit code.
    pub open spec fn packed_spec(self) -> int {
        16 * self.tile().suit_spec() + self.suit_code()
    }

    /// Which group, if any, a suit and a 4-bit code stand for. Honors
    /// have seven ranks and form no runs.
    pub open spec fn decode(suit: int, code: int) -> Option<HandGroup> {
        if !(0 <= suit <= 3 && 0 <= code <= 15) {
            None
        } else if code == 15 {
            if suit < 3 {
                Some(HandGroup::Koutsu(Tile::of_code(9 * suit + 8)))
            } else {
                None
            }
        } else if code % 2 == 0 {
            if suit < 3 || code / 2 <= 6 {
                Some(HandGroup::Koutsu(Tile::of_code(9 * suit + code / 2)))
            } else {
                None
            }
        } else if suit < 3 && code / 2 <= 6 {
            Some(HandGroup::Shuntsu(Tile::of_code(9 * suit + code / 2)))
        } else {
            None
        }
    }

    /// Decodes a group from its suit and its 4-bit code within the suit.
    pub fn from_suit_code(suit: u8, code: u8) -> (r: Option<HandGroup>)
        ensures
            r == Self::decode(suit as int, code as int),
            r.is_some() ==> r.unwrap().wf() && r.unwrap().tile().suit_spec() == suit
                && r.unwrap().suit_code() == code,
    {
        if suit > 3 || code > 15 {
            return None;
        }
        let rank: u8 = if code == 15 {
            8
        } else {
            code / 2
        };
        let is_run: bool = code != 15 && code % 2 == 1;
        if (is_run && rank > 6) || (suit == 3 && (is_run || rank > 6)) {
            return None;
        }
        match Tile::from_encoding(9 * suit + rank) {
            Some(t) => if is_run {
                Some(HandGroup::Shuntsu(t))
            } else {
                Some(HandGroup::Koutsu(t))
            },
            None => None,
        }
    }

    /// Decodes a group from its packed byte.
    pub fn from_packed(packed: u8) -> (r: Option<HandGroup>)
        ensures
            r == Self::decode(packed as int / 16, packed as int % 16),
            r.is_some() ==> r.unwrap().wf() && r.unwrap().packed_spec() == packed,
    {
        Self::from_suit_code(packed / 16, packed % 16)
    }

    /// The packed byte of a well-formed group.
    pub fn packed(self) -> (r: u8)
        requires
            self.wf(),
        ensures
            r == self.packed_spec(),
            r < 64,
    {
        match self {
            HandGroup::Koutsu(t) => {
                let k: u8 = t.encoding();
                let rank: u8 = k % 9;
                let code: u8 = if rank == 8 {
                    15
                } else {
                    2 * rank
                };
                16 * (k / 9) + code
            },
            HandGroup::Shuntsu(t) => {
                let k: u8 = t.encoding();
                16 * (k / 9) + 2 * (k % 9) + 1
            },
        }
    }

    /// Whether the group is a run.
    pub fn is_shuntsu(self) -> (r: bool)
        ensures
            r == (self is Shuntsu),
    {
        match self {
            HandGroup::Koutsu(_) => false,
            HandGroup::Shuntsu(_) => true,
        }
    }

    /// The number of tiles of rank `rank` of suit `suit` in a well-formed
    /// group: three for three of that kind, one for a run that covers it.
    pub proof fn lemma_count(self, suit: int, rank: int)
        requires
            self.wf(),
            0 <= rank <= 8,
        ensures
            count_in(self.kinds(), 9 * suit + rank) == (if self.tile().suit_spec() != suit {
                0int
            } else if self is Koutsu {
                if self.tile().rank() == rank {
                    3int
                } else {
                    0int
                }
            } else if self.tile().rank() <= rank <= self.tile().rank() + 2 {
                1int
            } else {
                0int
            }),
            all_kinds_real(self.kinds()),
    {
        reveal_with_fuel(count_in, 4);
        self.tile().lemma_code_of();
        let kinds = self.kinds();
        assert(kinds.drop_last().last() == kinds[1]);
        assert(kinds.drop_last().drop_last().last() == kinds[0]);
    }

    /// The group that a code stands for in a suit is well formed, lies in
    /// that suit, and holds of each rank what the code counts.
    pub proof fn lemma_decode(suit_c: int, code: int, suit: int, rank: int)
        requires
            Self::decode(suit_c, code).is_some(),
            0 <= rank <= 8,
        ensures
            Self::decode(suit_c, code).unwrap().wf(),
            Self::decode(suit_c, code).unwrap().tile().suit_spec() == suit_c,
            count_in(Self::decode(suit_c, code).unwrap().kinds(), 9 * suit + rank) == (if suit
                == suit_c {
                code_count(code, rank)
            } else {
                0
            }),
            all_kinds_real(Self::decode(suit_c, code).unwrap().kinds()),
    {
        let g = Self::decode(suit_c, code).unwrap();
        let r = if code == 15 {
            8
        } else {
            code / 2
        };
        Tile::lemma_of_code(9 * suit_c + r);
        g.lemma_count(suit, rank);
    }
}

} // verus!
