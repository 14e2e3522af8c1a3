//! Tiles and the complete groups that tiles form.

use vstd::prelude::*;

verus! {

/// One tile.
///
/// Encodings `0..=8`, `9..=17` and `18..=26` are ranks 1 to 9 of the three
/// numeral suits, `27..=33` are the seven honors (four winds, then three
/// dragons), and `34`, `35`, `36` are the red fives of the three numeral suits.
#[derive(Clone, Copy, Debug, PartialEq, Eq, Structural, PartialOrd, Ord, Hash)]
pub struct Tile {
    code: u8,
}

/// The normal kind (`0..=33`) that an encoding (`0..=36`) stands for.
pub open spec fn normal_of(code: int) -> int {
    if code == 34 {
        4
    } else if code == 35 {
        13
    } else if code == 36 {
        22
    } else {
        code
    }
}

/// The kind that is dora when a tile of normal kind `kind` is the
/// indicator: the next numeral of the suit, the next wind, or the next
/// dragon, each going round from the last to the first.
pub open spec fn dora_of(kind: int) -> int {
    if kind < 27 {
        if kind % 9 == 8 {
            kind - 8
        } else {
            kind + 1
        }
    } else if kind <= 30 {
        if kind == 30 {
            27
        } else {
            kind + 1
        }
    } else if kind == 33 {
        31
    } else {
        kind + 1
    }
}

impl Tile {
    #[verifier::type_invariant]
    closed spec fn inv(self) -> bool {
        self.code < 37
    }

    /// The encoding of this tile, in `0..=36`.
    pub closed spec fn code(self) -> int {
        self.code as int
    }

    /// The tile with encoding `code`, for `code` in `0..=36`.
    pub closed spec fn of_code(code: int) -> Tile {
        Tile { code: code as u8 }
    }

    /// `of_code` and `code` are inverse to each other.
    pub proof fn lemma_of_code(code: int)
        requires
            0 <= code <= 36,
        ensures
            Self::of_code(code).code() == code,
    {
    }

    /// A tile is the tile with its encoding.
    pub proof fn lemma_code_of(self)
        ensures
            Self::of_code(self.code()) == self,
            0 <= self.code() <= 255,
    {
    }

    /// The normal kind of this tile, in `0..=33`.
    pub open spec fn kind(self) -> int {
        normal_of(self.code())
    }

    /// The suit of this tile: `0..=2` numerals, `3` honors.
    pub open spec fn suit_spec(self) -> int {
        self.kind() / 9
    }

    /// The 0-based rank of this tile within its suit.
    pub open spec fn rank(self) -> int {
        self.kind() % 9
    }

    /// Two tiles with the same encoding are the same tile.
    pub proof fn lemma_code_injective(a: Tile, b: Tile)
        requires
            a.code() == b.code(),
        ensures
            a == b,
    {
    }

    /// The tile with encoding `code`, if `code` is in `0..=36`.
    pub fn from_encoding(code: u8) -> (r: Option<Tile>)
        ensures
            r.is_some() <==> code <= 36,
            r.is_some() ==> r.unwrap().code() == code,
            r.is_some() ==> r.unwrap() == Self::of_code(code as int),
    {
        if code <= 36 {
            Some(Tile { code })
        } else {
            None
        }
    }

    /// The encoding of this tile.
    pub fn encoding(self) -> (r: u8)
        ensures
            r == self.code(),
            r <= 36,
    {
        proof {
            use_type_invariant(&self);
        }
        self.code
    }

    /// The encoding of the normal kind of this tile.
    pub fn normal_encoding(self) -> (r: u8)
        ensures
            r == self.kind(),
            r <= 33,
    {
        proof {
            use_type_invariant(&self);
        }
        if self.code == 34 {
            4
        } else if self.code == 35 {
            13
        } else if self.code == 36 {
            22
        } else {
            self.code
        }
    }

    /// Whether this tile is a red five.
    pub fn is_red(self) -> (r: bool)
        ensures
            r == (self.code() >= 34),
    {
        self.code >= 34
    }

    /// The same tile with a red five turned into the ordinary five.
    pub fn to_normal(self) -> (r: Tile)
        ensures
            r.code() == self.kind(),
            r == Self::of_code(self.kind()),
    {
        let code: u8 = self.normal_encoding();
        Tile { code }
    }

    /// The suit of this tile: `0..=2` numerals, `3` honors.
    pub fn suit(self) -> (r: u8)
        ensures
            r == self.suit_spec(),
            r <= 3,
    {
        self.normal_encoding() / 9
    }

    /// Whether this tile is a numeral.
    pub fn is_numeral(self) -> (r: bool)
        ensures
            r == (self.kind() < 27),
    {
        self.normal_encoding() < 27
    }

    /// Whether this tile is a wind or a dragon.
    pub fn is_honor(self) -> (r: bool)
        ensures
            r == (self.kind() >= 27),
    {
        self.normal_encoding() >= 27
    }

    /// Whether this tile is a wind.
    pub fn is_wind(self) -> (r: bool)
        ensures
            r == (27 <= self.kind() <= 30),
    {
        let k: u8 = self.normal_encoding();
        27 <= k && k <= 30
    }

    /// The rank as printed on the tile: 1 to 9 for numerals, 1 to 7 for honors.
    pub fn normal_num(self) -> (r: u8)
        ensures
            r == self.rank() + 1,
            1 <= r <= 9,
    {
        self.normal_encoding() % 9 + 1
    }

    /// Like `normal_num`, but 0 for a red five.
    pub fn num(self) -> (r: u8)
        ensures
            r == (if self.code() >= 34 { 0 } else { self.rank() + 1 }),
    {
        if self.is_red() {
            0
        } else {
            self.normal_num()
        }
    }

    /// Whether a kind is an end of a numeral suit or an honor.
    pub open spec fn kind_is_terminal(kind: int) -> bool {
        kind >= 27 || kind % 9 == 0 || kind % 9 == 8
    }

    /// Whether this tile is a 1, a 9 or an honor.
    pub fn is_terminal(self) -> (r: bool)
        ensures
            r == Self::kind_is_terminal(self.kind()),
    {
        let k: u8 = self.normal_encoding();
        k >= 27 || k % 9 == 0 || k % 9 == 8
    }

    /// The tile that is dora when this tile is the indicator.
    pub fn indicated_dora(self) -> (r: Tile)
        ensures
            r.code() == dora_of(self.kind()),
            r == Self::of_code(dora_of(self.kind())),
            r.code() <= 33,
    {
        let k: u8 = self.normal_encoding();
        let code: u8 = if k < 27 {
            if k % 9 == 8 {
                k - 8
            } else {
                k + 1
            }
        } else if k <= 30 {
            if k == 30 {
                27
            } else {
                k + 1
            }
        } else if k == 33 {
            31
        } else {
            k + 1
        };
        Tile { code }
    }

    /// The kind `delta` ranks away in the same numeral suit, if there is one.
    pub open spec fn shifted(self, delta: int) -> Option<int> {
        if self.kind() < 27 && 0 <= self.rank() + delta <= 8 {
            Some(self.kind() + delta)
        } else {
            None
        }
    }

    /// The numeral one rank below; none for a 1 and for honors.
    pub fn pred(self) -> (r: Option<Tile>)
        ensures
            r.is_some() <==> self.shifted(-1).is_some(),
            r.is_some() ==> r.unwrap().code() == self.kind() - 1,
            r.is_some() ==> r.unwrap() == Self::of_code(self.kind() - 1),
    {
        let k: u8 = self.normal_encoding();
        if k < 27 && k % 9 >= 1 {
            Some(Tile { code: k - 1 })
        } else {
            None
        }
    }

    /// The numeral one rank above; none for a 9 and for honors.
    pub fn succ(self) -> (r: Option<Tile>)
        ensures
            r.is_some() <==> self.shifted(1).is_some(),
            r.is_some() ==> r.unwrap().code() == self.kind() + 1,
            r.is_some() ==> r.unwrap() == Self::of_code(self.kind() + 1),
    {
        let k: u8 = self.normal_encoding();
        if k < 27 && k % 9 <= 7 {
            Some(Tile { code: k + 1 })
        } else {
            None
        }
    }

    /// The numeral two ranks above; none for an 8, a 9 and for honors.
    pub fn succ2(self) -> (r: Option<Tile>)
        ensures
            r.is_some() <==> self.shifted(2).is_some(),
            r.is_some() ==> r.unwrap().code() == self.kind() + 2,
            r.is_some() ==> r.unwrap() == Self::of_code(self.kind() + 2),
    {
        let k: u8 = self.normal_encoding();
        if k < 27 && k % 9 <= 6 {
            Some(Tile { code: k + 2 })
        } else {
            None
        }
    }
}

} // verus!
