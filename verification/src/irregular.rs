//! Waiting hands that are not made of groups: seven pairs and thirteen orphans.

use vstd::prelude::*;
use crate::group::key_digit;
use crate::tile::Tile;
use crate::tile_set::TileMask34;

verus! {

/// The mask of the thirteen terminal and honor kinds.
pub const TERMINAL_KINDS_MASK: u64 = 0x3_fc06_0301;

/// A waiting hand of thirteen tiles that is not made of groups.
#[derive(Clone, Copy, Debug, PartialEq, Eq, Structural)]
pub enum IrregularWait {
    /// Six pairs and one single tile, which is the waiting tile.
    SevenPairs(Tile),
    /// Twelve of the thirteen terminal and honor kinds, one of them twice;
    /// the waiting tile is the kind that is not held.
    ThirteenOrphans(Tile),
    /// Each of the thirteen terminal and honor kinds once; any of the
    /// thirteen completes the hand.
    ThirteenOrphansAll,
}

/// The number of tiles of normal kind `kind` in the hand with suit keys `keys`.
pub open spec fn kind_count(keys: Seq<u32>, kind: int) -> int {
    key_digit(keys[kind / 9] as int, kind % 9)
}

/// Whether a kind is counted: every kind, or the terminal and honor kinds only.
pub open spec fn counted(kind: int, terminal_only: bool) -> bool {
    !terminal_only || Tile::kind_is_terminal(kind)
}

/// The number of counted kinds below `n` of which the hand holds exactly `c` tiles.
pub open spec fn num_with(keys: Seq<u32>, c: int, terminal_only: bool, n: int) -> int
    decreases n,
{
    if n <= 0 {
        0
    } else {
        num_with(keys, c, terminal_only, n - 1) + (if counted(n - 1, terminal_only) && kind_count(
            keys,
            n - 1,
        ) == c {
            1int
        } else {
            0int
        })
    }
}

/// The lowest counted kind below `n` of which the hand holds exactly `c`
/// tiles, or -1 if there is none.
pub open spec fn first_with(keys: Seq<u32>, c: int, terminal_only: bool, n: int) -> int
    decreases n,
{
    if n <= 0 {
        -1
    } else if first_with(keys, c, terminal_only, n - 1) >= 0 {
        first_with(keys, c, terminal_only, n - 1)
    } else if counted(n - 1, terminal_only) && kind_count(keys, n - 1) == c {
        n - 1
    } else {
        -1
    }
}

/// The keys count tiles of real kinds only: nine ranks in a numeral suit,
/// seven among the honors.
pub open spec fn keys_in_range(keys: Seq<u32>) -> bool {
    keys[0] < 0x800_0000 && keys[1] < 0x800_0000 && keys[2] < 0x800_0000 && keys[3] < 0x20_0000
}

/// Six kinds are held twice, one kind once, and no other kind at all.
pub open spec fn is_seven_pairs(keys: Seq<u32>) -> bool {
    keys_in_range(keys) && num_with(keys, 2, false, 34) == 6 && num_with(keys, 1, false, 34) == 1
        && num_with(keys, 0, false, 34) == 27
}

/// Nothing is held but terminal and honor kinds, each of them once.
pub open spec fn is_thirteen_orphans_all(keys: Seq<u32>) -> bool {
    keys_in_range(keys) && num_with(keys, 1, true, 34) == 13 && num_with(keys, 0, false, 34) == 21
}

/// Nothing is held but terminal and honor kinds: eleven of them once, one
/// twice, and one not at all.
pub open spec fn is_thirteen_orphans(keys: Seq<u32>) -> bool {
    keys_in_range(keys) && num_with(keys, 1, true, 34) == 11 && num_with(keys, 2, true, 34) == 1
        && num_with(keys, 0, true, 34) == 1 && num_with(keys, 0, false, 34) == 22
}

/// The irregular wait of the hand with suit keys `keys`, if it has one.
pub open spec fn irregular_wait_of(keys: Seq<u32>) -> Option<IrregularWait> {
    if is_seven_pairs(keys) {
        Some(IrregularWait::SevenPairs(Tile::of_code(first_with(keys, 1, false, 34))))
    } else if is_thirteen_orphans_all(keys) {
        Some(IrregularWait::ThirteenOrphansAll)
    } else if is_thirteen_orphans(keys) {
        Some(IrregularWait::ThirteenOrphans(Tile::of_code(first_with(keys, 0, true, 34))))
    } else {
        None
    }
}

impl IrregularWait {
    /// The bits of the kinds that complete the hand.
    pub open spec fn waiting_bits(self) -> u64 {
        match self {
            IrregularWait::SevenPairs(t) => 1u64 << (t.kind() as u64),
            IrregularWait::ThirteenOrphans(t) => 1u64 << (t.kind() as u64),
            IrregularWait::ThirteenOrphansAll => TERMINAL_KINDS_MASK,
        }
    }

    /// The kinds that complete the hand.
    pub fn to_waiting_set(self) -> (r: TileMask34)
        ensures
            r.bits == self.waiting_bits(),
    {
        match self {
            IrregularWait::SevenPairs(t) => {
                let mut r = TileMask34::new();
                r.insert(t);
                assert(0u64 | (1u64 << (t.kind() as u64)) == 1u64 << (t.kind() as u64))
                    by (bit_vector);
                r
            },
            IrregularWait::ThirteenOrphans(t) => {
                let mut r = TileMask34::new();
                r.insert(t);
                assert(0u64 | (1u64 << (t.kind() as u64)) == 1u64 << (t.kind() as u64))
                    by (bit_vector);
                r
            },
            IrregularWait::ThirteenOrphansAll => TileMask34 { bits: TERMINAL_KINDS_MASK },
        }
    }

    /// Whether the hand waits on thirteen orphans.
    pub fn is_thirteen_orphans(self) -> (r: bool)
        ensures
            r == !(self is SevenPairs),
    {
        match self {
            IrregularWait::SevenPairs(_) => false,
            _ => true,
        }
    }
}

/// The number of tiles of a normal kind that the keys count.
fn count_in_keys(keys: &[u32; 4], kind: u8) -> (r: u8)
    requires
        kind < 36,
    ensures
        r == kind_count(keys@, kind as int),
        r <= 7,
{
    let mut key: u32 = keys[(kind / 9) as usize];
    let rank: u8 = kind % 9;
    let mut i: u8 = 0;
    while i < rank
        invariant
            i <= rank,
            key_digit(key as int, rank - i) == kind_count(keys@, kind as int),
        decreases rank - i,
    {
        key = key / 8;
        i += 1;
    }
    (key % 8) as u8
}

/// Finds the irregular wait of a hand given by its four suit keys.
pub fn detect_irregular_wait(keys: [u32; 4]) -> (r: Option<IrregularWait>)
    ensures
        r == irregular_wait_of(keys@),
{
    if keys[0] >= 0x800_0000 || keys[1] >= 0x800_0000 || keys[2] >= 0x800_0000 || keys[3]
        >= 0x20_0000 {
        return None;
    }
    let mut zeros: u8 = 0;
    let mut ones: u8 = 0;
    let mut twos: u8 = 0;
    let mut terminal_zeros: u8 = 0;
    let mut terminal_ones: u8 = 0;
    let mut terminal_twos: u8 = 0;
    let mut first_one: u8 = 34;
    let mut first_terminal_zero: u8 = 34;
    let mut k: u8 = 0;
    while k < 34
        invariant
            k <= 34,
            zeros == num_with(keys@, 0, false, k as int),
            ones == num_with(keys@, 1, false, k as int),
            twos == num_with(keys@, 2, false, k as int),
            terminal_zeros == num_with(keys@, 0, true, k as int),
            terminal_ones == num_with(keys@, 1, true, k as int),
            terminal_twos == num_with(keys@, 2, true, k as int),
            zeros <= k && ones <= k && twos <= k,
            terminal_zeros <= k && terminal_ones <= k && terminal_twos <= k,
            first_one <= 34,
            first_terminal_zero <= 34,
            ones > 0 ==> first_one < 34,
            terminal_zeros > 0 ==> first_terminal_zero < 34,
            first_with(keys@, 1, false, k as int) == (if first_one < 34 {
                first_one as int
            } else {
                -1
            }),
            first_with(keys@, 0, true, k as int) == (if first_terminal_zero < 34 {
                first_terminal_zero as int
            } else {
                -1
            }),
        decreases 34 - k,
    {
        let c: u8 = count_in_keys(&keys, k);
        let terminal: bool = k >= 27 || k % 9 == 0 || k % 9 == 8;
        if c == 0 {
            zeros += 1;
            if terminal {
                terminal_zeros += 1;
                if first_terminal_zero == 34 {
                    first_terminal_zero = k;
                }
            }
        } else if c == 1 {
            ones += 1;
            if terminal {
                terminal_ones += 1;
            }
            if first_one == 34 {
                first_one = k;
            }
        } else if c == 2 {
            twos += 1;
            if terminal {
                terminal_twos += 1;
            }
        }
        k += 1;
    }
    if twos == 6 && ones == 1 && zeros == 27 {
        match Tile::from_encoding(first_one) {
            Some(t) => Some(IrregularWait::SevenPairs(t)),
            None => None,
        }
    } else if terminal_ones == 13 && zeros == 21 {
        Some(IrregularWait::ThirteenOrphansAll)
    } else if terminal_ones == 11 && terminal_twos == 1 && terminal_zeros == 1 && zeros == 22 {
        match Tile::from_encoding(first_terminal_zero) {
            Some(t) => Some(IrregularWait::ThirteenOrphans(t)),
            None => None,
        }
    } else {
        None
    }
}

} // verus!
