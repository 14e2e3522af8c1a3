//! The two lookup tables of single-suit decompositions.
//!
//! Both tables are built and decoded by the `riichi_decomp_table` crate. This
//! module holds them, names what they hold, and states what is relied upon
//! about their entries.

use vstd::prelude::*;
use crate::group::{codes_count, key_digit};
use riichi_decomp_table::{
    CTable,
    WTable,
    WaitingKind as TableKind,
    c_entry_iter_alts,
    make_c_table,
    make_w_table,
    w_entry_iter_alts,
};

verus! {

/// The kind of the one incomplete unit of a waiting hand.
#[derive(Clone, Copy, Debug, PartialEq, Eq, Structural, PartialOrd, Ord, Hash)]
pub enum WaitingKind {
    /// A single tile waiting for its pair.
    Tanki,
    /// A pair waiting for its third tile.
    Shanpon,
    /// Two numerals one rank apart waiting for the one between.
    Kanchan,
    /// Two neighbouring numerals that can only be completed from above.
    RyanmenHigh,
    /// Two neighbouring numerals that can only be completed from below.
    RyanmenLow,
    /// Two neighbouring numerals that can be completed from either side.
    RyanmenBoth,
}

impl WaitingKind {
    /// Whether the completed unit is a run.
    pub open spec fn forms_run(self) -> bool {
        !(self is Tanki || self is Shanpon)
    }

    /// Whether the completed unit is a run.
    pub fn is_shuntsu(self) -> (r: bool)
        ensures
            r == self.forms_run(),
    {
        match self {
            WaitingKind::Tanki | WaitingKind::Shanpon => false,
            _ => true,
        }
    }

    /// The number of tiles of 0-based rank `rank` that the incomplete unit
    /// holds when its lowest tile has rank `pos`.
    pub open spec fn count_at(self, pos: int, rank: int) -> int {
        match self {
            WaitingKind::Tanki => if rank == pos {
                1
            } else {
                0
            },
            WaitingKind::Shanpon => if rank == pos {
                2
            } else {
                0
            },
            WaitingKind::Kanchan => if rank == pos || rank == pos + 2 {
                1
            } else {
                0
            },
            _ => if rank == pos || rank == pos + 1 {
                1
            } else {
                0
            },
        }
    }

    /// The highest position at which the incomplete unit fits in nine ranks.
    pub open spec fn max_pos(self) -> int {
        match self {
            WaitingKind::Tanki | WaitingKind::Shanpon => 8,
            WaitingKind::Kanchan => 6,
            _ => 7,
        }
    }
}

/// One way to split all tiles of a suit into complete groups and at most one
/// pair. Each group is a 4-bit code: twice the rank for three of a kind, but
/// 15 for the ninth rank; twice the lowest rank plus one for a run.
#[derive(Clone, Debug)]
pub struct CompleteGrouping {
    pub groups: Vec<u8>,
    pub pair: Option<u8>,
}

/// The mathematical value of a `CompleteGrouping`.
pub struct GroupingShape {
    pub groups: Seq<u8>,
    pub pair: Option<u8>,
}

impl View for CompleteGrouping {
    type V = GroupingShape;

    open spec fn view(&self) -> GroupingShape {
        GroupingShape { groups: self.groups@, pair: self.pair }
    }
}

/// The views of a sequence of groupings.
pub open spec fn shapes_of(v: Seq<CompleteGrouping>) -> Seq<GroupingShape> {
    v.map_values(|g: CompleteGrouping| g@)
}

impl GroupingShape {
    /// The number of tiles of 0-based rank `rank` in the grouping.
    pub open spec fn count(self, rank: int) -> int {
        codes_count(self.groups, rank) + (if self.pair.is_some() && self.pair.unwrap() == rank {
            2int
        } else {
            0int
        })
    }

    /// The grouping uses valid codes and splits exactly the tiles of `key`:
    /// of each rank it holds as many tiles as the key counts.
    pub open spec fn fits(self, key: u32) -> bool {
        &&& self.groups.len() <= 4
        &&& forall|j: int| 0 <= j < self.groups.len() ==> #[trigger] self.groups[j] <= 15
        &&& self.pair.is_some() ==> self.pair.unwrap() <= 8
        &&& forall|rank: int|
            0 <= rank <= 8 ==> #[trigger] self.count(rank) == key_digit(key as int, rank)
    }
}

/// One way to see the tiles of a suit as an incomplete unit of kind
/// `waiting_kind`, whose lowest tile has 0-based rank `pattern_pos`, beside
/// tiles of key `complete_key` that split into complete groups and a pair.
#[derive(Clone, Copy, Debug, PartialEq, Eq, Structural)]
pub struct WaitingPattern {
    pub complete_key: u32,
    pub waiting_kind: WaitingKind,
    pub pattern_pos: u8,
}

impl WaitingPattern {
    /// The pattern fits in nine ranks and, laid beside the tiles of its
    /// complete key, gives exactly the tiles of `key`: of each rank the key
    /// counts what the pattern holds and the complete key counts.
    pub open spec fn fits(self, key: u32) -> bool {
        &&& self.pattern_pos <= self.waiting_kind.max_pos()
        &&& forall|rank: int|
            0 <= rank <= 8 ==> #[trigger] key_digit(key as int, rank) == key_digit(
                self.complete_key as int,
                rank,
            ) + self.waiting_kind.count_at(self.pattern_pos as int, rank)
    }
}

/// The table of complete groupings by suit key. It holds a
/// `riichi_decomp_table::CTable`, of which the verifier sees nothing: what
/// the table holds is known through `grouping_entries` alone.
#[verifier::external_body]
pub struct GroupingTable {
    table: CTable,
}

/// The table of waiting patterns by suit key. It holds a
/// `riichi_decomp_table::WTable`, of which the verifier sees nothing: what
/// the table holds is known through `waiting_entries` alone.
#[verifier::external_body]
pub struct WaitingTable {
    table: WTable,
}

/// What a grouping table holds: for each key in it, the groupings that
/// `riichi_decomp_table::c_entry_iter_alts` decodes from its entry, in order.
pub uninterp spec fn grouping_entries(t: GroupingTable) -> Map<u32, Seq<GroupingShape>>;

/// What a waiting table holds: for each key in it, the patterns that
/// `riichi_decomp_table::w_entry_iter_alts` decodes from its entry, in order.
pub uninterp spec fn waiting_entries(t: WaitingTable) -> Map<u32, Seq<WaitingPattern>>;

/// Every grouping in the table splits exactly the tiles of its key.
pub open spec fn groupings_sound(m: Map<u32, Seq<GroupingShape>>) -> bool {
    forall|key: u32, i: int|
        m.dom().contains(key) && 0 <= i < m[key].len() ==> (#[trigger] m[key][i]).fits(key)
}

/// Every pattern in the table, with its complete part, makes up exactly
/// the tiles of its key.
pub open spec fn patterns_sound(m: Map<u32, Seq<WaitingPattern>>) -> bool {
    forall|key: u32, i: int|
        m.dom().contains(key) && 0 <= i < m[key].len() ==> (#[trigger] m[key][i]).fits(key)
}

/// Calls `riichi_decomp_table::make_c_table`, which enumerates every choice
/// of at most four groups and an optional pair with no rank used more than
/// four times, and files each choice under the key that counts its tiles.
/// The contract claims that each grouping decoded from the result has at
/// most four valid codes and a pair rank of at most 8, and holds of each
/// rank as many tiles as the octal digit of the key it is filed under.
#[verifier::external_body]
fn make_grouping_table() -> (t: GroupingTable)
    ensures
        groupings_sound(grouping_entries(t)),
{
    GroupingTable { table: make_c_table() }
}

/// Calls `riichi_decomp_table::make_w_table`, which lays each kind of
/// incomplete unit at each rank beside each key of the grouping table,
/// where no rank is then used more than four times, and files the pattern
/// under the key of both together. The contract claims that each pattern
/// decoded from the result lies within the nine ranks and that the key it
/// is filed under counts, rank by rank, the tiles of the pattern and those
/// of its complete key.
#[verifier::external_body]
fn make_waiting_table(c: &GroupingTable) -> (t: WaitingTable)
    requires
        groupings_sound(grouping_entries(*c)),
    ensures
        patterns_sound(waiting_entries(t)),
{
    WaitingTable { table: make_w_table(&c.table) }
}

/// Looks `key` up in the grouping table and decodes the entry with
/// `riichi_decomp_table::c_entry_iter_alts`, copying out the group codes and
/// the pair of each grouping. The contract names the result; a key that is
/// not in the table gives no grouping.
#[verifier::external_body]
fn lookup_groupings(t: &GroupingTable, key: u32) -> (r: Vec<CompleteGrouping>)
    requires
        groupings_sound(grouping_entries(*t)),
    ensures
        shapes_of(r@) == (if grouping_entries(*t).dom().contains(key) {
            grouping_entries(*t)[key]
        } else {
            Seq::empty()
        }),
{
    t.table.get(&key).into_iter().flat_map(|&alts| c_entry_iter_alts(key, alts)).map(
        |c| CompleteGrouping { groups: c.groups.collect(), pair: c.pair() },
    ).collect()
}

/// Looks `key` up in the waiting table and decodes the entry with
/// `riichi_decomp_table::w_entry_iter_alts`, copying out each pattern with
/// its kind turned into this crate's `WaitingKind`. The contract names the
/// result; a key that is not in the table gives no pattern.
#[verifier::external_body]
fn lookup_patterns(t: &WaitingTable, key: u32) -> (r: Vec<WaitingPattern>)
    requires
        patterns_sound(waiting_entries(*t)),
    ensures
        r@ == (if waiting_entries(*t).dom().contains(key) {
            waiting_entries(*t)[key]
        } else {
            Seq::empty()
        }),
{
    t.table.get(&key).into_iter().flat_map(|&alts| w_entry_iter_alts(key, alts)).map(
        |w| WaitingPattern {
            complete_key: w.complete_key,
            waiting_kind: match w.waiting_kind {
                TableKind::Tanki => WaitingKind::Tanki,
                TableKind::Shanpon => WaitingKind::Shanpon,
                TableKind::Kanchan => WaitingKind::Kanchan,
                TableKind::RyanmenHigh => WaitingKind::RyanmenHigh,
                TableKind::RyanmenLow => WaitingKind::RyanmenLow,
                TableKind::RyanmenBoth => WaitingKind::RyanmenBoth,
            },
            pattern_pos: w.pattern_pos,
        },
    ).collect()
}

impl GroupingTable {
    /// The groupings filed under `key`, none if the key is not in the table.
    pub open spec fn groupings_of(self, key: u32) -> Seq<GroupingShape> {
        if grouping_entries(self).dom().contains(key) {
            grouping_entries(self)[key]
        } else {
            Seq::empty()
        }
    }

    /// Every grouping in the table splits exactly the tiles of its key.
    /// This holds of every table that `new` builds.
    pub open spec fn sound(self) -> bool {
        groupings_sound(grouping_entries(self))
    }

    /// Builds the table of complete groupings.
    pub fn new() -> (t: GroupingTable)
        ensures
            t.sound(),
    {
        make_grouping_table()
    }

    /// All complete groupings of the tiles of `key`.
    pub fn groupings(&self, key: u32) -> (r: Vec<CompleteGrouping>)
        requires
            self.sound(),
        ensures
            shapes_of(r@) == self.groupings_of(key),
            forall|i: int| 0 <= i < r.len() ==> (#[trigger] r[i])@.fits(key),
    {
        let r = lookup_groupings(self, key);
        proof {
            assert(shapes_of(r@).len() == r.len());
            assert forall|i: int| 0 <= i < r.len() implies (#[trigger] r[i])@.fits(key) by {
                assert(grouping_entries(*self)[key][i].fits(key));
            }
        }
        r
    }
}

impl WaitingTable {
    /// The patterns filed under `key`, none if the key is not in the table.
    pub open spec fn patterns_of(self, key: u32) -> Seq<WaitingPattern> {
        if waiting_entries(self).dom().contains(key) {
            waiting_entries(self)[key]
        } else {
            Seq::empty()
        }
    }

    /// Every pattern in the table, with its complete part, makes up
    /// exactly the tiles of its key. This holds of every table that `new`
    /// builds.
    pub open spec fn sound(self) -> bool {
        patterns_sound(waiting_entries(self))
    }

    /// Builds the table of waiting patterns from the table of groupings.
    pub fn new(c: &GroupingTable) -> (t: WaitingTable)
        requires
            c.sound(),
        ensures
            t.sound(),
    {
        make_waiting_table(c)
    }

    /// All waiting patterns of the tiles of `key`.
    pub fn patterns(&self, key: u32) -> (r: Vec<WaitingPattern>)
        requires
            self.sound(),
        ensures
            r@ == self.patterns_of(key),
            forall|i: int| 0 <= i < r.len() ==> (#[trigger] r[i]).fits(key),
    {
        lookup_patterns(self, key)
    }
}

} // verus!
