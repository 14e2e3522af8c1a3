//! What the engine works out while it judges one action, kept for the
//! transition that follows.

use vstd::prelude::*;
use crate::analysis::WaitingInfo;
use crate::decomp::Decomposer;
use crate::meld::Meld;
use crate::model::AgariCandidate;
use crate::player::Player;
use crate::tables::{GroupingTable, WaitingTable};
use crate::tile_set::TileSet37;

verus! {

/// For each player: what its hand waits for, the meld that its action or
/// reaction would make, and the ways in which it wins.
pub struct EngineCache<'a> {
    pub decomposer: Decomposer<'a>,
    pub wait: [WaitingInfo; 4],
    pub meld: [Option<Meld>; 4],
    pub win: [Vec<AgariCandidate>; 4],
}

impl<'a> EngineCache<'a> {
    /// The tables that the cache works on are sound.
    pub open spec fn wf(self) -> bool {
        self.decomposer.wf()
    }

    /// The table of complete groupings that the cache works on.
    pub open spec fn c_table(self) -> GroupingTable {
        self.decomposer.c_table()
    }

    /// The table of waiting patterns that the cache works on.
    pub open spec fn w_table(self) -> WaitingTable {
        self.decomposer.w_table()
    }

    /// The tables are those of `other`, and so is all that is kept for the
    /// players, but for what is kept for `player` of the kinds named.
    pub open spec fn kept_from(
        self,
        other: Self,
        player: int,
        but_wait: bool,
        but_meld: bool,
        but_win: bool,
    ) -> bool {
        &&& self.c_table() == other.c_table()
        &&& self.w_table() == other.w_table()
        &&& forall|i: int|
            0 <= i < 4 && !(but_wait && i == player) ==> #[trigger] self.wait@[i] == other.wait@[i]
        &&& forall|i: int|
            0 <= i < 4 && !(but_meld && i == player) ==> #[trigger] self.meld@[i] == other.meld@[i]
        &&& forall|i: int|
            0 <= i < 4 && !(but_win && i == player) ==> #[trigger] self.win@[i] == other.win@[i]
    }

    /// An empty cache over the two tables.
    pub fn new(c_table: &'a GroupingTable, w_table: &'a WaitingTable) -> (r: EngineCache<'a>)
        requires
            c_table.sound(),
            w_table.sound(),
        ensures
            r.wf(),
            r.c_table() == *c_table,
            r.w_table() == *w_table,
            forall|i: int| 0 <= i < 4 ==> (#[trigger] r.wait@[i]).waiting_set.bits == 0,
            forall|i: int| 0 <= i < 4 ==> (#[trigger] r.meld@[i]).is_none(),
            forall|i: int| 0 <= i < 4 ==> (#[trigger] r.win@[i])@.len() == 0,
    {
        EngineCache {
            decomposer: Decomposer::new(c_table, w_table),
            wait: [WaitingInfo::new(), WaitingInfo::new(), WaitingInfo::new(), WaitingInfo::new()],
            meld: [None, None, None, None],
            win: [Vec::new(), Vec::new(), Vec::new(), Vec::new()],
        }
    }

    /// Works out anew what `player` waits for with the closed hand `hand`.
    pub fn update_wait_cache(&mut self, player: Player, hand: &TileSet37)
        requires
            old(self).wf(),
        ensures
            final(self).wf(),
            final(self).kept_from(*old(self), player.index(), true, false, false),
            final(self).wait@[player.index()].summarizes(
                old(self).c_table(),
                old(self).w_table(),
                hand.keys(),
            ),
    {
        let keys = hand.packed_34();
        let info = WaitingInfo::from_keys(&mut self.decomposer, &keys);
        self.wait[player.to_usize()] = info;
    }
}

} // verus!
