//! The summary of what a hand is waiting for.

use vstd::prelude::*;
use crate::decomp::{Decomposer, RegularWait, WaitShape, regular_waits, wait_shapes};
use crate::tables::{GroupingTable, WaitingTable};
use crate::irregular::{IrregularWait, detect_irregular_wait, irregular_wait_of};
use crate::tile_set::{TileMask34, has_bit, lemma_mask_of, lemma_no_bit, lemma_or_bit, mask_of};

verus! {

/// One way in which a hand waits.
#[derive(Clone, Debug)]
pub enum Wait {
    Regular(RegularWait),
    Irregular(IrregularWait),
}

/// Everything a hand of `3N + 1` tiles waits for.
#[derive(Clone, Debug)]
pub struct WaitingInfo {
    /// The kinds of all tiles that complete the hand.
    pub waiting_set: TileMask34,
    /// All regular waits, in the order in which they were found.
    pub regular: Vec<RegularWait>,
    /// The irregular wait, if the hand has one.
    pub irregular: Option<IrregularWait>,
}

/// The normal kinds of the waiting tiles of a sequence of waits.
pub open spec fn waiting_kinds(ws: Seq<WaitShape>) -> Seq<int> {
    ws.map_values(|w: WaitShape| w.waiting_tile.kind())
}

/// The bits of the kinds that complete a hand with the given regular waits
/// and irregular wait.
pub open spec fn waiting_bits(ws: Seq<WaitShape>, irregular: Option<IrregularWait>) -> u64 {
    mask_of(waiting_kinds(ws)) | (match irregular {
        Some(w) => w.waiting_bits(),
        None => 0,
    })
}

impl WaitingInfo {
    /// The regular waits as mathematical values.
    pub open spec fn shapes(self) -> Seq<WaitShape> {
        wait_shapes(self.regular@)
    }

    /// The waiting set is the one that the waits give.
    pub open spec fn wf(self) -> bool {
        self.waiting_set.bits == waiting_bits(self.shapes(), self.irregular)
    }

    /// This is the summary of the hand with suit keys `keys` over the two
    /// tables: its regular waits, its irregular wait, and the kinds of the
    /// waiting tiles of both.
    pub open spec fn summarizes(
        self,
        c_table: GroupingTable,
        w_table: WaitingTable,
        keys: Seq<u32>,
    ) -> bool {
        &&& self.shapes() == regular_waits(c_table, w_table, keys)
        &&& self.irregular == irregular_wait_of(keys)
        &&& self.wf()
    }

    /// The summary of a hand that waits for nothing.
    pub fn new() -> (r: WaitingInfo)
        ensures
            r.waiting_set.bits == 0,
            r.regular@.len() == 0,
            r.irregular.is_none(),
            r.wf(),
    {
        let r = WaitingInfo { waiting_set: TileMask34::new(), regular: Vec::new(), irregular: None };
        proof {
            assert(0u64 | 0u64 == 0u64) by (bit_vector);
        }
        r
    }

    /// Loads the hand with suit keys `keys` into the decomposer and sums up
    /// what it waits for: all its regular waits, its irregular wait, and the
    /// kinds of the waiting tiles of both.
    pub fn from_keys(decomposer: &mut Decomposer, keys: &[u32; 4]) -> (r: WaitingInfo)
        requires
            old(decomposer).wf(),
        ensures
            final(decomposer).wf(),
            final(decomposer).c_table() == old(decomposer).c_table(),
            final(decomposer).w_table() == old(decomposer).w_table(),
            final(decomposer).keys() == keys@,
            final(decomposer).loaded(),
            r.summarizes(old(decomposer).c_table(), old(decomposer).w_table(), keys@),
            forall|i: int|
                0 <= i < r.shapes().len() ==> 0 <= #[trigger] waiting_kinds(r.shapes())[i] <= 33,
    {
        let regular = decomposer.with_keys(*keys).iter();
        let ghost kinds = waiting_kinds(wait_shapes(regular@));
        let mut waiting_set = TileMask34::new();
        let mut i: usize = 0;
        while i < regular.len()
            invariant
                i <= regular.len(),
                kinds == waiting_kinds(wait_shapes(regular@)),
                waiting_set.bits == mask_of(kinds.take(i as int)),
                forall|j: int| 0 <= j < i ==> 0 <= #[trigger] kinds[j] <= 33,
            decreases regular.len() - i,
        {
            proof {
                assert(kinds.take(i as int + 1).drop_last() =~= kinds.take(i as int));
            }
            waiting_set.insert(regular[i].waiting_tile);
            i += 1;
        }
        assert(kinds.take(regular.len() as int) =~= kinds);
        let irregular = detect_irregular_wait(*keys);
        if let Some(w) = irregular {
            waiting_set = waiting_set.union(&w.to_waiting_set());
        } else {
            assert(waiting_set.bits | 0u64 == waiting_set.bits) by (bit_vector);
        }
        WaitingInfo { waiting_set, regular, irregular }
    }
}

impl Default for WaitingInfo {
    /// The summary of a hand that waits for nothing.
    fn default() -> (r: WaitingInfo)
        ensures
            r.waiting_set.bits == 0,
            r.regular@.len() == 0,
            r.irregular.is_none(),
            r.wf(),
    {
        WaitingInfo::new()
    }
}

/// The waiting set of a summary holds a kind exactly when a regular wait
/// has a waiting tile of that kind or the irregular wait is completed by it.
pub proof fn lemma_waiting_set_kinds(info: WaitingInfo, kind: int)
    requires
        info.wf(),
        0 <= kind < 64,
        forall|i: int|
            0 <= i < info.shapes().len() ==> 0 <= #[trigger] waiting_kinds(info.shapes())[i] < 64,
    ensures
        info.waiting_set.has_kind(kind) == (waiting_kinds(info.shapes()).contains(kind) || (
        info.irregular.is_some() && has_bit(info.irregular.unwrap().waiting_bits(), kind))),
{
    let regular = mask_of(waiting_kinds(info.shapes()));
    let other: u64 = match info.irregular {
        Some(w) => w.waiting_bits(),
        None => 0,
    };
    lemma_mask_of(waiting_kinds(info.shapes()), kind);
    lemma_or_bit(regular, other, kind as u64);
    if info.irregular.is_none() {
        lemma_no_bit(kind as u64);
    }
}

/// Summing up the same hand twice over the same tables gives the same
/// waiting set, bit for bit, the same regular waits and the same irregular
/// wait.
pub proof fn lemma_summary_is_repeatable(
    c_table: GroupingTable,
    w_table: WaitingTable,
    keys: Seq<u32>,
    first: WaitingInfo,
    second: WaitingInfo,
)
    requires
        first.summarizes(c_table, w_table, keys),
        second.summarizes(c_table, w_table, keys),
    ensures
        first.waiting_set.bits == second.waiting_set.bits,
        first.shapes() == second.shapes(),
        first.irregular == second.irregular,
{
}

} // verus!
