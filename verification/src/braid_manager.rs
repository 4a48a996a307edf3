//! The braid manager's own state and decisions: the beads it has stored, and
//! how it answers requests for a bead, for the addition of a bead and for the
//! hashes of the braid's tips.

use crate::bead::{hashes_equal, Bead, BeadHash, BeadView};
use vstd::prelude::*;

verus! {

/// How the addition of a bead ended.
#[derive(Debug, Clone, Copy, PartialEq, Eq, Structural)]
pub enum AddBeadStatus {
    BeadAdded,
    InvalidBead,
}

/// The first bead in `beads` whose hash is `hash`.
pub open spec fn first_with_hash(beads: Seq<BeadView>, hash: Seq<u8>) -> Option<BeadView>
    decreases beads.len(),
{
    if beads.len() == 0 {
        None
    } else {
        match first_with_hash(beads.drop_last(), hash) {
            Some(b) => Some(b),
            None => if beads.last().hash() == hash {
                Some(beads.last())
            } else {
                None
            },
        }
    }
}

/// The beads the manager has stored, in the order they were added.
pub struct BraidManager {
    beads_storage: Vec<Bead>,
}

impl View for BraidManager {
    type V = Seq<BeadView>;

    closed spec fn view(&self) -> Seq<BeadView> {
        self.beads_storage@.map_values(|b: Bead| b@)
    }
}

impl BraidManager {
    /// A manager whose stored beads are, at first, the genesis beads the braid
    /// starts from, so that each of them is found by its hash.
    pub fn new(genesis_beads: Vec<Bead>) -> (res: Self)
        ensures
            res@ == genesis_beads@.map_values(|b: Bead| b@),
    {
        BraidManager { beads_storage: genesis_beads }
    }

    /// Answers a request for the bead with `hash`: a copy of the first stored
    /// bead with that hash, if any.
    pub fn get_bead(&self, hash: &BeadHash) -> (res: Option<Bead>)
        ensures
            match res {
                Some(b) => first_with_hash(self@, hash@) == Some(b@),
                None => first_with_hash(self@, hash@) is None,
            },
    {
        let beads = &self.beads_storage;
        let mut i: usize = 0;
        while i < beads.len()
            invariant
                i <= beads.len(),
                self@ == beads@.map_values(|b: Bead| b@),
                first_with_hash(self@.take(i as int), hash@) is None,
            decreases beads.len() - i,
        {
            let found = beads[i].block_hash();
            assert(self@.take(i + 1).drop_last() =~= self@.take(i as int));
            if hashes_equal(&found, hash) {
                let b = beads[i].duplicate();
                proof {
                    lemma_first_with_hash_prefix(self@, hash@, i + 1);
                }
                return Some(b);
            }
            i = i + 1;
        }
        assert(self@.take(beads.len() as int) =~= self@);
        None
    }

    /// Records the braid's verdict on a new bead: when the braid was extended
    /// with it, the bead is stored and reported added; otherwise nothing is
    /// stored and the bead is reported invalid.
    pub fn add_bead(&mut self, bead: Bead, extended: bool) -> (status: AddBeadStatus)
        ensures
            extended ==> status == AddBeadStatus::BeadAdded && final(self)@ == old(self)@.push(bead@),
            !extended ==> status == AddBeadStatus::InvalidBead && final(self)@ == old(self)@,
    {
        if extended {
            let ghost before = self.beads_storage@;
            self.beads_storage.push(bead);
            assert(self@ =~= old(self)@.push(bead@)) by {
                assert(self.beads_storage@ =~= before.push(bead));
            }
            AddBeadStatus::BeadAdded
        } else {
            AddBeadStatus::InvalidBead
        }
    }

    /// The number of stored beads.
    pub fn stored_count(&self) -> (res: usize)
        ensures
            res == self@.len(),
    {
        self.beads_storage.len()
    }
}

/// Once the first bead with `hash` lies within the first `n` beads, it is the
/// first such bead of the whole sequence.
proof fn lemma_first_with_hash_prefix(beads: Seq<BeadView>, hash: Seq<u8>, n: int)
    requires
        0 <= n <= beads.len(),
        first_with_hash(beads.take(n), hash) is Some,
    ensures
        first_with_hash(beads, hash) == first_with_hash(beads.take(n), hash),
    decreases beads.len() - n,
{
    if n < beads.len() {
        assert(beads.take(n + 1).drop_last() =~= beads.take(n));
        lemma_first_with_hash_prefix(beads, hash, n + 1);
    } else {
        assert(beads.take(n) =~= beads);
    }
}

/// Law (a stored bead is found by its hash): once a bead has been stored, a
/// request for its hash is answered with a bead of that hash, which is the
/// stored bead itself unless an earlier stored bead has the same hash.
pub proof fn lemma_added_bead_is_found(stored: Seq<BeadView>, bead: BeadView)
    ensures
        first_with_hash(stored.push(bead), bead.hash()) is Some,
        first_with_hash(stored.push(bead), bead.hash())->0.hash() == bead.hash(),
        first_with_hash(stored, bead.hash()) is None ==> first_with_hash(
            stored.push(bead),
            bead.hash(),
        ) == Some(bead),
        first_with_hash(stored, bead.hash()) is Some ==> first_with_hash(
            stored.push(bead),
            bead.hash(),
        ) == first_with_hash(stored, bead.hash()),
{
    assert(stored.push(bead).drop_last() =~= stored);
    lemma_first_with_hash_matches(stored, bead.hash());
}

/// Law (every stored bead is found by its hash): for each bead the manager
/// holds, genesis or added, a request for its hash is answered with a bead of
/// that hash, stored no later than it.
pub proof fn lemma_stored_bead_is_found(stored: Seq<BeadView>, i: int)
    requires
        0 <= i < stored.len(),
    ensures
        first_with_hash(stored, stored[i].hash()) is Some,
        first_with_hash(stored, stored[i].hash())->0.hash() == stored[i].hash(),
        exists|j: int|
            0 <= j <= i && first_with_hash(stored, stored[i].hash()) == Some(#[trigger] stored[j]),
    decreases stored.len(),
{
    let hash = stored[i].hash();
    let prefix = stored.drop_last();
    if i < stored.len() - 1 {
        lemma_stored_bead_is_found(prefix, i);
        assert(prefix[i] == stored[i]);
        let j = choose|j: int| 0 <= j <= i && first_with_hash(prefix, hash) == Some(#[trigger] prefix[j]);
        assert(prefix[j] == stored[j]);
    } else {
        lemma_first_with_hash_matches(prefix, hash);
        match first_with_hash(prefix, hash) {
            Some(b) => {
                lemma_first_with_hash_in(prefix, hash);
                let j = choose|j: int| 0 <= j < prefix.len() && b == #[trigger] prefix[j];
                assert(prefix[j] == stored[j]);
            },
            None => {
                assert(stored.last() == stored[i]);
            },
        }
    }
}

/// The bead that `first_with_hash` finds is one of the beads searched.
proof fn lemma_first_with_hash_in(beads: Seq<BeadView>, hash: Seq<u8>)
    ensures
        first_with_hash(beads, hash) matches Some(b) ==> exists|j: int|
            0 <= j < beads.len() && b == #[trigger] beads[j],
    decreases beads.len(),
{
    if beads.len() > 0 {
        let prefix = beads.drop_last();
        lemma_first_with_hash_in(prefix, hash);
        if let Some(b) = first_with_hash(prefix, hash) {
            let j = choose|j: int| 0 <= j < prefix.len() && b == #[trigger] prefix[j];
            assert(beads[j] == prefix[j]);
        } else {
            assert(beads[beads.len() - 1] == beads.last());
        }
    }
}

/// The bead that `first_with_hash` finds has the hash looked for.
pub proof fn lemma_first_with_hash_matches(beads: Seq<BeadView>, hash: Seq<u8>)
    ensures
        first_with_hash(beads, hash) matches Some(b) ==> b.hash() == hash,
    decreases beads.len(),
{
    if beads.len() > 0 {
        lemma_first_with_hash_matches(beads.drop_last(), hash);
    }
}

/// The hashes of the braid's tips, given as indices into the braid's beads.
pub fn tip_hashes(beads: &Vec<Bead>, tips: &Vec<usize>) -> (res: Vec<BeadHash>)
    requires
        forall|i: int| 0 <= i < tips.len() ==> #[trigger] tips@[i] < beads.len(),
    ensures
        res.len() == tips.len(),
        forall|i: int| 0 <= i < tips.len() ==> #[trigger] res@[i]@ == beads@[tips@[i] as int]@.hash(),
{
    let mut res: Vec<BeadHash> = Vec::new();
    let mut i: usize = 0;
    while i < tips.len()
        invariant
            i <= tips.len(),
            forall|j: int| 0 <= j < tips.len() ==> #[trigger] tips@[j] < beads.len(),
            res.len() == i,
            forall|j: int| 0 <= j < i ==> #[trigger] res@[j]@ == beads@[tips@[j] as int]@.hash(),
        decreases tips.len() - i,
    {
        let h = beads[tips[i]].block_hash();
        res.push(h);
        i = i + 1;
    }
    res
}

} // verus!
