//! Blocks and the chain that links them.

use crate::cryptography::{block_hash, calculate_hash, meets_difficulty, verify_pow};
use crate::utils::{chars_of, contains_chars, has_substring, valid_data_payload, valid_payload};
use vstd::prelude::*;
use vstd::string::*;

verus! {

/// One sealed record of the chain.
#[derive(Debug, Clone)]
pub struct Block {
    pub index: u64,
    /// Milliseconds since the epoch, as stamped by the producer.
    pub timestamp: u128,
    pub prev_hash: String,
    pub hash: String,
    pub data: String,
    pub nonce: u64,
}

/// The `prev_hash` sentinel of the genesis block.
pub open spec fn genesis_prev_hash() -> Seq<char> {
    seq!['0']
}

/// The payload label of the genesis block.
pub open spec fn genesis_label() -> Seq<char> {
    seq!['G', 'E', 'N', 'E', 'S', 'I', 'S']
}

impl Block {
    /// The block's hash is the digest of its other fields.
    pub open spec fn sealed(&self) -> bool {
        self.hash@ == block_hash(self.index, self.timestamp, self.prev_hash@, self.data@, self.nonce)
    }

    /// The fixed first block of every fresh chain.
    pub open spec fn is_genesis(&self) -> bool {
        &&& self.index == 0
        &&& self.timestamp == 0
        &&& self.prev_hash@ == genesis_prev_hash()
        &&& self.data@ == genesis_label()
        &&& self.nonce == 0
        &&& self.sealed()
    }

    /// Seals the given fields into a block; nothing is validated here.
    pub fn new(index: u64, timestamp: u128, prev_hash: String, data: String, nonce: u64) -> (r:
        Block)
        ensures
            r.index == index,
            r.timestamp == timestamp,
            r.prev_hash == prev_hash,
            r.data == data,
            r.nonce == nonce,
            r.sealed(),
    {
        let hash = calculate_hash(index, timestamp, prev_hash.as_str(), data.as_str(), nonce);
        Block { index, timestamp, prev_hash, hash, data, nonce }
    }

    /// The genesis block.
    pub fn new_dummy() -> (r: Block)
        ensures
            r.is_genesis(),
    {
        proof {
            reveal_strlit("0");
            reveal_strlit("GENESIS");
        }
        let prev = String::from_str("0");
        let label = String::from_str("GENESIS");
        assert(prev@ =~= genesis_prev_hash());
        assert(label@ =~= genesis_label());
        Block::new(0, 0, prev, label, 0)
    }
}

/// Why `add_block` turned a candidate away.
#[derive(Debug, Clone, Copy, PartialEq, Eq, Structural)]
pub enum BlockRejection {
    /// The candidate does not point at the current tip.
    LinkMismatch,
    /// The candidate's hash misses the difficulty target or is not the
    /// digest of its fields.
    ProofOfWorkInvalid,
}

/// Why a mining request produced no block.
#[derive(Debug, Clone, Copy, PartialEq, Eq, Structural)]
pub enum MineError {
    /// The payload is blank or longer than the byte limit.
    InvalidPayload,
    /// No nonce meets the target, or the tip's index has no successor.
    NoBlockFound,
}

/// What a miner does once `add_block` has answered its candidate.
#[derive(Debug, Clone, Copy, PartialEq, Eq, Structural)]
pub enum CommitStep {
    /// The block is on the chain; it can be broadcast.
    Committed,
    /// The tip moved while mining; mine again on the new tip.
    MineAgain,
    /// The candidate itself is unsound; mining it again would not help.
    GiveUp,
}

/// The step that follows an `add_block` outcome: a link mismatch means the
/// tip advanced, so mining is redone; a failed proof of work ends the attempt.
pub fn commit_step(outcome: Result<(), BlockRejection>) -> (r: CommitStep)
    ensures
        r == match outcome {
            Ok(()) => CommitStep::Committed,
            Err(BlockRejection::LinkMismatch) => CommitStep::MineAgain,
            Err(BlockRejection::ProofOfWorkInvalid) => CommitStep::GiveUp,
        },
{
    match outcome {
        Ok(()) => CommitStep::Committed,
        Err(BlockRejection::LinkMismatch) => CommitStep::MineAgain,
        Err(BlockRejection::ProofOfWorkInvalid) => CommitStep::GiveUp,
    }
}

/// The outcome of offering `b` to a chain whose tip is `tip`.
pub open spec fn add_outcome(tip: Block, b: Block) -> Result<(), BlockRejection> {
    if b.prev_hash@ != tip.hash@ {
        Err(BlockRejection::LinkMismatch)
    } else if !(meets_difficulty(b.hash@) && b.sealed()) {
        Err(BlockRejection::ProofOfWorkInvalid)
    } else {
        Ok(())
    }
}

/// `r` is what mining `data` on top of `tip` at time `timestamp` yields: the
/// successor of `tip` with the least nonce whose digest meets the target, or
/// `None` when the tip's index has no successor or no nonce qualifies.
pub open spec fn mined_from(tip: Block, data: Seq<char>, timestamp: u128, r: Option<Block>) -> bool {
    &&& tip.index == u64::MAX ==> r is None
    &&& r matches Some(b) ==> {
        &&& b.index == tip.index + 1
        &&& b.timestamp == timestamp
        &&& b.prev_hash@ == tip.hash@
        &&& b.data@ == data
        &&& b.sealed()
        &&& meets_difficulty(b.hash@)
        &&& forall|n: u64|
            n < b.nonce ==> !meets_difficulty(
                #[trigger] block_hash(b.index, timestamp, tip.hash@, data, n),
            )
    }
    &&& (r is None && tip.index < u64::MAX) ==> forall|n: u64|
        !meets_difficulty(#[trigger] block_hash((tip.index + 1) as u64, timestamp, tip.hash@, data, n))
}

/// A block mined on top of `tip` is accepted by a chain whose tip is still
/// `tip`.
pub proof fn lemma_mined_block_links(tip: Block, data: Seq<char>, timestamp: u128, b: Block)
    requires
        mined_from(tip, data, timestamp, Some(b)),
    ensures
        add_outcome(tip, b) == Ok::<(), BlockRejection>(()),
{
}

/// A block is found by a lookup for `hash` whose optional filter `contains`
/// occurs in its payload.
pub open spec fn lookup_match(b: Block, hash: Seq<char>, contains: Option<Seq<char>>) -> bool {
    b.hash@ == hash && (contains matches Some(f) ==> has_substring(b.data@, f))
}

/// The characters of an optional payload filter.
pub open spec fn filter_view(contains: Option<&str>) -> Option<Seq<char>> {
    match contains {
        Some(f) => Some(f@),
        None => None,
    }
}

/// An ordered sequence of blocks; never empty.
#[derive(Debug, Clone)]
pub struct Blockchain {
    pub blocks: Vec<Block>,
}

impl Blockchain {
    /// The chain has a tip.
    pub open spec fn wf(&self) -> bool {
        self.blocks@.len() > 0
    }

    /// The last block.
    pub open spec fn tip_spec(&self) -> Block {
        self.blocks@.last()
    }

    /// A chain that holds the genesis block alone.
    pub fn new() -> (r: Blockchain)
        ensures
            r.wf(),
            r.blocks@.len() == 1,
            r.blocks@[0].is_genesis(),
    {
        let mut blocks: Vec<Block> = Vec::new();
        blocks.push(Block::new_dummy());
        Blockchain { blocks }
    }

    /// The most recently appended block.
    pub fn tip(&self) -> (r: &Block)
        requires
            self.wf(),
        ensures
            *r == self.tip_spec(),
    {
        &self.blocks[self.blocks.len() - 1]
    }

    /// Appends `block` when it points at the tip, meets the difficulty target
    /// and carries the digest of its own fields; otherwise leaves the chain
    /// as it was and says why.
    pub fn add_block(&mut self, block: Block) -> (r: Result<(), BlockRejection>)
        requires
            old(self).wf(),
        ensures
            final(self).wf(),
            r == add_outcome(old(self).tip_spec(), block),
            r is Ok ==> final(self).blocks@ == old(self).blocks@.push(block),
            r is Err ==> final(self).blocks@ == old(self).blocks@,
            block.prev_hash@ != old(self).tip_spec().hash@ ==> r == Err::<(), BlockRejection>(
                BlockRejection::LinkMismatch,
            ) && final(self).blocks@.len() == old(self).blocks@.len(),
            block.prev_hash@ == old(self).tip_spec().hash@ && !meets_difficulty(block.hash@) ==> {
                &&& r == Err::<(), BlockRejection>(BlockRejection::ProofOfWorkInvalid)
                &&& final(self).blocks@.len() == old(self).blocks@.len()
            },
    {
        let tip = self.tip();
        if block.prev_hash != tip.hash {
            return Err(BlockRejection::LinkMismatch);
        }
        if !verify_pow(block.hash.as_str()) {
            return Err(BlockRejection::ProofOfWorkInvalid);
        }
        let expected = calculate_hash(
            block.index,
            block.timestamp,
            block.prev_hash.as_str(),
            block.data.as_str(),
            block.nonce,
        );
        if block.hash != expected {
            return Err(BlockRejection::ProofOfWorkInvalid);
        }
        self.blocks.push(block);
        Ok(())
    }

    /// Searches nonces upward from zero for the successor of the tip that
    /// carries `data` and is stamped `timestamp`. The chain is not changed.
    pub fn mine_block_at(&self, data: String, timestamp: u128) -> (r: Option<Block>)
        requires
            self.wf(),
        ensures
            mined_from(self.tip_spec(), data@, timestamp, r),
            r matches Some(b) ==> b.data == data,
    {
        let tip = self.tip();
        if tip.index == u64::MAX {
            return None;
        }
        let index: u64 = tip.index + 1;
        let prev_hash = tip.hash.clone();
        let mut nonce: u64 = 0;
        loop
            invariant
                *tip == self.tip_spec(),
                tip.index < u64::MAX,
                prev_hash@ == tip.hash@,
                index == tip.index + 1,
                forall|n: u64|
                    n < nonce ==> !meets_difficulty(
                        #[trigger] block_hash(index, timestamp, tip.hash@, data@, n),
                    ),
            decreases u64::MAX - nonce,
        {
            let hash = calculate_hash(index, timestamp, prev_hash.as_str(), data.as_str(), nonce);
            if verify_pow(hash.as_str()) {
                return Some(Block { index, timestamp, prev_hash, hash, data, nonce });
            }
            if nonce == u64::MAX {
                assert forall|n: u64|
                    !meets_difficulty(
                        #[trigger] block_hash(index, timestamp, tip.hash@, data@, n),
                    ) by {
                    if n == nonce {
                        assert(hash@ == block_hash(index, timestamp, tip.hash@, data@, n));
                    }
                }
                return None;
            }
            nonce = nonce + 1;
        }
    }

    /// Mines `data` on top of the tip, stamped with the current time. The
    /// chain is not changed; the caller commits the block with `add_block`.
    pub fn mine_block(&mut self, data: String) -> (r: Option<Block>)
        requires
            old(self).wf(),
        ensures
            *final(self) == *old(self),
            exists|t: u128| mined_from(old(self).tip_spec(), data@, t, r),
            r matches Some(b) ==> meets_difficulty(b.hash@) && b.sealed() && b.data == data,
    {
        let timestamp = crate::utils::now_millis();
        self.mine_block_at(data, timestamp)
    }

    /// Validates a mining payload before any hashing, then mines it on top of
    /// the tip at time `timestamp`.
    pub fn mine_payload(&self, data: String, timestamp: u128) -> (r: Result<Block, MineError>)
        requires
            self.wf(),
        ensures
            !valid_payload(data@) <==> r == Err::<Block, MineError>(MineError::InvalidPayload),
            valid_payload(data@) ==> match r {
                Ok(b) => mined_from(self.tip_spec(), data@, timestamp, Some(b)),
                Err(e) => e == MineError::NoBlockFound && mined_from(
                    self.tip_spec(),
                    data@,
                    timestamp,
                    None,
                ),
            },
    {
        if !valid_data_payload(data.as_str()) {
            return Err(MineError::InvalidPayload);
        }
        match self.mine_block_at(data, timestamp) {
            Some(b) => Ok(b),
            None => Err(MineError::NoBlockFound),
        }
    }

    /// Adopts `other` wholesale when it is strictly longer, without checking
    /// its links or proofs of work; reports whether it did.
    pub fn sync(&mut self, other: Blockchain) -> (r: bool)
        requires
            old(self).wf(),
        ensures
            final(self).wf(),
            r == (other.blocks@.len() > old(self).blocks@.len()),
            final(self).blocks@ == if r {
                other.blocks@
            } else {
                old(self).blocks@
            },
    {
        if other.blocks.len() > self.blocks.len() {
            self.blocks = other.blocks;
            true
        } else {
            false
        }
    }

    /// The position of the first block whose hash is `hash` and, when a
    /// filter is given, whose payload contains it.
    pub fn find_block(&self, hash: &str, contains: Option<&str>) -> (r: Option<usize>)
        ensures
            r matches Some(i) ==> {
                &&& i < self.blocks@.len()
                &&& lookup_match(self.blocks@[i as int], hash@, filter_view(contains))
                &&& forall|j: int|
                    0 <= j < i ==> !lookup_match(
                        #[trigger] self.blocks@[j],
                        hash@,
                        filter_view(contains),
                    )
            },
            r is None ==> forall|j: int|
                0 <= j < self.blocks@.len() ==> !lookup_match(
                    #[trigger] self.blocks@[j],
                    hash@,
                    filter_view(contains),
                ),
    {
        let wanted = String::from_str(hash);
        let filter: Option<Vec<char>> = match contains {
            Some(f) => Some(chars_of(f)),
            None => None,
        };
        let ghost fv = filter_view(contains);
        let mut i: usize = 0;
        while i < self.blocks.len()
            invariant
                wanted@ == hash@,
                fv == filter_view(contains),
                filter matches Some(v) ==> fv == Some(v@),
                filter is None ==> fv is None,
                i <= self.blocks@.len(),
                forall|j: int| 0 <= j < i ==> !lookup_match(#[trigger] self.blocks@[j], hash@, fv),
            decreases self.blocks@.len() - i,
        {
            let b = &self.blocks[i];
            if b.hash == wanted {
                let found = match &filter {
                    Some(v) => {
                        let d = chars_of(b.data.as_str());
                        contains_chars(&d, v)
                    },
                    None => true,
                };
                if found {
                    return Some(i);
                }
            }
            i = i + 1;
        }
        None
    }
}

} // verus!
