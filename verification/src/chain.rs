//! The chain: an append-only sequence of blocks, validated by recomputing
//! every digest and cross-checking the links.

use vstd::prelude::*;
use vstd::string::StringExecFns;

use crate::block::Block;
use crate::block::hash_meets_difficulty;
use crate::block::meets_difficulty;
use crate::digits::dec_nat;
use crate::digits::push_dec_u64;

verus! {

/// The verdict of a validation pass: either the chain is sound, or the first
/// offending block failed one of the three checks, in checking order.
#[derive(Clone, Copy, Debug, PartialEq, Eq, Structural)]
pub enum ValidationOutcome {
    /// Every block after the genesis block passed all three checks.
    Valid,
    /// The stored digest of the block at `index` disagrees with a
    /// recomputation from its fields: the block was altered after its digest
    /// was computed.
    HashMismatch { index: usize },
    /// The block at `index` does not reference its predecessor's recomputed
    /// digest: the linkage is broken or forged.
    LinkageMismatch { index: usize },
    /// The digest of the block at `index` does not meet the difficulty: the
    /// block is unmined or under-mined.
    InsufficientWork { index: usize },
}

/// The block at `i` is self-consistent, linked to its predecessor, and
/// carries the demanded proof of work.
pub open spec fn valid_at(blocks: Seq<Block>, i: int, difficulty: nat) -> bool
    recommends
        1 <= i < blocks.len(),
{
    &&& blocks[i].well_formed()
    &&& blocks[i].previous_hash@ == blocks[i - 1].recomputed_hash()
    &&& meets_difficulty(blocks[i].hash@, difficulty)
}

/// Chain validity: every block after the genesis block is self-consistent,
/// linked and mined. The genesis block itself is exempt, and so a chain of
/// zero or one blocks is vacuously valid.
pub open spec fn chain_valid(blocks: Seq<Block>, difficulty: nat) -> bool {
    forall|i: int| 1 <= i < blocks.len() ==> valid_at(blocks, i, difficulty)
}

/// The display form of the blocks from index `i` on: one line per block,
/// with the block's recomputed digest.
pub open spec fn rendered_from(blocks: Seq<Block>, i: int) -> Seq<char>
    decreases blocks.len() - i,
{
    if 0 <= i < blocks.len() {
        "Block "@ + dec_nat(i as nat) + " Hash: "@ + blocks[i].recomputed_hash() + "\n"@
            + rendered_from(blocks, i + 1)
    } else {
        Seq::<char>::empty()
    }
}

/// An ordered, append-only container of blocks.
pub struct Blockchain {
    pub blocks: Vec<Block>,
}

impl Blockchain {
    /// An empty chain.
    pub fn new() -> (c: Blockchain)
        ensures
            c.blocks@.len() == 0,
    {
        Blockchain { blocks: Vec::new() }
    }

    /// The blocks, in order.
    pub fn blocks(&self) -> (r: &[Block])
        ensures
            r@ == self.blocks@,
    {
        self.blocks.as_slice()
    }

    /// Mutable access to the blocks, for mining a block in place (and, for
    /// that matter, for altering one; validation recomputes every digest and
    /// so detects alteration).
    pub fn blocks_mut(&mut self) -> (r: &mut [Block])
        ensures
            r@ == old(self).blocks@,
            final(self).blocks@ == final(r)@,
    {
        self.blocks.as_mut_slice()
    }

    /// Appends a block. Deliberately unchecked: mining happens before the
    /// append, and soundness is established by `validate`, not here.
    pub fn push(&mut self, block: Block)
        ensures
            final(self).blocks@ == old(self).blocks@.push(block),
    {
        self.blocks.push(block);
    }

    /// The most recently appended block, if any.
    pub fn last(&self) -> (r: Option<&Block>)
        ensures
            match r {
                Some(b) => self.blocks@.len() > 0 && *b == self.blocks@.last(),
                None => self.blocks@.len() == 0,
            },
    {
        self.blocks.as_slice().last()
    }

    /// Walks the chain from index 1 and checks, in order: the stored digest
    /// against a recomputation, the link against the predecessor's
    /// recomputed digest, and the proof of work; stops at the first failure
    /// and reports which check failed where.
    pub fn validate(&self, difficulty: usize) -> (r: ValidationOutcome)
        ensures
            match r {
                ValidationOutcome::Valid => chain_valid(self.blocks@, difficulty as nat),
                ValidationOutcome::HashMismatch { index } => {
                    &&& 1 <= index < self.blocks@.len()
                    &&& !self.blocks@[index as int].well_formed()
                    &&& forall|j: int|
                        1 <= j < index ==> valid_at(self.blocks@, j, difficulty as nat)
                },
                ValidationOutcome::LinkageMismatch { index } => {
                    &&& 1 <= index < self.blocks@.len()
                    &&& self.blocks@[index as int].well_formed()
                    &&& self.blocks@[index as int].previous_hash@ != self.blocks@[index
                        - 1].recomputed_hash()
                    &&& forall|j: int|
                        1 <= j < index ==> valid_at(self.blocks@, j, difficulty as nat)
                },
                ValidationOutcome::InsufficientWork { index } => {
                    &&& 1 <= index < self.blocks@.len()
                    &&& self.blocks@[index as int].well_formed()
                    &&& self.blocks@[index as int].previous_hash@ == self.blocks@[index
                        - 1].recomputed_hash()
                    &&& !meets_difficulty(self.blocks@[index as int].hash@, difficulty as nat)
                    &&& forall|j: int|
                        1 <= j < index ==> valid_at(self.blocks@, j, difficulty as nat)
                },
            },
    {
        let n = self.blocks.len();
        let mut i: usize = 1;
        while i < n
            invariant
                1 <= i,
                n == self.blocks@.len(),
                forall|j: int| 1 <= j < i ==> valid_at(self.blocks@, j, difficulty as nat),
            decreases n - i,
        {
            let cur = &self.blocks[i];
            let recomputed = Block::calculate_hash(
                cur.previous_hash.as_str(),
                cur.timestamp,
                cur.nonce,
                cur.data.as_str(),
            );
            if !(cur.hash == recomputed) {
                return ValidationOutcome::HashMismatch { index: i };
            }
            let prev = &self.blocks[i - 1];
            let prev_recomputed = Block::calculate_hash(
                prev.previous_hash.as_str(),
                prev.timestamp,
                prev.nonce,
                prev.data.as_str(),
            );
            if !(cur.previous_hash == prev_recomputed) {
                return ValidationOutcome::LinkageMismatch { index: i };
            }
            if !hash_meets_difficulty(cur.hash.as_str(), difficulty) {
                return ValidationOutcome::InsufficientWork { index: i };
            }
            i = i + 1;
        }
        ValidationOutcome::Valid
    }

    /// The single-verdict form of `validate`: true exactly when the whole
    /// chain is valid at the given difficulty.
    pub fn is_chain_valid(&self, difficulty: usize) -> (r: bool)
        ensures
            r == chain_valid(self.blocks@, difficulty as nat),
    {
        let outcome = self.validate(difficulty);
        match outcome {
            ValidationOutcome::Valid => true,
            ValidationOutcome::HashMismatch { index } => {
                proof {
                    assert(!valid_at(self.blocks@, index as int, difficulty as nat));
                }
                false
            },
            ValidationOutcome::LinkageMismatch { index } => {
                proof {
                    assert(!valid_at(self.blocks@, index as int, difficulty as nat));
                }
                false
            },
            ValidationOutcome::InsufficientWork { index } => {
                proof {
                    assert(!valid_at(self.blocks@, index as int, difficulty as nat));
                }
                false
            },
        }
    }

    /// The display form of the whole chain: a line "Block <index> Hash:
    /// <digest>" per block, with each digest recomputed from the block's
    /// fields.
    pub fn render(&self) -> (r: String)
        ensures
            r@ == rendered_from(self.blocks@, 0),
    {
        let mut out = String::new();
        let n = self.blocks.len();
        let mut i: usize = 0;
        while i < n
            invariant
                i <= n,
                n == self.blocks@.len(),
                out@ + rendered_from(self.blocks@, i as int) == rendered_from(self.blocks@, 0),
            decreases n - i,
        {
            let b = &self.blocks[i];
            out.append("Block ");
            push_dec_u64(&mut out, i as u64);
            out.append(" Hash: ");
            let h = b.hash();
            out.append(h.as_str());
            out.append("\n");
            proof {
                assert(out@ + rendered_from(self.blocks@, i + 1) =~= rendered_from(
                    self.blocks@,
                    0,
                ));
            }
            i = i + 1;
        }
        proof {
            assert(out@ =~= rendered_from(self.blocks@, 0));
        }
        out
    }
}

/// A chain of at most one block is always valid, whatever its mining state:
/// validation only examines blocks that have a predecessor.
pub proof fn lemma_short_chain_valid(blocks: Seq<Block>, difficulty: nat)
    requires
        blocks.len() <= 1,
    ensures
        chain_valid(blocks, difficulty),
{
}

/// Appending a self-consistent, mined block that references the last block's
/// recomputed digest keeps a valid chain valid. Growing a chain as intended
/// -- construct, mine, link to the previous digest, append -- therefore
/// always yields a chain that validates.
pub proof fn lemma_push_preserves_valid(blocks: Seq<Block>, b: Block, difficulty: nat)
    requires
        chain_valid(blocks, difficulty),
        b.well_formed(),
        meets_difficulty(b.hash@, difficulty),
        blocks.len() > 0 ==> b.previous_hash@ == blocks.last().recomputed_hash(),
    ensures
        chain_valid(blocks.push(b), difficulty),
{
    let s = blocks.push(b);
    assert forall|i: int| 1 <= i < s.len() implies valid_at(s, i, difficulty) by {
        if i < blocks.len() {
            assert(valid_at(blocks, i, difficulty));
            assert(s[i] == blocks[i]);
            assert(s[i - 1] == blocks[i - 1]);
        } else {
            assert(s[i] == b);
            assert(s[i - 1] == blocks[i - 1]);
            assert(blocks.last() == blocks[i - 1]);
        }
    }
}

} // verus!
