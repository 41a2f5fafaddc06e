//! Blocks: payload, predecessor link, timestamp, nonce and digest, with the
//! digest computation and the mining search.

use vstd::prelude::*;
use vstd::string::StrSliceExecFns;
use vstd::string::StringExecFns;

use crate::digits::dec_int;
use crate::digits::dec_nat;
use crate::digits::push_dec_i32;
use crate::digits::push_dec_u64;
use crate::sha::sha256_hex;
use crate::sha::sha256_hex_of;

verus! {

/// The exact string whose digest is a block's hash: the previous hash, the
/// decimal timestamp, the decimal nonce and the payload, concatenated.
pub open spec fn hash_input(
    previous_hash: Seq<char>,
    timestamp: u64,
    nonce: i32,
    data: Seq<char>,
) -> Seq<char> {
    previous_hash + dec_nat(timestamp as nat) + dec_int(nonce as int) + data
}

/// The digest of a block's four determining fields.
pub open spec fn hash_digest(
    previous_hash: Seq<char>,
    timestamp: u64,
    nonce: i32,
    data: Seq<char>,
) -> Seq<char> {
    sha256_hex_of(hash_input(previous_hash, timestamp, nonce, data))
}

/// A digest meets a difficulty when its first `difficulty` characters are
/// all '0'.
pub open spec fn meets_difficulty(h: Seq<char>, difficulty: nat) -> bool {
    difficulty <= h.len() && forall|i: int| 0 <= i < difficulty ==> h[i] == '0'
}

/// One unit of the ledger. The stored `hash` is never a source of truth: it
/// is meant to equal a recomputation from the other four fields, and
/// validation checks exactly that.
pub struct Block {
    pub previous_hash: String,
    pub data: String,
    pub timestamp: u64,
    pub nonce: i32,
    pub hash: String,
}

impl Block {
    /// The digest that the block's current fields determine.
    pub open spec fn recomputed_hash(self) -> Seq<char> {
        hash_digest(self.previous_hash@, self.timestamp, self.nonce, self.data@)
    }

    /// The stored digest agrees with a recomputation from the other fields.
    pub open spec fn well_formed(self) -> bool {
        self.hash@ == self.recomputed_hash()
    }

    /// A fresh, unmined block: nonce zero, digest computed from the fields.
    pub fn new(data: &str, previous_hash: &str, timestamp: u64) -> (b: Block)
        ensures
            b.data@ == data@,
            b.previous_hash@ == previous_hash@,
            b.timestamp == timestamp,
            b.nonce == 0,
            b.well_formed(),
    {
        let hash = Self::calculate_hash(previous_hash, timestamp, 0, data);
        Block {
            previous_hash: previous_hash.to_owned(),
            data: data.to_owned(),
            timestamp,
            nonce: 0,
            hash,
        }
    }

    /// The digest of the four fields, over their canonical string forms.
    /// Identical inputs give the identical digest: the result is a pure
    /// function of the arguments.
    pub fn calculate_hash(previous_hash: &str, timestamp: u64, nonce: i32, data: &str) -> (r:
        String)
        ensures
            r@ == hash_digest(previous_hash@, timestamp, nonce, data@),
            r@.len() == 64,
    {
        let mut input = previous_hash.to_owned();
        push_dec_u64(&mut input, timestamp);
        push_dec_i32(&mut input, nonce);
        input.append(data);
        proof {
            assert(input@ =~= hash_input(previous_hash@, timestamp, nonce, data@));
        }
        sha256_hex(input.as_str())
    }

    /// The block's digest, recomputed from its current fields; the stored
    /// `hash` is deliberately not consulted.
    pub fn hash(&self) -> (r: String)
        ensures
            r@ == self.recomputed_hash(),
            r@.len() == 64,
    {
        Self::calculate_hash(
            self.previous_hash.as_str(),
            self.timestamp,
            self.nonce,
            self.data.as_str(),
        )
    }

    /// Searches nonce values upward from the current one until the digest
    /// meets the difficulty, then stores that digest and nonce. Returns false
    /// only when the whole remaining nonce range was searched in vain; either
    /// way the stored digest is left consistent with the fields.
    pub fn mine_block(&mut self, difficulty: usize) -> (found: bool)
        ensures
            final(self).data@ == old(self).data@,
            final(self).previous_hash@ == old(self).previous_hash@,
            final(self).timestamp == old(self).timestamp,
            final(self).well_formed(),
            old(self).nonce <= final(self).nonce,
            found ==> meets_difficulty(final(self).hash@, difficulty as nat),
            forall|n: i32|
                old(self).nonce <= n < final(self).nonce ==> !meets_difficulty(
                    hash_digest(
                        old(self).previous_hash@,
                        old(self).timestamp,
                        n,
                        old(self).data@,
                    ),
                    difficulty as nat,
                ),
            !found ==> final(self).nonce == i32::MAX && !meets_difficulty(
                final(self).hash@,
                difficulty as nat,
            ),
            difficulty == 0 ==> found && final(self).nonce == old(self).nonce,
    {
        let mut h = Self::calculate_hash(
            self.previous_hash.as_str(),
            self.timestamp,
            self.nonce,
            self.data.as_str(),
        );
        loop
            invariant
                self.previous_hash@ == old(self).previous_hash@,
                self.data@ == old(self).data@,
                self.timestamp == old(self).timestamp,
                old(self).nonce <= self.nonce,
                h@ == hash_digest(self.previous_hash@, self.timestamp, self.nonce, self.data@),
                forall|n: i32|
                    old(self).nonce <= n < self.nonce ==> !meets_difficulty(
                        hash_digest(
                            old(self).previous_hash@,
                            old(self).timestamp,
                            n,
                            old(self).data@,
                        ),
                        difficulty as nat,
                    ),
            decreases i32::MAX - self.nonce,
        {
            if hash_meets_difficulty(h.as_str(), difficulty) {
                self.hash = h;
                proof {
                    if difficulty == 0 && old(self).nonce < self.nonce {
                        assert(meets_difficulty(
                            hash_digest(
                                old(self).previous_hash@,
                                old(self).timestamp,
                                old(self).nonce,
                                old(self).data@,
                            ),
                            0,
                        ));
                    }
                }
                return true;
            }
            if self.nonce == i32::MAX {
                self.hash = h;
                return false;
            }
            self.nonce = self.nonce + 1;
            h = Self::calculate_hash(
                self.previous_hash.as_str(),
                self.timestamp,
                self.nonce,
                self.data.as_str(),
            );
        }
    }
}

/// Whether the first `difficulty` characters of `h` are all '0'. A string
/// shorter than `difficulty` cannot meet it.
pub fn hash_meets_difficulty(h: &str, difficulty: usize) -> (r: bool)
    ensures
        r == meets_difficulty(h@, difficulty as nat),
{
    let len = h.unicode_len();
    if difficulty > len {
        return false;
    }
    let mut i: usize = 0;
    while i < difficulty
        invariant
            i <= difficulty,
            difficulty <= h@.len(),
            forall|j: int| 0 <= j < i ==> h@[j] == '0',
        decreases difficulty - i,
    {
        if h.get_char(i) != '0' {
            return false;
        }
        i = i + 1;
    }
    true
}

} // verus!
