use vstd::prelude::*;
use vstd::arithmetic::power2::{pow2, lemma2_to64};
use crate::b256::B256;
use crate::errors::MiningError;
use crate::hashing::{spec_node_hash, node_hash};

verus! {

/// Number of levels above the leaves; the tree holds at most 2^32 leaves.
pub const TREE_HEIGHT: u32 = 32;

/// Maximum number of leaves the tree accepts.
pub const TREE_CAPACITY: u64 = 0x1_0000_0000;

/// The hash of an all-zero subtree of height `h`.
pub open spec fn spec_zero_at(h: nat) -> B256
    decreases h,
{
    if h == 0 {
        B256 { w0: 0, w1: 0, w2: 0, w3: 0 }
    } else {
        spec_node_hash(spec_zero_at((h - 1) as nat), spec_zero_at((h - 1) as nat))
    }
}

/// The nodes one level up from the level-`h` nodes `level`: adjacent nodes are
/// paired, and an odd node at the end is paired with the zero subtree.
pub open spec fn spec_next_level(level: Seq<B256>, h: nat) -> Seq<B256> {
    Seq::new(
        ((level.len() + 1) / 2) as nat,
        |j: int|
            spec_node_hash(
                level[2 * j],
                if 2 * j + 1 < level.len() {
                    level[2 * j + 1]
                } else {
                    spec_zero_at(h)
                },
            ),
    )
}

/// The root obtained from the level-`h` nodes `level` by hashing upward to
/// height `top`, completing every level with zero subtrees.
pub open spec fn spec_level_root(level: Seq<B256>, h: nat, top: nat) -> B256
    decreases top - h,
    when h <= top
{
    if h >= top {
        if level.len() == 0 {
            spec_zero_at(top)
        } else {
            level[0]
        }
    } else {
        spec_level_root(spec_next_level(level, h), h + 1, top)
    }
}

/// The authenticated root: a pure function of the ordered leaf sequence.
pub open spec fn spec_root(leaves: Seq<B256>) -> B256 {
    spec_level_root(leaves, 0, TREE_HEIGHT as nat)
}

/// The level-`h` nodes of the tree over `leaves`.
pub open spec fn spec_level_at(leaves: Seq<B256>, h: nat) -> Seq<B256>
    decreases h,
{
    if h == 0 {
        leaves
    } else {
        spec_next_level(spec_level_at(leaves, (h - 1) as nat), (h - 1) as nat)
    }
}

/// Hashing upward from level `h` of the tree over `leaves` reaches the root.
proof fn lemma_level_root_at(leaves: Seq<B256>, h: nat)
    requires
        h <= TREE_HEIGHT as nat,
    ensures
        spec_level_root(spec_level_at(leaves, h), h, TREE_HEIGHT as nat) == spec_root(leaves),
    decreases h,
{
    if h > 0 {
        lemma_level_root_at(leaves, (h - 1) as nat);
    }
}

/// A level of at most 2^(top-h) nodes shrinks to at most 2^(top-h-1).
proof fn lemma_next_level_len(level: Seq<B256>, h: nat, top: nat)
    requires
        h < top,
        level.len() <= pow2((top - h) as nat),
    ensures
        spec_next_level(level, h).len() <= pow2((top - h - 1) as nat),
{
    vstd::arithmetic::power2::lemma_pow2_unfold((top - h) as nat);
}

/// A membership proof: the sibling hashes on the path from a leaf to the
/// root, bottom level first.
pub struct MerkleProof {
    pub siblings: Vec<B256>,
}

/// The sibling path for position `i` of the level-`h` nodes `level`, read
/// bottom-up to height `top`; missing siblings are zero subtrees.
pub open spec fn spec_siblings(level: Seq<B256>, h: nat, top: nat, i: int) -> Seq<B256>
    decreases top - h,
    when h <= top
{
    if h >= top {
        Seq::empty()
    } else {
        let sib = if i % 2 == 0 {
            if i + 1 < level.len() {
                level[i + 1]
            } else {
                spec_zero_at(h)
            }
        } else {
            level[i - 1]
        };
        seq![sib] + spec_siblings(spec_next_level(level, h), h + 1, top, i / 2)
    }
}

/// Folds a leaf up a sibling path; the position's low bit decides on which
/// side the running hash stands at each level.
pub open spec fn spec_fold_path(cur: B256, i: int, path: Seq<B256>) -> B256
    decreases path.len(),
{
    if path.len() == 0 {
        cur
    } else {
        let up = if i % 2 == 0 {
            spec_node_hash(cur, path[0])
        } else {
            spec_node_hash(path[0], cur)
        };
        spec_fold_path(up, i / 2, path.drop_first())
    }
}

/// Halving a position keeps it inside the halved level.
proof fn lemma_half_lt(i: int, n: int)
    requires
        0 <= i < n,
    ensures
        0 <= i / 2 < (n + 1) / 2,
{
}

/// Folding a node up its sibling path reaches the root of its level.
proof fn lemma_fold_path_root(level: Seq<B256>, h: nat, top: nat, i: int)
    requires
        h <= top,
        0 <= i < level.len(),
        level.len() <= pow2((top - h) as nat),
    ensures
        spec_fold_path(level[i], i, spec_siblings(level, h, top, i)) == spec_level_root(
            level,
            h,
            top,
        ),
    decreases top - h,
{
    if h >= top {
        assert(pow2(0) == 1) by {
            lemma2_to64();
        }
        assert(level.len() == 1 && i == 0);
    } else {
        let nxt = spec_next_level(level, h);
        lemma_next_level_len(level, h, top);
        lemma_half_lt(i, level.len() as int);
        lemma_fold_path_root(nxt, h + 1, top, i / 2);
        let path = spec_siblings(level, h, top, i);
        let sib = if i % 2 == 0 {
            if i + 1 < level.len() {
                level[i + 1]
            } else {
                spec_zero_at(h)
            }
        } else {
            level[i - 1]
        };
        assert(path.drop_first() =~= spec_siblings(nxt, h + 1, top, i / 2));
        if i % 2 == 0 {
            assert(2 * (i / 2) == i);
            assert(nxt[i / 2] == spec_node_hash(level[i], sib));
        } else {
            assert(2 * (i / 2) == i - 1);
            assert(nxt[i / 2] == spec_node_hash(level[i - 1], level[i]));
        }
        assert(spec_fold_path(level[i], i, path) == spec_fold_path(nxt[i / 2], i / 2, path.drop_first()));
    }
}

/// A membership proof taken at any state verifies against that state's root:
/// folding leaf `i` up its sibling path yields the root of the leaves. Later
/// appends leave both the leaf and this statement about the frozen snapshot
/// unchanged.
pub proof fn lemma_proof_verifies(leaves: Seq<B256>, i: int)
    requires
        0 <= i < leaves.len(),
        leaves.len() <= TREE_CAPACITY,
    ensures
        spec_fold_path(leaves[i], i, spec_siblings(leaves, 0, TREE_HEIGHT as nat, i))
            == spec_root(leaves),
{
    lemma2_to64();
    lemma_fold_path_root(leaves, 0, TREE_HEIGHT as nat, i);
}

/// The root is a pure function of the ordered leaf sequence: two ledgers
/// holding the same leaves in the same order have the same root.
pub proof fn lemma_root_is_pure(a: Seq<B256>, b: Seq<B256>)
    requires
        a == b,
    ensures
        spec_root(a) == spec_root(b),
{
}

/// A leaf never moves once inserted: an append leaves every earlier
/// position exactly as it was.
pub proof fn lemma_append_preserves_leaves(leaves: Seq<B256>, leaf: B256, i: int)
    requires
        0 <= i < leaves.len(),
    ensures
        leaves.push(leaf)[i] == leaves[i],
{
}

/// A leaf never inserted has no index; right after the append it sits at the
/// position that was the size, and at no earlier one.
pub proof fn lemma_index_after_insert(leaves: Seq<B256>, leaf: B256)
    requires
        !leaves.contains(leaf),
    ensures
        forall|j: int| 0 <= j < leaves.len() ==> leaves[j] != leaf,
        leaves.push(leaf)[leaves.len() as int] == leaf,
        forall|j: int| 0 <= j < leaves.len() ==> leaves.push(leaf)[j] != leaf,
{
    assert forall|j: int| 0 <= j < leaves.len() implies leaves[j] != leaf by {
        if leaves[j] == leaf {
            assert(leaves.contains(leaf));
        }
    }
}

/// Checks a membership proof against a root: true exactly when the proof has
/// full height and folds the leaf at `index` up to `root`.
pub fn verify_merkle_proof(leaf: &B256, index: u64, proof: &MerkleProof, root: &B256) -> (r:
    bool)
    ensures
        r == (proof.siblings@.len() == TREE_HEIGHT as nat && spec_fold_path(
            *leaf,
            index as int,
            proof.siblings@,
        ) == *root),
{
    if proof.siblings.len() != TREE_HEIGHT as usize {
        return false;
    }
    let mut cur = *leaf;
    let mut idx = index;
    let mut h: usize = 0;
    proof {
        assert(proof.siblings@.skip(0) =~= proof.siblings@);
    }
    while h < TREE_HEIGHT as usize
        invariant
            h <= TREE_HEIGHT as usize,
            proof.siblings@.len() == TREE_HEIGHT as nat,
            spec_fold_path(*leaf, index as int, proof.siblings@) == spec_fold_path(
                cur,
                idx as int,
                proof.siblings@.skip(h as int),
            ),
        decreases TREE_HEIGHT as usize - h,
    {
        let s = proof.siblings[h];
        proof {
            assert(proof.siblings@.skip(h as int).drop_first() =~= proof.siblings@.skip(
                h as int + 1,
            ));
            assert(proof.siblings@.skip(h as int)[0] == proof.siblings@[h as int]);
        }
        let up = if idx % 2 == 0 {
            node_hash(&cur, &s)
        } else {
            node_hash(&s, &cur)
        };
        cur = up;
        idx = idx / 2;
        h += 1;
    }
    proof {
        assert(proof.siblings@.skip(TREE_HEIGHT as int) =~= Seq::<B256>::empty());
    }
    cur == *root
}

/// An append-only Merkle-indexed ledger of deposit commitments.
///
/// Leaves sit in insertion order; the root is cached and rebuilt only on
/// insert, so queries read a consistent snapshot.
pub struct DepositHashTree {
    leaves: Vec<B256>,
    cached_root: B256,
}

impl View for DepositHashTree {
    type V = Seq<B256>;

    closed spec fn view(&self) -> Seq<B256> {
        self.leaves@
    }
}

impl DepositHashTree {
    /// The cached root always matches the leaves, which never exceed capacity.
    pub closed spec fn wf(&self) -> bool {
        &&& self.cached_root == spec_root(self.leaves@)
        &&& self.leaves@.len() <= TREE_CAPACITY
    }

    /// A well-formed ledger never exceeds its capacity.
    pub proof fn lemma_wf_len(&self)
        requires
            self.wf(),
        ensures
            self@.len() <= TREE_CAPACITY,
    {
    }

    /// Creates the empty ledger.
    pub fn new() -> (t: DepositHashTree)
        ensures
            t.wf(),
            t@ == Seq::<B256>::empty(),
    {
        let leaves: Vec<B256> = Vec::new();
        let cached_root = compute_root(&leaves);
        DepositHashTree { leaves, cached_root }
    }

    /// Number of leaves inserted so far.
    pub fn size(&self) -> (n: u64)
        requires
            self.wf(),
        ensures
            n == self@.len(),
    {
        self.leaves.len() as u64
    }

    /// The current authenticated root, read from the cache.
    pub fn root(&self) -> (r: B256)
        requires
            self.wf(),
        ensures
            r == spec_root(self@),
    {
        self.cached_root
    }

    /// Appends a leaf and returns its position; the leaves already in place
    /// never move. Fails with `TreeFull` once the capacity is reached.
    pub fn insert(&mut self, leaf: B256) -> (r: Result<u64, MiningError>)
        requires
            old(self).wf(),
        ensures
            final(self).wf(),
            old(self)@.len() == TREE_CAPACITY ==> r == Err::<u64, MiningError>(
                MiningError::TreeFull,
            ) && final(self)@ == old(self)@,
            old(self)@.len() < TREE_CAPACITY ==> r == Ok::<u64, MiningError>(
                old(self)@.len() as u64,
            ) && final(self)@ == old(self)@.push(leaf),
    {
        if self.leaves.len() as u64 == TREE_CAPACITY {
            return Err(MiningError::TreeFull);
        }
        let idx = self.leaves.len() as u64;
        self.leaves.push(leaf);
        self.cached_root = compute_root(&self.leaves);
        Ok(idx)
    }

    /// The ordered leaf list, for persistence: replaying it through
    /// `rehydrate` reproduces an identical ledger, root included.
    pub fn leaves(&self) -> (r: Vec<B256>)
        requires
            self.wf(),
        ensures
            r@ == self@,
    {
        let mut out: Vec<B256> = Vec::new();
        let mut i: usize = 0;
        while i < self.leaves.len()
            invariant
                i <= self@.len(),
                self@ == self.leaves@,
                out@.len() == i,
                forall|k: int| 0 <= k < i ==> out@[k] == self@[k],
            decreases self@.len() - i,
        {
            out.push(self.leaves[i]);
            i += 1;
        }
        proof {
            assert(out@ =~= self@);
        }
        out
    }

    /// Rebuilds the ledger from a persisted leaf list, in its stored order.
    pub fn rehydrate(leaves: Vec<B256>) -> (t: DepositHashTree)
        requires
            leaves@.len() <= TREE_CAPACITY,
        ensures
            t.wf(),
            t@ == leaves@,
    {
        let cached_root = compute_root(&leaves);
        DepositHashTree { leaves, cached_root }
    }

    /// Reverse lookup: the first position holding `leaf`, or `None` when the
    /// leaf was never inserted. The soft miss is an expected outcome.
    pub fn index_of(&self, leaf: &B256) -> (r: Option<u64>)
        requires
            self.wf(),
        ensures
            match r {
                Some(i) => i < self@.len() && self@[i as int] == *leaf && (forall|j: int|
                    0 <= j < i ==> self@[j] != *leaf),
                None => forall|j: int| 0 <= j < self@.len() ==> self@[j] != *leaf,
            },
    {
        let mut i: usize = 0;
        while i < self.leaves.len()
            invariant
                i <= self@.len(),
                self@ == self.leaves@,
                forall|j: int| 0 <= j < i ==> self@[j] != *leaf,
            decreases self@.len() - i,
        {
            if self.leaves[i] == *leaf {
                return Some(i as u64);
            }
            i += 1;
        }
        None
    }

    /// The sibling path of position `index`, against the current snapshot.
    /// Fails with `IndexOutOfRange` when `index` is at or past the size.
    pub fn prove(&self, index: u64) -> (r: Result<MerkleProof, MiningError>)
        requires
            self.wf(),
        ensures
            index < self@.len() ==> (r matches Ok(p) && p.siblings@ == spec_siblings(
                self@,
                0,
                TREE_HEIGHT as nat,
                index as int,
            )),
            index >= self@.len() ==> r == Err::<MerkleProof, MiningError>(
                MiningError::IndexOutOfRange,
            ),
    {
        if index >= self.leaves.len() as u64 {
            return Err(MiningError::IndexOutOfRange);
        }
        let mut level: Vec<B256> = Vec::new();
        let mut i: usize = 0;
        while i < self.leaves.len()
            invariant
                i <= self@.len(),
                self@ == self.leaves@,
                level@.len() == i,
                forall|k: int| 0 <= k < i ==> level@[k] == self@[k],
            decreases self@.len() - i,
        {
            level.push(self.leaves[i]);
            i += 1;
        }
        proof {
            assert(level@ =~= spec_level_at(self@, 0));
        }
        let mut zero = B256::zero();
        let mut sibs: Vec<B256> = Vec::new();
        let mut idx: u64 = index;
        let mut h: u32 = 0;
        while h < TREE_HEIGHT
            invariant
                h <= TREE_HEIGHT,
                zero == spec_zero_at(h as nat),
                level@ == spec_level_at(self@, h as nat),
                idx < level@.len(),
                sibs@.len() == h,
                spec_siblings(self@, 0, TREE_HEIGHT as nat, index as int) == sibs@
                    + spec_siblings(level@, h as nat, TREE_HEIGHT as nat, idx as int),
            decreases TREE_HEIGHT - h,
        {
            let sib = if idx % 2 == 0 {
                if idx + 1 < level.len() as u64 {
                    level[(idx + 1) as usize]
                } else {
                    zero
                }
            } else {
                level[(idx - 1) as usize]
            };
            proof {
                let rest = spec_siblings(
                    spec_next_level(level@, h as nat),
                    h as nat + 1,
                    TREE_HEIGHT as nat,
                    idx as int / 2,
                );
                assert(spec_siblings(level@, h as nat, TREE_HEIGHT as nat, idx as int)
                    == seq![sib] + rest);
                assert(sibs@ + (seq![sib] + rest) =~= sibs@.push(sib) + rest);
                lemma_half_lt(idx as int, level@.len() as int);
            }
            sibs.push(sib);
            let next = next_level_exec(&level, &zero, Ghost(h as nat));
            level = next;
            zero = node_hash(&zero, &zero);
            idx = idx / 2;
            h += 1;
        }
        proof {
            assert(spec_siblings(level@, TREE_HEIGHT as nat, TREE_HEIGHT as nat, idx as int)
                =~= Seq::<B256>::empty());
            assert(sibs@ + Seq::<B256>::empty() =~= sibs@);
        }
        Ok(MerkleProof { siblings: sibs })
    }
}

/// One exec step up the tree; `zero` must be the zero subtree of the level.
fn next_level_exec(level: &Vec<B256>, zero: &B256, Ghost(h): Ghost<nat>) -> (r: Vec<B256>)
    requires
        *zero == spec_zero_at(h),
    ensures
        r@ == spec_next_level(level@, h),
{
    let n = level.len();
    let mut out: Vec<B256> = Vec::new();
    let mut j: usize = 0;
    while j < n / 2
        invariant
            *zero == spec_zero_at(h),
            j <= n / 2,
            n == level@.len(),
            out@.len() == j,
            forall|k: int| 0 <= k < j ==> out@[k] == spec_next_level(level@, h)[k],
        decreases n / 2 - j,
    {
        let parent = node_hash(&level[2 * j], &level[2 * j + 1]);
        out.push(parent);
        j += 1;
    }
    if n % 2 == 1 {
        let parent = node_hash(&level[n - 1], zero);
        out.push(parent);
    }
    proof {
        assert(out@ =~= spec_next_level(level@, h));
    }
    out
}

/// Rebuilds the root of `leaves` from scratch, level by level.
fn compute_root(leaves: &Vec<B256>) -> (r: B256)
    requires
        leaves@.len() <= TREE_CAPACITY,
    ensures
        r == spec_root(leaves@),
{
    let mut level: Vec<B256> = Vec::new();
    let mut i: usize = 0;
    while i < leaves.len()
        invariant
            i <= leaves@.len(),
            level@.len() == i,
            forall|k: int| 0 <= k < i ==> level@[k] == leaves@[k],
        decreases leaves@.len() - i,
    {
        level.push(leaves[i]);
        i += 1;
    }
    proof {
        assert(level@ =~= leaves@);
        lemma2_to64();
        assert(pow2(32) == TREE_CAPACITY);
    }
    let mut zero = B256::zero();
    let mut h: u32 = 0;
    while h < TREE_HEIGHT
        invariant
            h <= TREE_HEIGHT,
            zero == spec_zero_at(h as nat),
            level@ == spec_level_at(leaves@, h as nat),
            level@.len() <= pow2((TREE_HEIGHT - h) as nat),
        decreases TREE_HEIGHT - h,
    {
        let next = next_level_exec(&level, &zero, Ghost(h as nat));
        proof {
            lemma_next_level_len(level@, h as nat, TREE_HEIGHT as nat);
        }
        level = next;
        zero = node_hash(&zero, &zero);
        h += 1;
    }
    proof {
        lemma_level_root_at(leaves@, TREE_HEIGHT as nat);
    }
    if level.len() == 0 {
        zero
    } else {
        level[0]
    }
}

} // verus!
