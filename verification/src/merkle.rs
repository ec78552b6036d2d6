//! The note-commitment Merkle tree of depth 32: Pedersen node hashes
//! with a per-level personalization, empty-subtree roots grown from the
//! uncommitted leaf, incremental witnesses and their paths.

use vstd::prelude::*;
use crate::bytes::bits_of_bytes;
use crate::curve::{FrBytes, pt_u};
use crate::params::SaplingParams;
use crate::pedersen::{spec_pedersen, pedersen_hash};

verus! {

/// The six personalization bits of a node hash at a level: the level,
/// least significant bit first.
pub open spec fn merkle_pers_bits(depth: u8) -> Seq<bool> {
    seq![
        depth & 1 != 0,
        (depth >> 1) & 1 != 0,
        (depth >> 2) & 1 != 0,
        (depth >> 3) & 1 != 0,
        (depth >> 4) & 1 != 0,
        (depth >> 5) & 1 != 0,
    ]
}

/// The 255 bits of a field element's encoding.
pub open spec fn fr_bits(x: Seq<u8>) -> Seq<bool> {
    bits_of_bytes(x).take(255)
}

/// The node hash at a level: the u-coordinate of the Pedersen hash of
/// the personalization bits and both children's bits.
pub open spec fn spec_merkle_hash(depth: u8, l: Seq<u8>, r: Seq<u8>) -> Seq<u8> {
    pt_u(spec_pedersen(merkle_pers_bits(depth) + fr_bits(l) + fr_bits(r)))
}

/// Hashes two nodes at a level.
pub fn merkle_hash(params: &SaplingParams, depth: u8, l: &FrBytes, r: &FrBytes) -> (res: FrBytes)
    ensures
        res@ == spec_merkle_hash(depth, l@, r@),
{
    let mut bits: Vec<bool> = Vec::new();
    bits.push(depth & 1 != 0);
    bits.push((depth >> 1) & 1 != 0);
    bits.push((depth >> 2) & 1 != 0);
    bits.push((depth >> 3) & 1 != 0);
    bits.push((depth >> 4) & 1 != 0);
    bits.push((depth >> 5) & 1 != 0);
    crate::bytes::push_bits(&mut bits, l.as_bytes());
    match bits.pop() {
        Some(_) => {},
        None => vstd::pervasive::unreached(),
    }
    proof {
        assert(bits@ =~= merkle_pers_bits(depth) + fr_bits(l@));
    }
    crate::bytes::push_bits(&mut bits, r.as_bytes());
    match bits.pop() {
        Some(_) => {},
        None => vstd::pervasive::unreached(),
    }
    proof {
        assert(bits@ =~= merkle_pers_bits(depth) + fr_bits(l@) + fr_bits(r@));
    }
    crate::curve::point_u(&pedersen_hash(params, &bits))
}

/// The root of an empty subtree of a height: the uncommitted leaf at
/// height zero, then each level hashing two copies of the one below.
pub open spec fn spec_empty_root(height: int) -> Seq<u8>
    decreases height,
{
    if height <= 0 {
        seq![1u8] + Seq::<u8>::new(31, |i: int| 0u8)
    } else {
        spec_merkle_hash(
            (height - 1) as u8,
            spec_empty_root(height - 1),
            spec_empty_root(height - 1),
        )
    }
}

/// One level up: nodes paired left to right, a missing right sibling
/// read as the empty root of the level.
pub open spec fn spec_level_up(level: Seq<Seq<u8>>, depth: int) -> Seq<Seq<u8>> {
    Seq::new(
        ((level.len() + 1) / 2) as nat,
        |i: int|
            spec_merkle_hash(
                depth as u8,
                level[2 * i],
                if 2 * i + 1 < level.len() {
                    level[2 * i + 1]
                } else {
                    spec_empty_root(depth)
                },
            ),
    )
}

/// The root over a level at a depth.
pub open spec fn spec_root_from(level: Seq<Seq<u8>>, depth: int) -> Seq<u8>
    decreases 32 - depth,
{
    if depth >= 32 {
        level[0]
    } else {
        spec_root_from(spec_level_up(level, depth), depth + 1)
    }
}

/// The root of the tree holding some leaves.
pub open spec fn spec_tree_root(leaves: Seq<Seq<u8>>) -> Seq<u8> {
    if leaves.len() == 0 {
        spec_empty_root(32)
    } else {
        spec_root_from(leaves, 0)
    }
}

/// The nodes of level `d` over some leaves: the leaves at level zero,
/// each higher level the pairing of the one below.
pub open spec fn spec_level_nodes(leaves: Seq<Seq<u8>>, d: int) -> Seq<Seq<u8>>
    decreases d,
{
    if d <= 0 {
        leaves
    } else {
        spec_level_up(spec_level_nodes(leaves, d - 1), d - 1)
    }
}

/// The witnessed node's index at a level: halved once per level.
pub open spec fn spec_pos_at(position: int, d: int) -> int
    decreases d,
{
    if d <= 0 {
        position
    } else {
        spec_pos_at(position, d - 1) / 2
    }
}

/// The authentication sibling at a level: the node beside the witnessed
/// one, or the empty root of the level when the tree has none there.
pub open spec fn spec_auth_sibling(leaves: Seq<Seq<u8>>, position: int, l: int) -> Seq<u8> {
    let nodes = spec_level_nodes(leaves, l);
    let idx = spec_pos_at(position, l);
    let s = if idx % 2 == 0 {
        idx + 1
    } else {
        idx - 1
    };
    if 0 <= s < nodes.len() {
        nodes[s]
    } else {
        spec_empty_root(l)
    }
}

/// The views of a vector of nodes.
pub open spec fn views_of(v: Seq<FrBytes>) -> Seq<Seq<u8>> {
    Seq::new(v.len(), |i: int| v[i]@)
}

/// How many nodes a level can hold after `d` pairings of a full bottom
/// level.
pub open spec fn level_cap(d: int) -> int
    decreases d,
{
    if d <= 0 {
        0xffff_fffe
    } else {
        (level_cap(d - 1) + 1) / 2
    }
}

/// Thirty-two pairings of a full bottom level leave one node.
proof fn lemma_level_cap_32()
    ensures
        level_cap(32) == 1,
{
    assert(level_cap(1) == (level_cap(0) + 1) / 2);
    assert(level_cap(2) == (level_cap(1) + 1) / 2);
    assert(level_cap(3) == (level_cap(2) + 1) / 2);
    assert(level_cap(4) == (level_cap(3) + 1) / 2);
    assert(level_cap(5) == (level_cap(4) + 1) / 2);
    assert(level_cap(6) == (level_cap(5) + 1) / 2);
    assert(level_cap(7) == (level_cap(6) + 1) / 2);
    assert(level_cap(8) == (level_cap(7) + 1) / 2);
    assert(level_cap(9) == (level_cap(8) + 1) / 2);
    assert(level_cap(10) == (level_cap(9) + 1) / 2);
    assert(level_cap(11) == (level_cap(10) + 1) / 2);
    assert(level_cap(12) == (level_cap(11) + 1) / 2);
    assert(level_cap(13) == (level_cap(12) + 1) / 2);
    assert(level_cap(14) == (level_cap(13) + 1) / 2);
    assert(level_cap(15) == (level_cap(14) + 1) / 2);
    assert(level_cap(16) == (level_cap(15) + 1) / 2);
    assert(level_cap(17) == (level_cap(16) + 1) / 2);
    assert(level_cap(18) == (level_cap(17) + 1) / 2);
    assert(level_cap(19) == (level_cap(18) + 1) / 2);
    assert(level_cap(20) == (level_cap(19) + 1) / 2);
    assert(level_cap(21) == (level_cap(20) + 1) / 2);
    assert(level_cap(22) == (level_cap(21) + 1) / 2);
    assert(level_cap(23) == (level_cap(22) + 1) / 2);
    assert(level_cap(24) == (level_cap(23) + 1) / 2);
    assert(level_cap(25) == (level_cap(24) + 1) / 2);
    assert(level_cap(26) == (level_cap(25) + 1) / 2);
    assert(level_cap(27) == (level_cap(26) + 1) / 2);
    assert(level_cap(28) == (level_cap(27) + 1) / 2);
    assert(level_cap(29) == (level_cap(28) + 1) / 2);
    assert(level_cap(30) == (level_cap(29) + 1) / 2);
    assert(level_cap(31) == (level_cap(30) + 1) / 2);
    assert(level_cap(32) == (level_cap(31) + 1) / 2);
}

/// Appending a node appends its view.
proof fn lemma_views_push(v: Seq<FrBytes>, x: FrBytes)
    ensures
        views_of(v.push(x)) == views_of(v).push(x@),
{
    assert(views_of(v.push(x)) =~= views_of(v).push(x@));
}

/// One more element of a prefix.
proof fn lemma_take_push(s: Seq<Seq<u8>>, i: int)
    requires
        0 <= i < s.len(),
    ensures
        s.take(i + 1) == s.take(i).push(s[i]),
{
    assert(s.take(i + 1) =~= s.take(i).push(s[i]));
}

/// Copies a vector of nodes.
fn clone_nodes(v: &Vec<FrBytes>) -> (r: Vec<FrBytes>)
    ensures
        views_of(r@) == views_of(v@),
        r@.len() == v@.len(),
{
    let mut r: Vec<FrBytes> = Vec::new();
    let n = v.len();
    let mut i: usize = 0;
    while i < n
        invariant
            n == v@.len(),
            i <= n,
            r@.len() == i,
            views_of(r@) == views_of(v@).take(i as int),
        decreases n - i,
    {
        let c = v[i].clone();
        let ghost cg = c;
        let ghost pre = r@;
        r.push(c);
        proof {
            lemma_views_push(pre, cg);
            lemma_take_push(views_of(v@), i as int);
            assert(views_of(v@)[i as int] == v@[i as int]@);
        }
        i = i + 1;
    }
    proof {
        assert(views_of(v@).take(n as int) =~= views_of(v@));
    }
    r
}

/// Computes the root over the given nodes.
fn root_of_leaves(params: &SaplingParams, leaves: &Vec<FrBytes>) -> (r: FrBytes)
    requires
        1 <= leaves@.len() <= 0xffff_fffe,
    ensures
        r@ == spec_root_from(views_of(leaves@), 0),
{
    let mut cur: Vec<FrBytes> = clone_nodes(leaves);
    let mut empty = crate::curve::FrBytes::one();
    let mut depth: usize = 0;
    while depth < 32
        invariant
            1 <= cur@.len() <= level_cap(depth as int),
            depth <= 32,
            empty@ == spec_empty_root(depth as int),
            spec_root_from(views_of(leaves@), 0) == spec_root_from(views_of(cur@), depth as int),
        decreases 32 - depth,
    {
        proof {
            lemma_level_cap_bound(depth as int);
        }
        let next = level_up(params, &cur, depth, &empty);
        empty = merkle_hash(params, depth as u8, &empty, &empty);
        cur = next;
        depth = depth + 1;
    }
    proof {
        lemma_level_cap_32();
    }
    let ghost old_cur = cur@;
    let r = match cur.pop() {
        Some(x) => x,
        None => vstd::pervasive::unreached(),
    };
    proof {
        assert(old_cur =~= cur@.push(r));
        assert(views_of(old_cur)[0] == old_cur[0]@);
    }
    r
}

/// The level caps stay within the bottom cap.
proof fn lemma_level_cap_bound(d: int)
    requires
        0 <= d,
    ensures
        level_cap(d + 1) <= level_cap(d),
        level_cap(d) <= 0xffff_fffe,
    decreases d,
{
    if d > 0 {
        lemma_level_cap_bound(d - 1);
    }
}

/// Hashes one level into the next, a missing right sibling read as the
/// empty root of the level.
fn level_up(params: &SaplingParams, cur: &Vec<FrBytes>, depth: usize, empty: &FrBytes) -> (r: Vec<
    FrBytes,
>)
    requires
        1 <= cur@.len() <= 0xffff_fffe,
        depth < 32,
        empty@ == spec_empty_root(depth as int),
    ensures
        views_of(r@) == spec_level_up(views_of(cur@), depth as int),
        r@.len() == (cur@.len() + 1) / 2,
{
    let mut next: Vec<FrBytes> = Vec::new();
    let len = cur.len();
    let mut j: usize = 0;
    while j < len
        invariant
            len == cur@.len(),
            1 <= len <= 0xffff_fffe,
            depth < 32,
            empty@ == spec_empty_root(depth as int),
            j % 2 == 0,
            j <= len + 1,
            next@.len() == j / 2,
            views_of(next@) == spec_level_up(views_of(cur@), depth as int).take((j / 2) as int),
        decreases len + 1 - j,
    {
        let l = &cur[j];
        let h = if j + 1 < len {
            merkle_hash(params, depth as u8, l, &cur[j + 1])
        } else {
            merkle_hash(params, depth as u8, l, &empty)
        };
        let ghost hg = h;
        let ghost pre = next@;
        next.push(h);
        proof {
            lemma_views_push(pre, hg);
            lemma_take_push(spec_level_up(views_of(cur@), depth as int), (j / 2) as int);
            assert(spec_level_up(views_of(cur@), depth as int)[(j / 2) as int]
                == spec_merkle_hash(
                depth as u8,
                views_of(cur@)[2 * ((j / 2) as int)],
                if 2 * ((j / 2) as int) + 1 < views_of(cur@).len() {
                    views_of(cur@)[2 * ((j / 2) as int) + 1]
                } else {
                    spec_empty_root(depth as int)
                },
            ));
            assert(views_of(cur@)[j as int] == cur@[j as int]@);
            if j + 1 < len {
                assert(views_of(cur@)[j + 1] == cur@[j + 1]@);
            }
        }
        j = j + 2;
    }
    proof {
        assert(spec_level_up(views_of(cur@), depth as int).take(((len + 1) / 2) as int)
            =~= spec_level_up(views_of(cur@), depth as int));
    }
    next
}

/// An append-only note-commitment tree.
pub struct CommitmentTree {
    leaves: Vec<FrBytes>,
}

impl CommitmentTree {
    #[verifier::type_invariant]
    spec fn type_inv(self) -> bool {
        self.leaves@.len() <= 0xffff_fffe
    }

    /// Which leaves the tree holds.
    pub closed spec fn leaves_of(self) -> Seq<Seq<u8>> {
        views_of(self.leaves@)
    }

    /// The empty tree.
    pub fn new() -> (r: CommitmentTree)
        ensures
            r.leaves_of() == Seq::<Seq<u8>>::empty(),
    {
        let r = CommitmentTree { leaves: Vec::new() };
        proof {
            assert(r.leaves_of() =~= Seq::<Seq<u8>>::empty());
        }
        r
    }

    /// Appends a commitment; fails only when the tree is full.
    pub fn append(&mut self, cm: FrBytes) -> (r: Result<(), ()>)
        ensures
            match r {
                Ok(()) => old(self).leaves_of().len() < 0xffff_fffe && (*final(self)).leaves_of()
                    == old(self).leaves_of().push(cm@),
                Err(()) => old(self).leaves_of().len() >= 0xffff_fffe && *final(self) == *old(self),
            },
    {
        proof {
            use_type_invariant(&*self);
        }
        if self.leaves.len() >= 0xffff_fffe {
            return Err(());
        }
        let ghost pre = self.leaves_of();
        let mut leaves = clone_nodes(&self.leaves);
        let ghost cg = cm;
        let ghost lpre = leaves@;
        leaves.push(cm);
        proof {
            lemma_views_push(lpre, cg);
        }
        *self = CommitmentTree { leaves };
        Ok(())
    }

    /// The current root.
    pub fn root(&self, params: &SaplingParams) -> (r: FrBytes)
        ensures
            r@ == spec_tree_root(self.leaves_of()),
    {
        proof {
            use_type_invariant(self);
        }
        if self.leaves.len() == 0 {
            let mut empty = crate::curve::FrBytes::one();
            let mut depth: usize = 0;
            while depth < 32
                invariant
                    depth <= 32,
                    empty@ == spec_empty_root(depth as int),
                decreases 32 - depth,
            {
                empty = merkle_hash(params, depth as u8, &empty, &empty);
                depth = depth + 1;
            }
            empty
        } else {
            root_of_leaves(params, &self.leaves)
        }
    }
}

impl Clone for CommitmentTree {
    fn clone(&self) -> (r: Self)
        ensures
            r.leaves_of() == self.leaves_of(),
    {
        proof {
            use_type_invariant(self);
        }
        CommitmentTree { leaves: clone_nodes(&self.leaves) }
    }
}

/// A realized Merkle path: one sibling per level, bottom up, and the
/// leaf's position.
pub struct MerklePath {
    auth: Vec<FrBytes>,
    position: u64,
}

impl MerklePath {
    #[verifier::type_invariant]
    spec fn type_inv(self) -> bool {
        self.auth@.len() == 32
    }

    /// The sibling views, bottom up; always 32 of them.
    pub closed spec fn auth_of(self) -> Seq<Seq<u8>> {
        views_of(self.auth@)
    }

    /// The witnessed position.
    pub closed spec fn position_of(self) -> u64 {
        self.position
    }

    /// The leaf position this path belongs to.
    pub fn position(&self) -> (r: u64)
        ensures
            r == self.position_of(),
    {
        self.position
    }

    /// The sibling at a level.
    pub fn sibling(&self, level: usize) -> (r: &FrBytes)
        requires
            level < 32,
        ensures
            r@ == self.auth_of()[level as int],
    {
        proof {
            use_type_invariant(self);
        }
        &self.auth[level]
    }

    /// The number of levels: the tree depth.
    pub fn len(&self) -> (r: usize)
        ensures
            r == 32,
            self.auth_of().len() == 32,
    {
        proof {
            use_type_invariant(self);
        }
        self.auth.len()
    }
}

impl Clone for MerklePath {
    fn clone(&self) -> (r: Self)
        ensures
            r.auth_of() == self.auth_of(),
            r.position_of() == self.position_of(),
    {
        proof {
            use_type_invariant(self);
        }
        MerklePath { auth: clone_nodes(&self.auth), position: self.position }
    }
}

/// A witness to the last leaf appended when it was taken, extendable
/// with the leaves that arrive later.
pub struct IncrementalWitness {
    leaves: Vec<FrBytes>,
    position: usize,
}

impl IncrementalWitness {
    /// Which leaves the witnessed tree holds.
    pub closed spec fn leaves_of(self) -> Seq<Seq<u8>> {
        views_of(self.leaves@)
    }

    /// The witnessed position.
    pub closed spec fn position_of(self) -> int {
        self.position as int
    }

    #[verifier::type_invariant]
    spec fn type_inv(self) -> bool {
        self.position < self.leaves@.len() <= 0xffff_fffe
    }

    /// A witness to the last leaf of a non-empty tree.
    pub fn from_tree(tree: &CommitmentTree) -> (r: Option<IncrementalWitness>)
        ensures
            match r {
                Some(w) => tree.leaves_of().len() > 0 && w.leaves_of() == tree.leaves_of()
                    && w.position_of() == tree.leaves_of().len() - 1,
                None => tree.leaves_of().len() == 0,
            },
    {
        let t = tree.clone();
        proof {
            use_type_invariant(&t);
        }
        if t.leaves.len() == 0 {
            return None;
        }
        let position = t.leaves.len() - 1;
        Some(IncrementalWitness { leaves: t.leaves, position })
    }

    /// Notes a later leaf; fails only when the tree is full.
    pub fn append(&mut self, cm: FrBytes) -> (r: Result<(), ()>)
        ensures
            match r {
                Ok(()) => old(self).leaves_of().len() < 0xffff_fffe && (*final(self)).leaves_of()
                    == old(self).leaves_of().push(cm@) && (*final(self)).position_of() == old(
                    self,
                ).position_of(),
                Err(()) => old(self).leaves_of().len() >= 0xffff_fffe && *final(self) == *old(self),
            },
    {
        proof {
            use_type_invariant(&*self);
        }
        if self.leaves.len() >= 0xffff_fffe {
            return Err(());
        }
        let ghost pre = self.leaves_of();
        let mut leaves = clone_nodes(&self.leaves);
        let ghost cg = cm;
        let ghost lpre = leaves@;
        leaves.push(cm);
        let position = self.position;
        proof {
            lemma_views_push(lpre, cg);
        }
        *self = IncrementalWitness { leaves, position };
        Ok(())
    }

    /// The root the witness attests to: the root of all leaves seen.
    pub fn root(&self, params: &SaplingParams) -> (r: FrBytes)
        ensures
            r@ == spec_tree_root(self.leaves_of()),
    {
        proof {
            use_type_invariant(self);
        }
        root_of_leaves(params, &self.leaves)
    }

    /// Realizes the authentication path of the witnessed position: at
    /// every level, the sibling of the node above the witnessed leaf,
    /// missing subtrees read as empty roots.
    pub fn path(&self, params: &SaplingParams) -> (r: MerklePath)
        ensures
            r.auth_of().len() == 32,
            r.position_of() == self.position_of(),
            forall|l: int|
                0 <= l < 32 ==> r.auth_of()[l] == spec_auth_sibling(
                    self.leaves_of(),
                    self.position_of(),
                    l,
                ),
    {
        proof {
            use_type_invariant(self);
        }
        let ghost leaves_v = self.leaves_of();
        let ghost pos_v = self.position_of();
        let mut cur: Vec<FrBytes> = clone_nodes(&self.leaves);
        let mut auth: Vec<FrBytes> = Vec::new();
        let mut empty = crate::curve::FrBytes::one();
        let mut idx: usize = self.position;
        let mut depth: usize = 0;
        while depth < 32
            invariant
                depth <= 32,
                auth@.len() == depth,
                1 <= cur@.len() <= level_cap(depth as int),
                idx < cur@.len(),
                views_of(cur@) == spec_level_nodes(leaves_v, depth as int),
                idx == spec_pos_at(pos_v, depth as int),
                empty@ == spec_empty_root(depth as int),
                forall|l: int|
                    0 <= l < depth ==> views_of(auth@)[l] == spec_auth_sibling(leaves_v, pos_v, l),
            decreases 32 - depth,
        {
            let len = cur.len();
            let sib_idx = if idx % 2 == 0 {
                idx + 1
            } else {
                idx - 1
            };
            let sib = if sib_idx < len {
                let s = cur[sib_idx].clone();
                proof {
                    assert(views_of(cur@)[sib_idx as int] == cur@[sib_idx as int]@);
                }
                s
            } else {
                empty.clone()
            };
            proof {
                assert(sib@ == spec_auth_sibling(leaves_v, pos_v, depth as int));
            }
            let ghost sib_g = sib;
            let ghost auth_pre = auth@;
            auth.push(sib);
            proof {
                lemma_views_push(auth_pre, sib_g);
                lemma_level_cap_bound(depth as int);
            }
            let next = level_up(params, &cur, depth, &empty);
            empty = merkle_hash(params, depth as u8, &empty, &empty);
            cur = next;
            idx = idx / 2;
            depth = depth + 1;
        }
        MerklePath { auth, position: self.position as u64 }
    }
}

impl Clone for IncrementalWitness {
    fn clone(&self) -> (r: Self)
        ensures
            r.leaves_of() == self.leaves_of(),
            r.position_of() == self.position_of(),
    {
        proof {
            use_type_invariant(self);
        }
        IncrementalWitness { leaves: clone_nodes(&self.leaves), position: self.position }
    }
}

} // verus!
