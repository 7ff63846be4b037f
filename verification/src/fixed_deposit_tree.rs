//! The builder of fixed-deposit trees: the Merkle trees that hold a mixer's
//! deposit commitments, with the Poseidon parameters they hash with.

use vstd::prelude::*;

verus! {

/// The depth of a deposit tree built without an explicit depth.
pub const DEFAULT_TREE_DEPTH: usize = 30;

/// The S-box of a Poseidon permutation.
#[derive(Clone, Copy, Debug, PartialEq, Eq)]
pub enum PoseidonSbox {
    Exponentiation3,
    Exponentiation5,
    Exponentiation17,
    Inverse,
}

/// Parameters of a Poseidon hash: its width, its numbers of full rounds at
/// the beginning and at the end, its number of partial rounds, and its S-box.
/// The round keys and the MDS matrix are generated from the width and the
/// total number of rounds, so these fields fix them; the Bulletproof
/// generators that a Poseidon instance also carries for proving are not
/// held here.
#[derive(Clone, Copy, Debug, PartialEq, Eq)]
pub struct Poseidon {
    pub width: usize,
    pub full_rounds_beginning: usize,
    pub full_rounds_end: usize,
    pub partial_rounds: usize,
    pub sbox: PoseidonSbox,
}

/// A sparse Merkle tree, by what fixes it when it is made: the Poseidon
/// parameters it hashes with and its depth.
#[derive(Clone, Copy, Debug, PartialEq, Eq)]
pub struct VanillaSparseMerkleTree {
    pub hash_params: Poseidon,
    pub depth: usize,
}

impl VanillaSparseMerkleTree {
    /// An empty tree of the given depth hashing with `hash_params`.
    pub fn new(hash_params: Poseidon, depth: usize) -> (t: Self)
        ensures
            t.hash_params == hash_params,
            t.depth == depth,
    {
        VanillaSparseMerkleTree { hash_params, depth }
    }
}

/// A deposit tree: its depth, its hash parameters and its Merkle tree.
#[derive(Clone, Copy, Debug)]
pub struct FixedDepositTree {
    pub depth: usize,
    pub hash_params: Poseidon,
    pub tree: VanillaSparseMerkleTree,
}

/// The Poseidon parameters a deposit tree gets when none are given:
/// width 6, four full rounds at each end, 57 partial rounds, inverse S-box.
pub open spec fn default_hash_params() -> Poseidon {
    Poseidon {
        width: 6,
        full_rounds_beginning: 4,
        full_rounds_end: 4,
        partial_rounds: 57,
        sbox: PoseidonSbox::Inverse,
    }
}

/// What has been set on a builder: depth, hash parameters and tree.
pub struct BuilderSettings {
    pub depth: Option<usize>,
    pub hash_params: Option<Poseidon>,
    pub tree: Option<VanillaSparseMerkleTree>,
}

/// Collects the optional parts of a deposit tree; `build` fills in the rest.
pub struct FixedDepositTreeBuilder {
    depth: Option<usize>,
    hash_params: Option<Poseidon>,
    tree: Option<VanillaSparseMerkleTree>,
}

impl View for FixedDepositTreeBuilder {
    type V = BuilderSettings;

    closed spec fn view(&self) -> BuilderSettings {
        BuilderSettings { depth: self.depth, hash_params: self.hash_params, tree: self.tree }
    }
}

/// The deposit tree that a builder with these settings builds: the depth
/// and hash parameters given, or the defaults; the tree given, or an empty
/// tree of that depth hashing with those parameters.
pub open spec fn built_tree(s: BuilderSettings) -> FixedDepositTree {
    let depth = match s.depth {
        Some(d) => d,
        None => DEFAULT_TREE_DEPTH,
    };
    let hash_params = match s.hash_params {
        Some(h) => h,
        None => default_hash_params(),
    };
    let tree = match s.tree {
        Some(t) => t,
        None => VanillaSparseMerkleTree { hash_params, depth },
    };
    FixedDepositTree { depth, hash_params, tree }
}

impl FixedDepositTreeBuilder {
    /// A builder with nothing set.
    pub fn new() -> (b: Self)
        ensures
            b@.depth is None,
            b@.hash_params is None,
            b@.tree is None,
    {
        Self { depth: None, hash_params: None, tree: None }
    }

    /// Sets the depth; the other settings stay.
    pub fn depth(&mut self, depth: usize) -> (r: &mut Self)
        ensures
            (*r)@.depth == Some(depth),
            (*r)@.hash_params == old(self)@.hash_params,
            (*r)@.tree == old(self)@.tree,
            *final(self) == *final(r),
    {
        self.depth = Some(depth);
        self
    }

    /// Sets the hash parameters; the other settings stay.
    pub fn hash_params(&mut self, hash_params: Poseidon) -> (r: &mut Self)
        ensures
            (*r)@.depth == old(self)@.depth,
            (*r)@.hash_params == Some(hash_params),
            (*r)@.tree == old(self)@.tree,
            *final(self) == *final(r),
    {
        self.hash_params = Some(hash_params);
        self
    }

    /// Sets the Merkle tree; the other settings stay.
    pub fn merkle_tree(&mut self, tree: VanillaSparseMerkleTree) -> (r: &mut Self)
        ensures
            (*r)@.depth == old(self)@.depth,
            (*r)@.hash_params == old(self)@.hash_params,
            (*r)@.tree == Some(tree),
            *final(self) == *final(r),
    {
        self.tree = Some(tree);
        self
    }

    /// Builds the deposit tree, filling in what was not set: the default
    /// depth, the default Poseidon parameters, and an empty tree of that
    /// depth hashing with those parameters.
    pub fn build(&self) -> (t: FixedDepositTree)
        ensures
            t == built_tree(self@),
    {
        let depth = match self.depth {
            Some(d) => d,
            None => DEFAULT_TREE_DEPTH,
        };
        let hash_params = match self.hash_params {
            Some(h) => h,
            None => {
                let width: usize = 6;
                let (full_b, full_e): (usize, usize) = (4, 4);
                let partial_rounds: usize = 57;
                Poseidon {
                    width,
                    full_rounds_beginning: full_b,
                    full_rounds_end: full_e,
                    partial_rounds,
                    sbox: PoseidonSbox::Inverse,
                }
            },
        };
        let tree = match self.tree {
            Some(t) => t,
            None => VanillaSparseMerkleTree::new(hash_params, depth),
        };
        FixedDepositTree { depth, hash_params, tree }
    }
}


/// A built deposit tree keeps what was set and fills in the rest: a given
/// depth, hash parameters or tree is used as given; without a tree, the
/// Merkle tree is made with the deposit tree's own depth and hash
/// parameters, so the two always agree.
pub proof fn lemma_built_tree_settings(s: BuilderSettings)
    ensures
        s.depth matches Some(d) ==> built_tree(s).depth == d,
        s.depth is None ==> built_tree(s).depth == DEFAULT_TREE_DEPTH,
        s.hash_params matches Some(h) ==> built_tree(s).hash_params == h,
        s.hash_params is None ==> built_tree(s).hash_params == default_hash_params(),
        s.tree matches Some(t) ==> built_tree(s).tree == t,
        s.tree is None ==> built_tree(s).tree.depth == built_tree(s).depth
            && built_tree(s).tree.hash_params == built_tree(s).hash_params,
{
}

} // verus!
