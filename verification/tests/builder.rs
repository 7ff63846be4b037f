use pallet_mixer::fixed_deposit_tree::{
    FixedDepositTreeBuilder, Poseidon, PoseidonSbox, VanillaSparseMerkleTree, DEFAULT_TREE_DEPTH,
};

fn default_params() -> Poseidon {
    Poseidon {
        width: 6,
        full_rounds_beginning: 4,
        full_rounds_end: 4,
        partial_rounds: 57,
        sbox: PoseidonSbox::Inverse,
    }
}

#[test]
fn build_with_nothing_set_uses_defaults() {
    let tree = FixedDepositTreeBuilder::new().build();
    assert_eq!(tree.depth, DEFAULT_TREE_DEPTH);
    assert_eq!(tree.depth, 30);
    assert_eq!(tree.hash_params, default_params());
    assert_eq!(tree.tree, VanillaSparseMerkleTree::new(default_params(), 30));
}

#[test]
fn build_uses_given_depth_and_hash_params() {
    let params = Poseidon {
        width: 3,
        full_rounds_beginning: 8,
        full_rounds_end: 8,
        partial_rounds: 20,
        sbox: PoseidonSbox::Exponentiation5,
    };
    let tree = FixedDepositTreeBuilder::new().hash_params(params).depth(32).build();
    assert_eq!(tree.depth, 32);
    assert_eq!(tree.hash_params, params);
    assert_eq!(tree.tree.depth, 32);
    assert_eq!(tree.tree.hash_params, params);
}

#[test]
fn build_uses_given_tree() {
    let params = Poseidon {
        width: 5,
        full_rounds_beginning: 4,
        full_rounds_end: 4,
        partial_rounds: 40,
        sbox: PoseidonSbox::Exponentiation17,
    };
    let given = VanillaSparseMerkleTree::new(params, 10);
    let mut builder = FixedDepositTreeBuilder::new();
    builder.merkle_tree(given);
    builder.depth(16);
    let tree = builder.build();
    assert_eq!(tree.depth, 16);
    assert_eq!(tree.hash_params, default_params());
    assert_eq!(tree.tree, given);
    // building again gives the same tree
    let again = builder.build();
    assert_eq!(again.tree, tree.tree);
    assert_eq!(again.depth, tree.depth);
}

#[test]
fn later_setting_overrides_earlier() {
    let tree = FixedDepositTreeBuilder::new().depth(8).depth(12).build();
    assert_eq!(tree.depth, 12);
    assert_eq!(tree.tree.depth, 12);
}
