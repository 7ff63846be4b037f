use std::collections::HashMap;

use pallet_mixer::pallet::{Config, Pallet};
use pallet_mixer::services::{Currency, Group, GroupInfo};
use pallet_mixer::types::{
    AccountId, Balance, BlockNumber, Commitment, DispatchError, Error, GroupId, MixerInfo, Origin,
    ScalarData,
};
use pallet_mixer::weights::{RuntimeDbWeight, Weights, WeightInfo};

const MIXER_ID: [u8; 8] = *b"webb/mix";
const BALANCES_INDEX: u8 = 1;
const GROUPS_INDEX: u8 = 2;

/// Balances of a test runtime.
struct Balances {
    free: HashMap<AccountId, Balance>,
}

impl Balances {
    fn new() -> Self {
        let mut free = HashMap::new();
        free.insert(0, 1_000_000_000);
        free.insert(1, 1_000_000_000);
        free.insert(2, 1_000_000_000);
        Balances { free }
    }
}

impl Currency for Balances {
    fn balance_of(&self, who: AccountId) -> Balance {
        self.free_balance(who)
    }

    fn transfer_result(&self, source: AccountId, _dest: AccountId, value: Balance) -> Result<(), DispatchError> {
        if self.free_balance(source) < value {
            Err(DispatchError::External { index: BALANCES_INDEX, error: 0 })
        } else {
            Ok(())
        }
    }

    fn free_balance(&self, who: AccountId) -> Balance {
        *self.free.get(&who).unwrap_or(&0)
    }

    fn transfer(&mut self, source: AccountId, dest: AccountId, value: Balance) -> Result<(), DispatchError> {
        self.transfer_result(source, dest, value)?;
        let from = self.free_balance(source);
        self.free.insert(source, from - value);
        let to = self.free_balance(dest);
        self.free.insert(dest, to + value);
        Ok(())
    }
}

/// A Merkle group of a test runtime.
struct MerkleGroup {
    leaf_count: u32,
    leaves: Vec<ScalarData>,
    manager_required: bool,
    manager: AccountId,
    depth: u8,
    stopped: bool,
    nullifiers: Vec<ScalarData>,
    cached: Vec<(BlockNumber, ScalarData)>,
}

/// The Merkle groups of a test runtime; membership proofs are accepted
/// where `accept_proofs` is set.
struct MerkleGroups {
    groups: Vec<MerkleGroup>,
    accept_proofs: bool,
    refuse_creation_after: Option<usize>,
}

impl MerkleGroups {
    fn new() -> Self {
        MerkleGroups { groups: Vec::new(), accept_proofs: true, refuse_creation_after: None }
    }

    fn get_group(&self, id: GroupId) -> Option<&MerkleGroup> {
        self.groups.get(id as usize)
    }

    fn err(error: u8) -> DispatchError {
        DispatchError::External { index: GROUPS_INDEX, error }
    }
}

impl Group for MerkleGroups {
    fn group_info(&self, id: GroupId) -> Option<GroupInfo> {
        self.get_group(id).map(|g| GroupInfo {
            manager: g.manager,
            manager_required: g.manager_required,
            depth: g.depth,
            stopped: g.stopped,
        })
    }

    fn members(&self, id: GroupId) -> Vec<ScalarData> {
        self.get_group(id).map(|g| g.leaves.clone()).unwrap_or_default()
    }

    fn nullifier_used(&self, id: GroupId, nullifier_hash: ScalarData) -> bool {
        self.get_group(id).map(|g| g.nullifiers.contains(&nullifier_hash)).unwrap_or(false)
    }

    fn cached_roots_at(&self, block: BlockNumber, id: GroupId) -> Vec<ScalarData> {
        self.cached_roots(block, id)
    }

    fn created(&self) -> Vec<GroupId> {
        (0..self.groups.len() as GroupId).collect()
    }

    fn create_group_result(&self, _sender: AccountId, _is_manager_required: bool, _depth: u8) -> Result<GroupId, DispatchError> {
        if let Some(limit) = self.refuse_creation_after {
            if self.groups.len() >= limit {
                return Err(Self::err(0));
            }
        }
        Ok(self.groups.len() as GroupId)
    }

    fn add_members_result(&self, sender: AccountId, id: GroupId, _members: Vec<ScalarData>) -> Result<(), DispatchError> {
        let g = self.get_group(id).ok_or(Self::err(1))?;
        if g.manager_required && g.manager != sender {
            return Err(Self::err(2));
        }
        Ok(())
    }

    fn set_stopped_result(&self, sender: AccountId, id: GroupId, _stopped: bool) -> Result<(), DispatchError> {
        let g = self.get_group(id).ok_or(Self::err(1))?;
        if g.manager != sender {
            return Err(Self::err(2));
        }
        Ok(())
    }

    fn nullifier_check(&self, id: GroupId, nullifier_hash: ScalarData) -> Result<(), DispatchError> {
        let g = self.get_group(id).ok_or(Self::err(1))?;
        if g.nullifiers.contains(&nullifier_hash) {
            return Err(Self::err(3));
        }
        Ok(())
    }

    fn proof_check(
        &self,
        _id: GroupId,
        _cached_block: BlockNumber,
        _cached_root: ScalarData,
        _comms: Vec<Commitment>,
        _nullifier_hash: ScalarData,
        _proof_bytes: Vec<u8>,
        _leaf_index_commitments: Vec<Commitment>,
        _proof_commitments: Vec<Commitment>,
    ) -> Result<(), DispatchError> {
        if self.accept_proofs { Ok(()) } else { Err(Self::err(4)) }
    }

    fn add_nullifier_result(&self, sender: AccountId, id: GroupId, _nullifier_hash: ScalarData) -> Result<(), DispatchError> {
        let g = self.get_group(id).ok_or(Self::err(1))?;
        if g.manager_required && g.manager != sender {
            return Err(Self::err(2));
        }
        Ok(())
    }

    fn add_root_result(&self, id: GroupId, _block: BlockNumber) -> Result<(), DispatchError> {
        self.get_group(id).ok_or(Self::err(1)).map(|_| ())
    }

    fn create_group(&mut self, sender: AccountId, is_manager_required: bool, depth: u8) -> Result<GroupId, DispatchError> {
        let id = self.create_group_result(sender, is_manager_required, depth)?;
        self.groups.push(MerkleGroup {
            leaf_count: 0,
            leaves: Vec::new(),
            manager_required: is_manager_required,
            manager: sender,
            depth,
            stopped: false,
            nullifiers: Vec::new(),
            cached: Vec::new(),
        });
        Ok(id)
    }

    fn add_members(&mut self, sender: AccountId, id: GroupId, members: Vec<ScalarData>) -> Result<(), DispatchError> {
        self.add_members_result(sender, id, members.clone())?;
        let g = &mut self.groups[id as usize];
        g.leaf_count += members.len() as u32;
        g.leaves.extend(members);
        Ok(())
    }

    fn set_stopped(&mut self, sender: AccountId, id: GroupId, stopped: bool) -> Result<(), DispatchError> {
        self.set_stopped_result(sender, id, stopped)?;
        self.groups[id as usize].stopped = stopped;
        Ok(())
    }

    fn has_used_nullifier(&self, id: GroupId, nullifier_hash: ScalarData) -> Result<(), DispatchError> {
        self.nullifier_check(id, nullifier_hash)
    }

    fn verify_zk_membership_proof(
        &self,
        id: GroupId,
        cached_block: BlockNumber,
        cached_root: ScalarData,
        comms: Vec<Commitment>,
        nullifier_hash: ScalarData,
        proof_bytes: Vec<u8>,
        leaf_index_commitments: Vec<Commitment>,
        proof_commitments: Vec<Commitment>,
    ) -> Result<(), DispatchError> {
        self.proof_check(
            id,
            cached_block,
            cached_root,
            comms,
            nullifier_hash,
            proof_bytes,
            leaf_index_commitments,
            proof_commitments,
        )
    }

    fn add_nullifier(&mut self, sender: AccountId, id: GroupId, nullifier_hash: ScalarData) -> Result<(), DispatchError> {
        self.add_nullifier_result(sender, id, nullifier_hash)?;
        self.groups[id as usize].nullifiers.push(nullifier_hash);
        Ok(())
    }

    fn stopped(&self, id: GroupId) -> bool {
        self.groups.get(id as usize).map(|g| g.stopped).unwrap_or(false)
    }

    fn cached_roots(&self, block: BlockNumber, id: GroupId) -> Vec<ScalarData> {
        match self.groups.get(id as usize) {
            Some(g) => g.cached.iter().filter(|(b, _)| *b == block).map(|(_, r)| *r).collect(),
            None => Vec::new(),
        }
    }

    fn add_root_to_cache(&mut self, id: GroupId, block: BlockNumber) -> Result<(), DispatchError> {
        self.add_root_result(id, block)?;
        let g = &mut self.groups[id as usize];
        g.cached.push((block, ScalarData([g.leaf_count as u8; 32])));
        Ok(())
    }
}

fn config() -> Config {
    Config {
        module_id: MIXER_ID,
        default_admin: 4,
        max_mixer_tree_depth: 32,
        deposit_length: 10,
        mixer_sizes: vec![1_000, 10_000, 100_000, 1_000_000],
    }
}

struct TestExt {
    mixer: Pallet,
    balances: Balances,
    groups: MerkleGroups,
}

/// The mixer's account: the module-id prefix "modl" followed by the id,
/// read as a little-endian number.
fn mixer_account() -> AccountId {
    u64::from_le_bytes(*b"modlwebb")
}

fn new_test_ext() -> TestExt {
    TestExt { mixer: Pallet::new(config()), balances: Balances::new(), groups: MerkleGroups::new() }
}

fn leaf(b: u8) -> ScalarData {
    ScalarData([b; 32])
}

fn withdraw(ext: &mut TestExt, origin: Origin, id: GroupId, nullifier: ScalarData) -> Result<(), DispatchError> {
    ext.mixer.withdraw(
        &mut ext.balances,
        &mut ext.groups,
        origin,
        id,
        0,
        leaf(0),
        vec![Commitment([1; 32])],
        nullifier,
        vec![1, 2, 3],
        vec![Commitment([2; 32])],
        vec![Commitment([3; 32])],
    )
}

#[test]
fn should_initialize_successfully() {
    let mut ext = new_test_ext();
    assert_eq!(ext.mixer.initialize(&mut ext.groups), Ok(()));
    // the mixer creates 4 groups, they should all initialise to 0
    let val = 1_000;
    for i in 0..4 {
        let g = ext.groups.get_group(i).unwrap();
        let m = ext.mixer.get_mixer(i).unwrap();
        assert_eq!(g.leaf_count, 0);
        assert_eq!(g.manager_required, true);
        assert_eq!(m.leaves.len(), 0);
        assert_eq!(m.fixed_deposit_size, val * 10_u64.pow(i))
    }
}

#[test]
fn should_fail_to_deposit_with_insufficient_balance() {
    let mut ext = new_test_ext();
    assert_eq!(ext.mixer.initialize(&mut ext.groups), Ok(()));
    for i in 0..4 {
        assert_eq!(
            ext.mixer.deposit(&mut ext.balances, &mut ext.groups, Origin::Signed(4), i, vec![leaf(i as u8)]),
            Err(DispatchError::Module(Error::InsufficientBalance))
        );
    }
}

#[test]
fn should_deposit_into_each_mixer_successfully() {
    let mut ext = new_test_ext();
    assert_eq!(ext.mixer.initialize(&mut ext.groups), Ok(()));
    for i in 0..4 {
        let balance_before = ext.balances.free_balance(1);
        assert_eq!(
            ext.mixer.deposit(&mut ext.balances, &mut ext.groups, Origin::Signed(1), i, vec![leaf(i as u8)]),
            Ok(())
        );
        let balance_after = ext.balances.free_balance(1);

        // ensure state updates
        let g = ext.groups.get_group(i).unwrap();
        let m = ext.mixer.get_mixer(i).unwrap();
        assert_eq!(balance_before, balance_after + m.fixed_deposit_size);
        assert_eq!(g.leaf_count, 1);
        assert_eq!(m.leaves.len(), 1);
        assert_eq!(ext.groups.members(i), vec![leaf(i as u8)]);
    }
}

#[test]
fn initialize_sets_admin_groups_and_flag() {
    let mut ext = new_test_ext();
    assert!(!ext.mixer.initialised());
    assert_eq!(ext.mixer.admin(), 0);
    assert_eq!(ext.mixer.initialize(&mut ext.groups), Ok(()));
    assert!(ext.mixer.initialised());
    assert_eq!(ext.mixer.admin(), 4);
    assert_eq!(ext.mixer.mixer_group_ids(), vec![0, 1, 2, 3]);
    assert_eq!(ext.groups.created(), ext.mixer.mixer_group_ids());
    for i in 0..4 {
        let g = ext.groups.get_group(i).unwrap();
        assert_eq!(g.manager, mixer_account());
        assert_eq!(g.depth, 32);
        assert_eq!(ext.mixer.mixer_groups(i).minimum_deposit_length_for_reward, 10);
        assert_eq!(ext.mixer.total_value_locked(i), 0);
    }
}

#[test]
fn initialize_twice_is_refused() {
    let mut ext = new_test_ext();
    assert_eq!(ext.mixer.initialize(&mut ext.groups), Ok(()));
    assert_eq!(
        ext.mixer.initialize(&mut ext.groups),
        Err(DispatchError::Module(Error::AlreadyInitialised))
    );
    assert_eq!(ext.groups.groups.len(), 4);
}

#[test]
fn initialize_stops_where_group_creation_fails() {
    let mut ext = new_test_ext();
    ext.groups.refuse_creation_after = Some(2);
    assert_eq!(
        ext.mixer.initialize(&mut ext.groups),
        Err(DispatchError::External { index: GROUPS_INDEX, error: 0 })
    );
    assert!(!ext.mixer.initialised());
    assert_eq!(ext.mixer.admin(), 4);
    assert_eq!(ext.mixer.mixer_group_ids(), Vec::<GroupId>::new());
    assert_eq!(ext.mixer.mixer_groups(0).fixed_deposit_size, 1_000);
    assert_eq!(ext.mixer.mixer_groups(1).fixed_deposit_size, 10_000);
    assert_eq!(ext.mixer.mixer_groups(2).fixed_deposit_size, 0);
}

#[test]
fn deposit_refused_before_initialisation_and_when_unsigned() {
    let mut ext = new_test_ext();
    assert_eq!(
        ext.mixer.deposit(&mut ext.balances, &mut ext.groups, Origin::Signed(1), 0, vec![leaf(1)]),
        Err(DispatchError::Module(Error::NotInitialised))
    );
    assert_eq!(
        ext.mixer.deposit(&mut ext.balances, &mut ext.groups, Origin::Unsigned, 0, vec![leaf(1)]),
        Err(DispatchError::BadOrigin)
    );
    assert_eq!(
        ext.mixer.deposit(&mut ext.balances, &mut ext.groups, Origin::Root, 0, vec![leaf(1)]),
        Err(DispatchError::BadOrigin)
    );
}

#[test]
fn deposit_into_unknown_mixer_is_refused() {
    let mut ext = new_test_ext();
    assert_eq!(ext.mixer.initialize(&mut ext.groups), Ok(()));
    assert_eq!(
        ext.mixer.deposit(&mut ext.balances, &mut ext.groups, Origin::Signed(1), 9, vec![leaf(1)]),
        Err(DispatchError::Module(Error::NoMixerForId))
    );
    assert_eq!(ext.mixer.get_mixer(9).err(), Some(DispatchError::Module(Error::NoMixerForId)));
}

#[test]
fn deposit_of_several_leaves_locks_size_per_leaf() {
    let mut ext = new_test_ext();
    assert_eq!(ext.mixer.initialize(&mut ext.groups), Ok(()));
    let before = ext.balances.free_balance(1);
    assert_eq!(
        ext.mixer.deposit(&mut ext.balances, &mut ext.groups, Origin::Signed(1), 1, vec![leaf(1), leaf(2), leaf(3)]),
        Ok(())
    );
    assert_eq!(ext.balances.free_balance(1), before - 30_000);
    assert_eq!(ext.balances.free_balance(mixer_account()), 30_000);
    assert_eq!(ext.mixer.total_value_locked(1), 30_000);
    assert_eq!(ext.mixer.get_mixer(1).unwrap().leaves, vec![leaf(1), leaf(2), leaf(3)]);
    assert_eq!(ext.groups.get_group(1).unwrap().leaf_count, 3);
    // another deposit appends after the first leaves
    assert_eq!(
        ext.mixer.deposit(&mut ext.balances, &mut ext.groups, Origin::Signed(2), 1, vec![leaf(4)]),
        Ok(())
    );
    assert_eq!(ext.mixer.get_mixer(1).unwrap().leaves, vec![leaf(1), leaf(2), leaf(3), leaf(4)]);
    assert_eq!(ext.mixer.total_value_locked(1), 40_000);
    assert_eq!(ext.mixer.total_value_locked(0), 0);
}

#[test]
fn deposit_into_stopped_mixer_is_refused() {
    let mut ext = new_test_ext();
    assert_eq!(ext.mixer.initialize(&mut ext.groups), Ok(()));
    assert_eq!(ext.mixer.set_stopped(&mut ext.groups, Origin::Signed(4), true), Ok(()));
    assert_eq!(
        ext.mixer.deposit(&mut ext.balances, &mut ext.groups, Origin::Signed(1), 0, vec![leaf(1)]),
        Err(DispatchError::Module(Error::MixerStopped))
    );
    assert_eq!(withdraw(&mut ext, Origin::Signed(2), 0, leaf(9)), Err(DispatchError::Module(Error::MixerStopped)));
    assert_eq!(ext.mixer.set_stopped(&mut ext.groups, Origin::Root, false), Ok(()));
    assert_eq!(
        ext.mixer.deposit(&mut ext.balances, &mut ext.groups, Origin::Signed(1), 0, vec![leaf(1)]),
        Ok(())
    );
}

#[test]
fn set_stopped_only_by_admin_or_root() {
    let mut ext = new_test_ext();
    assert_eq!(ext.mixer.initialize(&mut ext.groups), Ok(()));
    assert_eq!(ext.mixer.set_stopped(&mut ext.groups, Origin::Signed(1), true), Err(DispatchError::BadOrigin));
    assert_eq!(ext.mixer.set_stopped(&mut ext.groups, Origin::Unsigned, true), Err(DispatchError::BadOrigin));
    assert!(ext.groups.groups.iter().all(|g| !g.stopped));
    assert_eq!(ext.mixer.set_stopped(&mut ext.groups, Origin::Root, true), Ok(()));
    assert!(ext.groups.groups.iter().all(|g| g.stopped));
}

/// The test runtime accepts every membership proof, so this exercises the
/// mixer's side of a withdrawal: the payout, the value locked and the spent
/// nullifier.
#[test]
fn should_withdraw_from_each_mixer_successfully() {
    let mut ext = new_test_ext();
    assert_eq!(ext.mixer.initialize(&mut ext.groups), Ok(()));
    for i in 0..4 {
        assert_eq!(
            ext.mixer.deposit(&mut ext.balances, &mut ext.groups, Origin::Signed(1), i, vec![leaf(i as u8)]),
            Ok(())
        );
        let m = ext.mixer.get_mixer(i).unwrap();
        let balance_before = ext.balances.free_balance(2);
        // withdraw from another account
        assert_eq!(withdraw(&mut ext, Origin::Signed(2), i, leaf(50 + i as u8)), Ok(()));
        let balance_after = ext.balances.free_balance(2);
        assert_eq!(balance_before + m.fixed_deposit_size, balance_after);
        // the value locked is back where it was
        assert_eq!(ext.mixer.total_value_locked(i), 0);
        // the nullifier is spent
        assert!(ext.groups.nullifier_used(i, leaf(50 + i as u8)));
        assert_eq!(
            withdraw(&mut ext, Origin::Signed(2), i, leaf(50 + i as u8)),
            Err(DispatchError::External { index: GROUPS_INDEX, error: 3 })
        );
    }
}

#[test]
fn withdraw_refusals() {
    let mut ext = new_test_ext();
    assert_eq!(withdraw(&mut ext, Origin::Signed(2), 0, leaf(9)), Err(DispatchError::Module(Error::NotInitialised)));
    assert_eq!(withdraw(&mut ext, Origin::Root, 0, leaf(9)), Err(DispatchError::BadOrigin));
    assert_eq!(ext.mixer.initialize(&mut ext.groups), Ok(()));
    assert_eq!(
        ext.mixer.deposit(&mut ext.balances, &mut ext.groups, Origin::Signed(1), 0, vec![leaf(1)]),
        Ok(())
    );
    ext.groups.accept_proofs = false;
    assert_eq!(
        withdraw(&mut ext, Origin::Signed(2), 0, leaf(9)),
        Err(DispatchError::External { index: GROUPS_INDEX, error: 4 })
    );
    assert_eq!(ext.mixer.total_value_locked(0), 1_000);
}

#[test]
fn transfer_admin_hands_over_the_role() {
    let mut ext = new_test_ext();
    assert_eq!(ext.mixer.initialize(&mut ext.groups), Ok(()));
    assert_eq!(ext.mixer.transfer_admin(Origin::Signed(1), 1), Err(DispatchError::BadOrigin));
    assert_eq!(ext.mixer.admin(), 4);
    assert_eq!(ext.mixer.transfer_admin(Origin::Signed(4), 7), Ok(()));
    assert_eq!(ext.mixer.admin(), 7);
    // the old admin is no longer accepted
    assert_eq!(ext.mixer.transfer_admin(Origin::Signed(4), 4), Err(DispatchError::BadOrigin));
    assert_eq!(ext.mixer.set_stopped(&mut ext.groups, Origin::Signed(4), true), Err(DispatchError::BadOrigin));
    assert_eq!(ext.mixer.set_stopped(&mut ext.groups, Origin::Signed(7), true), Ok(()));
    assert_eq!(ext.mixer.transfer_admin(Origin::Root, 3), Ok(()));
    assert_eq!(ext.mixer.admin(), 3);
}

#[test]
fn hooks_initialise_then_carry_roots() {
    let mut ext = new_test_ext();
    let weights = Weights { db_weight: RuntimeDbWeight { read: 25_000_000, write: 100_000_000 } };
    assert_eq!(ext.mixer.on_initialize(&weights, 1), weights.on_finalize_uninitialized());
    ext.mixer.on_finalize(&mut ext.groups, 1);
    assert!(ext.mixer.initialised());
    assert_eq!(ext.mixer.on_initialize(&weights, 2), weights.on_finalize_initialized());
    assert_eq!(ext.mixer.on_initialize(&weights, 2), 93_000_000 + 250_000_000 + 400_000_000);
    // a deposit caches a root at block 2 for mixer 0; the hook carries the others
    ext.groups.add_root_to_cache(0, 2).unwrap();
    ext.mixer.on_finalize(&mut ext.groups, 2);
    assert_eq!(ext.groups.cached_roots(2, 0).len(), 1);
    for i in 1..4 {
        assert_eq!(ext.groups.cached_roots(2, i).len(), 1);
    }
    ext.mixer.on_finalize(&mut ext.groups, 2);
    for i in 0..4 {
        assert_eq!(ext.groups.cached_roots(2, i).len(), 1);
    }
}

#[test]
fn mixer_info_constructors() {
    let m = MixerInfo::new(5, 1_000, vec![leaf(1)]);
    assert_eq!(m.minimum_deposit_length_for_reward, 5);
    assert_eq!(m.fixed_deposit_size, 1_000);
    assert_eq!(m.leaves, vec![leaf(1)]);
    let d = MixerInfo::default();
    assert_eq!(d.minimum_deposit_length_for_reward, 0);
    assert_eq!(d.fixed_deposit_size, 0);
    assert!(d.leaves.is_empty());
    let c = m.clone();
    assert_eq!(c.leaves, m.leaves);
}

#[test]
fn account_id_is_derived_from_module_id() {
    let ext = new_test_ext();
    assert_eq!(ext.mixer.account_id(), mixer_account());
    assert_ne!(ext.mixer.account_id(), u64::from_le_bytes(MIXER_ID));
}

#[test]
fn refused_calls_leave_balances_and_groups_untouched() {
    let mut ext = new_test_ext();
    assert_eq!(ext.mixer.initialize(&mut ext.groups), Ok(()));
    let before = ext.balances.free_balance(4);
    assert_eq!(
        ext.mixer.deposit(&mut ext.balances, &mut ext.groups, Origin::Signed(4), 0, vec![leaf(1)]),
        Err(DispatchError::Module(Error::InsufficientBalance))
    );
    assert_eq!(ext.balances.free_balance(4), before);
    assert_eq!(ext.balances.free_balance(mixer_account()), 0);
    assert!(ext.groups.members(0).is_empty());
    assert_eq!(ext.mixer.set_stopped(&mut ext.groups, Origin::Root, true), Ok(()));
    let payer = ext.balances.free_balance(1);
    assert_eq!(
        ext.mixer.deposit(&mut ext.balances, &mut ext.groups, Origin::Signed(1), 2, vec![leaf(2)]),
        Err(DispatchError::Module(Error::MixerStopped))
    );
    assert_eq!(ext.balances.free_balance(1), payer);
    assert!(ext.groups.members(2).is_empty());
    assert!(!ext.groups.nullifier_used(2, leaf(3)));
    assert_eq!(withdraw(&mut ext, Origin::Signed(1), 2, leaf(3)), Err(DispatchError::Module(Error::MixerStopped)));
    assert!(!ext.groups.nullifier_used(2, leaf(3)));
    assert_eq!(ext.balances.free_balance(1), payer);
}
