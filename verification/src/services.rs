//! What the runtime provides to the mixer: a currency to take and pay out
//! deposits, and the Merkle groups that hold the deposit trees. A runtime
//! implements these traits. Their spec functions say what state a runtime
//! exposes (balances, groups, members, spent nullifiers, cached roots, the
//! groups created so far) and what each call answers in a given state; each
//! method's `ensures` is what the mixer requires of an implementation: that
//! it answers so, what an accepted call does to that state, and that a
//! refused call changes nothing.

use vstd::prelude::*;
use crate::types::{AccountId, Balance, BlockNumber, Commitment, DispatchError, GroupId, ScalarData};

verus! {

/// Balances, account by account.
pub type Balances = spec_fn(AccountId) -> Balance;

/// The runtime's currency.
pub trait Currency: Sized {
    /// The balance that `who` can spend.
    spec fn balance_of(&self, who: AccountId) -> Balance;

    /// What `transfer` answers in this state.
    spec fn transfer_result(&self, source: AccountId, dest: AccountId, value: Balance) -> Result<(), DispatchError>;

    /// The balance that `who` can spend.
    fn free_balance(&self, who: AccountId) -> (b: Balance)
        ensures
            b == self.balance_of(who),
    ;

    /// Moves `value` from `source` to `dest`, or refuses and changes nothing.
    fn transfer(&mut self, source: AccountId, dest: AccountId, value: Balance) -> (r: Result<(), DispatchError>)
        ensures
            r == old(self).transfer_result(source, dest, value),
            r is Ok ==> transferred(
                |who: AccountId| old(self).balance_of(who),
                |who: AccountId| final(self).balance_of(who),
                source,
                dest,
                value,
            ),
            r is Err ==> *final(self) == *old(self),
    ;
}

/// The balances that `c` holds.
pub open spec fn balances_of<C: Currency>(c: C) -> Balances {
    |who: AccountId| c.balance_of(who)
}

/// `b` is `a` after `value` moved from `source` to `dest`: `source` could
/// pay it, `source` has `value` less and `dest` `value` more (nothing
/// changes where they are the same account), and every other balance stays.
/// A currency that may reap the payer's account on a transfer, dropping its
/// remaining dust, does not answer to this.
pub open spec fn transferred(a: Balances, b: Balances, source: AccountId, dest: AccountId, value: Balance) -> bool {
    &&& a(source) >= value
    &&& source != dest ==> b(source) == a(source) - value && b(dest) == a(dest) + value
    &&& source == dest ==> b(source) == a(source)
    &&& forall|who: AccountId| who != source && who != dest ==> #[trigger] b(who) == a(who)
}

/// A Merkle group's settings: its manager, whether only the manager may
/// change it, the depth of its tree, and whether it is stopped.
#[derive(Clone, Copy, Debug, PartialEq, Eq)]
pub struct GroupInfo {
    pub manager: AccountId,
    pub manager_required: bool,
    pub depth: u8,
    pub stopped: bool,
}

/// What the Merkle groups hold: each group's settings (`None` where there
/// is no group), its leaves, its spent nullifier hashes, the roots cached
/// for it at each block, and the ids of the groups created so far, in the
/// order they were created.
pub struct GroupsView {
    pub info: spec_fn(GroupId) -> Option<GroupInfo>,
    pub members: spec_fn(GroupId) -> Seq<ScalarData>,
    pub used: spec_fn(GroupId, ScalarData) -> bool,
    pub cached: spec_fn(BlockNumber, GroupId) -> Seq<ScalarData>,
    pub created: Seq<GroupId>,
}

/// The runtime's Merkle groups: one tree of deposit commitments per mixer.
pub trait Group: Sized {
    /// The settings of group `id`, or `None` where there is no such group.
    spec fn group_info(&self, id: GroupId) -> Option<GroupInfo>;

    /// The leaves of group `id`, in the order they were added.
    spec fn members(&self, id: GroupId) -> Vec<ScalarData>;

    /// Whether `nullifier_hash` has been spent in group `id`.
    spec fn nullifier_used(&self, id: GroupId, nullifier_hash: ScalarData) -> bool;

    /// The roots of group `id` cached at block `block`.
    spec fn cached_roots_at(&self, block: BlockNumber, id: GroupId) -> Vec<ScalarData>;

    /// The ids of the groups created so far, in the order they were created.
    spec fn created(&self) -> Vec<GroupId>;

    /// What `create_group` answers in this state.
    spec fn create_group_result(&self, sender: AccountId, is_manager_required: bool, depth: u8) -> Result<GroupId, DispatchError>;

    /// What `add_members` answers in this state.
    spec fn add_members_result(&self, sender: AccountId, id: GroupId, members: Vec<ScalarData>) -> Result<(), DispatchError>;

    /// What `set_stopped` answers in this state.
    spec fn set_stopped_result(&self, sender: AccountId, id: GroupId, stopped: bool) -> Result<(), DispatchError>;

    /// What `has_used_nullifier` answers in this state.
    spec fn nullifier_check(&self, id: GroupId, nullifier_hash: ScalarData) -> Result<(), DispatchError>;

    /// What `verify_zk_membership_proof` answers in this state: `Ok` where
    /// the zero-knowledge proof shows knowledge of a leaf of group `id`
    /// under the root cached at `cached_block`, for this nullifier hash.
    spec fn proof_check(
        &self,
        id: GroupId,
        cached_block: BlockNumber,
        cached_root: ScalarData,
        comms: Vec<Commitment>,
        nullifier_hash: ScalarData,
        proof_bytes: Vec<u8>,
        leaf_index_commitments: Vec<Commitment>,
        proof_commitments: Vec<Commitment>,
    ) -> Result<(), DispatchError>;

    /// What `add_nullifier` answers in this state.
    spec fn add_nullifier_result(&self, sender: AccountId, id: GroupId, nullifier_hash: ScalarData) -> Result<(), DispatchError>;

    /// What `add_root_to_cache` answers in this state.
    spec fn add_root_result(&self, id: GroupId, block: BlockNumber) -> Result<(), DispatchError>;

    /// Creates a fresh group managed by `sender`, and returns its id.
    fn create_group(&mut self, sender: AccountId, is_manager_required: bool, depth: u8) -> (r: Result<GroupId, DispatchError>)
        ensures
            r == old(self).create_group_result(sender, is_manager_required, depth),
            r matches Ok(id) ==> group_created(
                GroupsView {
                    info: |j: GroupId| old(self).group_info(j),
                    members: |j: GroupId| old(self).members(j)@,
                    used: |j: GroupId, h: ScalarData| old(self).nullifier_used(j, h),
                    cached: |b: BlockNumber, j: GroupId| old(self).cached_roots_at(b, j)@,
                    created: old(self).created()@,
                },
                GroupsView {
                    info: |j: GroupId| final(self).group_info(j),
                    members: |j: GroupId| final(self).members(j)@,
                    used: |j: GroupId, h: ScalarData| final(self).nullifier_used(j, h),
                    cached: |b: BlockNumber, j: GroupId| final(self).cached_roots_at(b, j)@,
                    created: final(self).created()@,
                },
                id,
                GroupInfo { manager: sender, manager_required: is_manager_required, depth, stopped: false },
            ),
            r is Err ==> *final(self) == *old(self),
    ;

    /// Adds leaves to the tree of group `id`.
    fn add_members(&mut self, sender: AccountId, id: GroupId, members: Vec<ScalarData>) -> (r: Result<(), DispatchError>)
        ensures
            r == old(self).add_members_result(sender, id, members),
            r is Ok ==> members_added(
                GroupsView {
                    info: |j: GroupId| old(self).group_info(j),
                    members: |j: GroupId| old(self).members(j)@,
                    used: |j: GroupId, h: ScalarData| old(self).nullifier_used(j, h),
                    cached: |b: BlockNumber, j: GroupId| old(self).cached_roots_at(b, j)@,
                    created: old(self).created()@,
                },
                GroupsView {
                    info: |j: GroupId| final(self).group_info(j),
                    members: |j: GroupId| final(self).members(j)@,
                    used: |j: GroupId, h: ScalarData| final(self).nullifier_used(j, h),
                    cached: |b: BlockNumber, j: GroupId| final(self).cached_roots_at(b, j)@,
                    created: final(self).created()@,
                },
                sender,
                id,
                members@,
            ),
            r is Err ==> *final(self) == *old(self),
    ;

    /// Stops or restarts group `id`.
    fn set_stopped(&mut self, sender: AccountId, id: GroupId, stopped: bool) -> (r: Result<(), DispatchError>)
        ensures
            r == old(self).set_stopped_result(sender, id, stopped),
            r is Ok ==> stop_set(
                GroupsView {
                    info: |j: GroupId| old(self).group_info(j),
                    members: |j: GroupId| old(self).members(j)@,
                    used: |j: GroupId, h: ScalarData| old(self).nullifier_used(j, h),
                    cached: |b: BlockNumber, j: GroupId| old(self).cached_roots_at(b, j)@,
                    created: old(self).created()@,
                },
                GroupsView {
                    info: |j: GroupId| final(self).group_info(j),
                    members: |j: GroupId| final(self).members(j)@,
                    used: |j: GroupId, h: ScalarData| final(self).nullifier_used(j, h),
                    cached: |b: BlockNumber, j: GroupId| final(self).cached_roots_at(b, j)@,
                    created: final(self).created()@,
                },
                sender,
                id,
                stopped,
            ),
            r is Err ==> *final(self) == *old(self),
    ;

    /// Refuses a nullifier hash that group `id` has already seen.
    fn has_used_nullifier(&self, id: GroupId, nullifier_hash: ScalarData) -> (r: Result<(), DispatchError>)
        ensures
            r == self.nullifier_check(id, nullifier_hash),
            self.nullifier_used(id, nullifier_hash) ==> r is Err,
    ;

    /// Checks a zero-knowledge proof of membership in group `id`.
    fn verify_zk_membership_proof(
        &self,
        id: GroupId,
        cached_block: BlockNumber,
        cached_root: ScalarData,
        comms: Vec<Commitment>,
        nullifier_hash: ScalarData,
        proof_bytes: Vec<u8>,
        leaf_index_commitments: Vec<Commitment>,
        proof_commitments: Vec<Commitment>,
    ) -> (r: Result<(), DispatchError>)
        ensures
            r == self.proof_check(
                id,
                cached_block,
                cached_root,
                comms,
                nullifier_hash,
                proof_bytes,
                leaf_index_commitments,
                proof_commitments,
            ),
    ;

    /// Records a spent nullifier hash in group `id`.
    fn add_nullifier(&mut self, sender: AccountId, id: GroupId, nullifier_hash: ScalarData) -> (r: Result<(), DispatchError>)
        ensures
            r == old(self).add_nullifier_result(sender, id, nullifier_hash),
            r is Ok ==> nullifier_added(
                GroupsView {
                    info: |j: GroupId| old(self).group_info(j),
                    members: |j: GroupId| old(self).members(j)@,
                    used: |j: GroupId, h: ScalarData| old(self).nullifier_used(j, h),
                    cached: |b: BlockNumber, j: GroupId| old(self).cached_roots_at(b, j)@,
                    created: old(self).created()@,
                },
                GroupsView {
                    info: |j: GroupId| final(self).group_info(j),
                    members: |j: GroupId| final(self).members(j)@,
                    used: |j: GroupId, h: ScalarData| final(self).nullifier_used(j, h),
                    cached: |b: BlockNumber, j: GroupId| final(self).cached_roots_at(b, j)@,
                    created: final(self).created()@,
                },
                sender,
                id,
                nullifier_hash,
            ),
            r is Err ==> *final(self) == *old(self),
    ;

    /// Whether group `id` is stopped.
    fn stopped(&self, id: GroupId) -> (b: bool)
        ensures
            b == (self.group_info(id) matches Some(info) && info.stopped),
    ;

    /// The roots of group `id` cached at block `block`.
    fn cached_roots(&self, block: BlockNumber, id: GroupId) -> (roots: Vec<ScalarData>)
        ensures
            roots@ == self.cached_roots_at(block, id)@,
    ;

    /// Caches the current root of group `id` at block `block`; this
    /// succeeds for every group that exists.
    fn add_root_to_cache(&mut self, id: GroupId, block: BlockNumber) -> (r: Result<(), DispatchError>)
        ensures
            r == old(self).add_root_result(id, block),
            old(self).group_info(id) is Some ==> r is Ok,
            r is Ok ==> root_cached(
                GroupsView {
                    info: |j: GroupId| old(self).group_info(j),
                    members: |j: GroupId| old(self).members(j)@,
                    used: |j: GroupId, h: ScalarData| old(self).nullifier_used(j, h),
                    cached: |b: BlockNumber, j: GroupId| old(self).cached_roots_at(b, j)@,
                    created: old(self).created()@,
                },
                GroupsView {
                    info: |j: GroupId| final(self).group_info(j),
                    members: |j: GroupId| final(self).members(j)@,
                    used: |j: GroupId, h: ScalarData| final(self).nullifier_used(j, h),
                    cached: |b: BlockNumber, j: GroupId| final(self).cached_roots_at(b, j)@,
                    created: final(self).created()@,
                },
                block,
                id,
            ),
            r is Err ==> *final(self) == *old(self),
    ;
}

/// What the Merkle groups `g` hold.
pub open spec fn groups_of<G: Group>(g: G) -> GroupsView {
    GroupsView {
        info: |j: GroupId| g.group_info(j),
        members: |j: GroupId| g.members(j)@,
        used: |j: GroupId, h: ScalarData| g.nullifier_used(j, h),
        cached: |b: BlockNumber, j: GroupId| g.cached_roots_at(b, j)@,
        created: g.created()@,
    }
}

impl GroupsView {
    /// Whether group `id` exists and is stopped.
    pub open spec fn is_stopped(self, id: GroupId) -> bool {
        (self.info)(id) matches Some(info) && info.stopped
    }

    /// Whether `sender` may change group `id`: the group exists, and where
    /// it requires its manager, `sender` is the manager.
    pub open spec fn may_manage(self, sender: AccountId, id: GroupId) -> bool {
        (self.info)(id) matches Some(info) && (info.manager_required ==> info.manager == sender)
    }
}

/// All groups have the same settings in `a` and `b`, except maybe `id`.
pub open spec fn infos_same_except(a: GroupsView, b: GroupsView, id: Option<GroupId>) -> bool {
    forall|j: GroupId| Some(j) != id ==> #[trigger] (b.info)(j) == (a.info)(j)
}

/// All groups have the same leaves in `a` and `b`, except maybe `id`.
pub open spec fn members_same_except(a: GroupsView, b: GroupsView, id: Option<GroupId>) -> bool {
    forall|j: GroupId| Some(j) != id ==> #[trigger] (b.members)(j) == (a.members)(j)
}

/// The same nullifiers are spent in `a` and `b`, except maybe `h` of `id`.
pub open spec fn nullifiers_same_except(a: GroupsView, b: GroupsView, id: Option<(GroupId, ScalarData)>) -> bool {
    forall|j: GroupId, h: ScalarData| Some((j, h)) != id ==> #[trigger] (b.used)(j, h) == (a.used)(j, h)
}

/// The same roots are cached in `a` and `b`, except maybe at `at`.
pub open spec fn caches_same_except(a: GroupsView, b: GroupsView, at: Option<(BlockNumber, GroupId)>) -> bool {
    forall|block: BlockNumber, j: GroupId|
        Some((block, j)) != at ==> #[trigger] (b.cached)(block, j) == (a.cached)(block, j)
}

/// `a` and `b` hold the same groups, leaves, spent nullifiers, roots and
/// record of creation.
pub open spec fn same_groups(a: GroupsView, b: GroupsView) -> bool {
    &&& b.created == a.created
    &&& infos_same_except(a, b, None)
    &&& members_same_except(a, b, None)
    &&& nullifiers_same_except(a, b, None)
    &&& caches_same_except(a, b, None)
}

/// `b` is `a` with a new group `id`, which did not exist before, with
/// settings `info`, no leaves and no spent nullifiers, recorded as the
/// latest group created.
pub open spec fn group_created(a: GroupsView, b: GroupsView, id: GroupId, info: GroupInfo) -> bool {
    &&& b.created == a.created.push(id)
    &&& (a.info)(id) is None
    &&& (b.info)(id) == Some(info)
    &&& (b.members)(id) == Seq::<ScalarData>::empty()
    &&& forall|h: ScalarData| !#[trigger] (b.used)(id, h)
    &&& infos_same_except(a, b, Some(id))
    &&& members_same_except(a, b, Some(id))
    &&& forall|j: GroupId, h: ScalarData| j != id ==> #[trigger] (b.used)(j, h) == (a.used)(j, h)
    &&& caches_same_except(a, b, None)
}

/// `b` is `a` with `members` appended to the leaves of group `id`, which
/// `sender` may change.
pub open spec fn members_added(a: GroupsView, b: GroupsView, sender: AccountId, id: GroupId, members: Seq<ScalarData>) -> bool {
    &&& b.created == a.created
    &&& a.may_manage(sender, id)
    &&& (b.members)(id) == (a.members)(id) + members
    &&& infos_same_except(a, b, None)
    &&& members_same_except(a, b, Some(id))
    &&& nullifiers_same_except(a, b, None)
    &&& caches_same_except(a, b, None)
}

/// `b` is `a` with group `id`, which `sender` may change, stopped or
/// restarted as `stopped` says.
pub open spec fn stop_set(a: GroupsView, b: GroupsView, sender: AccountId, id: GroupId, stopped: bool) -> bool {
    &&& b.created == a.created
    &&& a.may_manage(sender, id)
    &&& (b.info)(id) == Some(GroupInfo { stopped, ..(a.info)(id).unwrap() })
    &&& infos_same_except(a, b, Some(id))
    &&& members_same_except(a, b, None)
    &&& nullifiers_same_except(a, b, None)
    &&& caches_same_except(a, b, None)
}

/// `b` is `a` with `nullifier_hash` spent in group `id`, which `sender`
/// may change.
pub open spec fn nullifier_added(a: GroupsView, b: GroupsView, sender: AccountId, id: GroupId, nullifier_hash: ScalarData) -> bool {
    &&& b.created == a.created
    &&& a.may_manage(sender, id)
    &&& (b.used)(id, nullifier_hash)
    &&& infos_same_except(a, b, None)
    &&& members_same_except(a, b, None)
    &&& nullifiers_same_except(a, b, Some((id, nullifier_hash)))
    &&& caches_same_except(a, b, None)
}

/// `b` is `a` with one more root cached for group `id` at `block`, after
/// the roots cached there before.
pub open spec fn root_cached(a: GroupsView, b: GroupsView, block: BlockNumber, id: GroupId) -> bool {
    &&& b.created == a.created
    &&& (b.cached)(block, id).len() == (a.cached)(block, id).len() + 1
    &&& (b.cached)(block, id).take((a.cached)(block, id).len() as int) == (a.cached)(block, id)
    &&& infos_same_except(a, b, None)
    &&& members_same_except(a, b, None)
    &&& nullifiers_same_except(a, b, None)
    &&& caches_same_except(a, b, Some((block, id)))
}

} // verus!
