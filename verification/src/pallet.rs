//! The mixer pallet: its storage, the calls that change it, and the hooks
//! run at the start and end of each block.

use std::collections::HashMap;
use sp_runtime::traits::AccountIdConversion;
use vstd::prelude::*;
use crate::services::{
    balances_of, caches_same_except, groups_of, infos_same_except, members_added,
    members_same_except, nullifier_added, nullifiers_same_except, same_groups,
    root_cached, transferred, Currency, Group, GroupInfo, GroupsView,
};
use crate::types::{
    empty_mixer_info, ensure_admin, ensure_signed, is_admin_origin, signer, AccountId, Balance,
    BlockNumber, Commitment, DispatchError, Error, GroupId, MixerInfo, MixerInfoView, Origin,
    ScalarData,
};
use crate::weights::{Weight, WeightInfo};

verus! {

broadcast use vstd::std_specs::hash::group_hash_axioms;

/// The constants a runtime configures the mixer with.
#[derive(Debug)]
pub struct Config {
    /// The mixer's module id, from which its own account (the one that
    /// holds the deposits) is derived.
    pub module_id: [u8; 8],
    /// The admin set when the mixer is initialised.
    pub default_admin: AccountId,
    /// The depth of the mixers' trees.
    pub max_mixer_tree_depth: u8,
    /// The minimum deposit length recorded for each mixer.
    pub deposit_length: BlockNumber,
    /// The fixed deposit size of each mixer, one mixer per size.
    pub mixer_sizes: Vec<Balance>,
}

/// The mixer's configuration as a mathematical value.
pub struct ConfigView {
    pub module_id: Seq<u8>,
    pub default_admin: AccountId,
    pub max_mixer_tree_depth: u8,
    pub deposit_length: BlockNumber,
    pub mixer_sizes: Seq<Balance>,
}

impl View for Config {
    type V = ConfigView;

    open spec fn view(&self) -> ConfigView {
        ConfigView {
            module_id: self.module_id@,
            default_admin: self.default_admin,
            max_mixer_tree_depth: self.max_mixer_tree_depth,
            deposit_length: self.deposit_length,
            mixer_sizes: self.mixer_sizes@,
        }
    }
}

/// The account that `sp_runtime` derives from a module id: the type id
/// "modl" followed by the first four bytes of the module id, read as a
/// little-endian `u64`.
pub open spec fn module_account_of(module_id: Seq<u8>) -> AccountId {
    (0x6d + 0x6f * 0x100 + 0x64 * 0x1_0000 + 0x6c * 0x100_0000 + module_id[0] * 0x1_0000_0000
        + module_id[1] * 0x100_0000_0000 + module_id[2] * 0x1_0000_0000_0000 + module_id[3]
        * 0x100_0000_0000_0000) as AccountId
}

/// `sp_runtime::ModuleId(module_id).into_account()`: the account of the
/// module with this id, as `module_account_of` states it.
#[verifier::external_body]
fn module_account(module_id: [u8; 8]) -> (a: AccountId)
    ensures
        a == module_account_of(module_id@),
{
    sp_runtime::ModuleId(module_id).into_account()
}

/// The mixer's storage.
pub struct Pallet {
    config: Config,
    initialised: bool,
    mixer_groups: HashMap<GroupId, MixerInfo>,
    mixer_group_ids: Vec<GroupId>,
    admin: AccountId,
    total_value_locked: HashMap<GroupId, Balance>,
}

/// The mixer's storage as a mathematical value.
pub struct PalletView {
    pub config: ConfigView,
    /// Whether the mixer is initialised.
    pub initialised: bool,
    /// The record of each mixer group that has one.
    pub mixer_groups: Map<GroupId, MixerInfoView>,
    /// The ids of the mixer groups, in the order they were created.
    pub mixer_group_ids: Seq<GroupId>,
    /// The account that may stop the mixers and hand over the admin role.
    pub admin: AccountId,
    /// The value locked in each mixer group that has an entry.
    pub total_value_locked: Map<GroupId, Balance>,
}

impl PalletView {
    /// The record of mixer `id`, or the empty record where there is none.
    pub open spec fn mixer(self, id: GroupId) -> MixerInfoView {
        if self.mixer_groups.contains_key(id) {
            self.mixer_groups[id]
        } else {
            empty_mixer_info()
        }
    }

    /// The value locked in mixer `id`, zero where there is no entry.
    pub open spec fn tvl(self, id: GroupId) -> Balance {
        if self.total_value_locked.contains_key(id) {
            self.total_value_locked[id]
        } else {
            0
        }
    }

    /// Whether mixer `id` exists: it has a non-zero deposit size.
    pub open spec fn has_mixer(self, id: GroupId) -> bool {
        self.mixer(id).fixed_deposit_size > 0
    }
}

impl View for Pallet {
    type V = PalletView;

    closed spec fn view(&self) -> PalletView {
        PalletView {
            config: self.config@,
            initialised: self.initialised,
            mixer_groups: self.mixer_groups@.map_values(|m: MixerInfo| m@),
            mixer_group_ids: self.mixer_group_ids@,
            admin: self.admin,
            total_value_locked: self.total_value_locked@,
        }
    }
}

/// `s` with `admin` as its admin.
pub open spec fn with_admin(s: PalletView, admin: AccountId) -> PalletView {
    PalletView { admin, ..s }
}


/// `s` with `amount` more locked in mixer `id`.
pub open spec fn credited(s: PalletView, id: GroupId, amount: Balance) -> PalletView {
    PalletView {
        total_value_locked: s.total_value_locked.insert(id, (s.tvl(id) + amount) as Balance),
        ..s
    }
}

/// `s` with `amount` less locked in mixer `id`.
pub open spec fn debited(s: PalletView, id: GroupId, amount: Balance) -> PalletView {
    PalletView {
        total_value_locked: s.total_value_locked.insert(id, (s.tvl(id) - amount) as Balance),
        ..s
    }
}

/// `s` with `points` appended to the leaves of mixer `id`.
pub open spec fn with_leaves(s: PalletView, id: GroupId, points: Seq<ScalarData>) -> PalletView {
    let m = s.mixer(id);
    PalletView {
        mixer_groups: s.mixer_groups.insert(id, MixerInfoView { leaves: m.leaves + points, ..m }),
        ..s
    }
}

/// What depositing `n` leaves into a mixer of deposit size `size` costs.
pub open spec fn deposit_total(n: nat, size: Balance) -> int {
    n * size
}

/// The storage after `points` were deposited into mixer `id`: the fixed
/// deposit size once per leaf is locked, and the leaves are appended.
pub open spec fn after_deposit(s: PalletView, id: GroupId, points: Seq<ScalarData>) -> PalletView {
    with_leaves(
        credited(s, id, deposit_total(points.len(), s.mixer(id).fixed_deposit_size) as Balance),
        id,
        points,
    )
}

/// The storage after one deposit was withdrawn from mixer `id`: its fixed
/// deposit size is no longer locked.
pub open spec fn after_withdraw(s: PalletView, id: GroupId) -> PalletView {
    debited(s, id, s.mixer(id).fixed_deposit_size)
}

/// `groups` with a fresh record for each of `ids`, the i-th with deposit
/// size `sizes[i]`, in order (a later id overwrites an earlier equal one).
pub open spec fn registered(
    groups: Map<GroupId, MixerInfoView>,
    ids: Seq<GroupId>,
    sizes: Seq<Balance>,
    deposit_length: BlockNumber,
) -> Map<GroupId, MixerInfoView>
    decreases ids.len(),
{
    if ids.len() == 0 {
        groups
    } else {
        registered(groups, ids.drop_last(), sizes, deposit_length).insert(
            ids.last(),
            MixerInfoView {
                minimum_deposit_length_for_reward: deposit_length,
                fixed_deposit_size: sizes[ids.len() - 1],
                leaves: Seq::empty(),
            },
        )
    }
}

/// `old` with the admin set to the default admin and the mixers of `ids`
/// registered, one per configured size.
pub open spec fn with_registered(old: PalletView, ids: Seq<GroupId>) -> PalletView {
    PalletView {
        admin: old.config.default_admin,
        mixer_groups: registered(
            old.mixer_groups,
            ids,
            old.config.mixer_sizes,
            old.config.deposit_length,
        ),
        ..old
    }
}

/// `new` is `old` fully initialised: one mixer per configured size, under
/// the group ids `new` records, the default admin in place.
pub open spec fn initialised_from(old: PalletView, new: PalletView) -> bool {
    &&& new.mixer_group_ids.len() == old.config.mixer_sizes.len()
    &&& new == PalletView {
        initialised: true,
        mixer_group_ids: new.mixer_group_ids,
        ..with_registered(old, new.mixer_group_ids)
    }
}

/// `b` is `a` with a fresh group for each of `ids`, created in that order,
/// all distinct, each
/// managed by `manager` (who is required), of depth `depth`, running, with
/// no leaves and no spent nullifiers; every other group and every cached
/// root as before.
pub open spec fn groups_made(a: GroupsView, b: GroupsView, manager: AccountId, depth: u8, ids: Seq<GroupId>) -> bool {
    &&& b.created == a.created + ids
    &&& ids.no_duplicates()
    &&& forall|i: int| 0 <= i < ids.len() ==> (a.info)(#[trigger] ids[i]) is None
    &&& forall|i: int|
        0 <= i < ids.len() ==> (b.info)(#[trigger] ids[i]) == Some(
            GroupInfo { manager, manager_required: true, depth, stopped: false },
        )
    &&& forall|i: int| 0 <= i < ids.len() ==> (b.members)(#[trigger] ids[i]) == Seq::<ScalarData>::empty()
    &&& forall|j: GroupId, h: ScalarData| ids.contains(j) ==> !#[trigger] (b.used)(j, h)
    &&& forall|j: GroupId| !ids.contains(j) ==> #[trigger] (b.info)(j) == (a.info)(j)
    &&& forall|j: GroupId| !ids.contains(j) ==> #[trigger] (b.members)(j) == (a.members)(j)
    &&& forall|j: GroupId, h: ScalarData| !ids.contains(j) ==> #[trigger] (b.used)(j, h) == (a.used)(j, h)
    &&& caches_same_except(a, b, None)
}

/// `new` is `old` fully initialised, and the groups `gb` are `ga` with one
/// fresh group per mixer, managed by the mixer's account.
pub open spec fn initialised_fully(old: PalletView, new: PalletView, ga: GroupsView, gb: GroupsView) -> bool {
    &&& initialised_from(old, new)
    &&& groups_made(
        ga,
        gb,
        module_account_of(old.config.module_id),
        old.config.max_mixer_tree_depth,
        new.mixer_group_ids,
    )
}

/// `new` is `old` after an initialisation that stopped part-way: the
/// default admin in place and the mixers of fewer ids than sizes
/// registered, each id a group freshly made in `gb`, but nothing marked
/// initialised.
pub open spec fn initialised_partly(old: PalletView, new: PalletView, ga: GroupsView, gb: GroupsView) -> bool {
    exists|ids: Seq<GroupId>|
        #![trigger with_registered(old, ids)]
        ids.len() < old.config.mixer_sizes.len() && new == with_registered(old, ids) && groups_made(
            ga,
            gb,
            module_account_of(old.config.module_id),
            old.config.max_mixer_tree_depth,
            ids,
        )
}

/// `b` is `a` with the groups `ids`, which `sender` may all change,
/// stopped or restarted as `stopped` says; everything else as before.
pub open spec fn all_stopped(a: GroupsView, b: GroupsView, sender: AccountId, ids: Seq<GroupId>, stopped: bool) -> bool {
    &&& b.created == a.created
    &&& forall|i: int| 0 <= i < ids.len() ==> a.may_manage(sender, #[trigger] ids[i])
    &&& forall|j: GroupId|
        ids.contains(j) ==> #[trigger] (b.info)(j) == Some(GroupInfo { stopped, ..(a.info)(j).unwrap() })
    &&& forall|j: GroupId| !ids.contains(j) ==> #[trigger] (b.info)(j) == (a.info)(j)
    &&& members_same_except(a, b, None)
    &&& nullifiers_same_except(a, b, None)
    &&& caches_same_except(a, b, None)
}

/// `b` is `a` with the current root carried into the cache of `block` for
/// each group of `ids` that exists and had none cached there; a group that
/// had roots cached there keeps them, and nothing else changes.
pub open spec fn roots_carried(a: GroupsView, b: GroupsView, block: BlockNumber, ids: Seq<GroupId>) -> bool {
    &&& b.created == a.created
    &&& forall|i: int|
        0 <= i < ids.len() && (a.cached)(block, ids[i]).len() > 0 ==> #[trigger] (b.cached)(block, ids[i])
            == (a.cached)(block, ids[i])
    &&& forall|i: int|
        0 <= i < ids.len() && (a.cached)(block, ids[i]).len() == 0 && (a.info)(ids[i]) is Some
            ==> #[trigger] (b.cached)(block, ids[i]).len() == 1
    &&& forall|i: int|
        0 <= i < ids.len() && (a.cached)(block, ids[i]).len() == 0 ==> #[trigger] (b.cached)(
            block,
            ids[i],
        ).len() <= 1
    &&& forall|c: BlockNumber, j: GroupId|
        c != block || !ids.contains(j) ==> #[trigger] (b.cached)(c, j) == (a.cached)(c, j)
    &&& infos_same_except(a, b, None)
    &&& members_same_except(a, b, None)
    &&& nullifiers_same_except(a, b, None)
}

/// Refuses a call on a stopped mixer.
pub fn ensure_running(stopped: bool) -> (r: Result<(), DispatchError>)
    ensures
        r == (if stopped {
            Err(DispatchError::Module(Error::MixerStopped))
        } else {
            Ok(())
        }),
{
    if stopped {
        Err(DispatchError::Module(Error::MixerStopped))
    } else {
        Ok(())
    }
}

/// The deposit for `n` leaves into a mixer of deposit size `size`: the
/// size once per leaf, where `free_balance` covers it.
pub fn deposit_amount(size: Balance, n: usize, free_balance: Balance) -> (r: Result<Balance, DispatchError>)
    requires
        deposit_total(n as nat, size) <= u64::MAX,
    ensures
        r == (if free_balance >= deposit_total(n as nat, size) {
            Ok(deposit_total(n as nat, size) as Balance)
        } else {
            Err(DispatchError::Module(Error::InsufficientBalance))
        }),
{
    let mut deposit: Balance = 0;
    let mut i: usize = 0;
    while i < n
        invariant
            i <= n,
            deposit == i * size,
            n * size <= u64::MAX,
        decreases n - i,
    {
        assert((i + 1) * size <= n * size) by (nonlinear_arith)
            requires
                i < n,
        ;
        assert((i + 1) * size == i * size + size) by (nonlinear_arith);
        deposit = deposit + size;
        i = i + 1;
    }
    if free_balance >= deposit {
        Ok(deposit)
    } else {
        Err(DispatchError::Module(Error::InsufficientBalance))
    }
}

/// Roots have been carried for the first `k` of `ids`: each of them that
/// had roots cached at `block` keeps them, each that had none has at most
/// one now (exactly one where the group exists), and nothing else changed.
pub open spec fn carried_so_far(a: GroupsView, b: GroupsView, block: BlockNumber, ids: Seq<GroupId>, k: int) -> bool {
    let done = ids.take(k);
    &&& b.created == a.created
    &&& forall|j: GroupId|
        done.contains(j) && (a.cached)(block, j).len() > 0 ==> #[trigger] (b.cached)(block, j) == (a.cached)(block, j)
    &&& forall|j: GroupId|
        done.contains(j) && (a.cached)(block, j).len() == 0 ==> #[trigger] (b.cached)(block, j).len() <= 1
    &&& forall|j: GroupId|
        done.contains(j) && (a.cached)(block, j).len() == 0 && (a.info)(j) is Some
            ==> #[trigger] (b.cached)(block, j).len() == 1
    &&& forall|c: BlockNumber, j: GroupId|
        c != block || !done.contains(j) ==> #[trigger] (b.cached)(c, j) == (a.cached)(c, j)
    &&& infos_same_except(a, b, None)
    &&& members_same_except(a, b, None)
    &&& nullifiers_same_except(a, b, None)
}

/// Handling the next id keeps `carried_so_far`: `b` is the groups before
/// and `c` after, with a root added to the cache (`added`) exactly when
/// none was cached and the runtime accepted it.
proof fn lemma_carry_step(a: GroupsView, b: GroupsView, c: GroupsView, block: BlockNumber, ids: Seq<GroupId>, k: int, added: bool)
    requires
        0 <= k < ids.len(),
        carried_so_far(a, b, block, ids, k),
        added ==> (b.cached)(block, ids[k]).len() == 0 && root_cached(b, c, block, ids[k]),
        !added ==> same_groups(b, c),
        !added && (b.cached)(block, ids[k]).len() == 0 ==> (b.info)(ids[k]) is None,
    ensures
        carried_so_far(a, c, block, ids, k + 1),
{
    let id = ids[k];
    let done = ids.take(k);
    let next = ids.take(k + 1);
    assert(next =~= done.push(id));
    assert forall|j: GroupId| next.contains(j) && (a.cached)(block, j).len() > 0 implies #[trigger] (c.cached)(block, j) == (a.cached)(block, j) by {
        if j != id {
            assert(done.contains(j));
        } else if !done.contains(j) {
            assert((b.cached)(block, j) == (a.cached)(block, j));
        }
    }
    assert forall|j: GroupId| next.contains(j) && (a.cached)(block, j).len() == 0 implies #[trigger] (c.cached)(block, j).len() <= 1 by {
        if j != id {
            assert(done.contains(j));
        } else if !done.contains(j) {
            assert((b.cached)(block, j) == (a.cached)(block, j));
        }
    }
    assert forall|j: GroupId| next.contains(j) && (a.cached)(block, j).len() == 0 && (a.info)(j) is Some implies #[trigger] (c.cached)(block, j).len() == 1 by {
        if j != id {
            assert(done.contains(j));
        } else if !done.contains(j) {
            assert((b.cached)(block, j) == (a.cached)(block, j));
        }
        assert((b.info)(j) == (a.info)(j));
    }
    assert forall|d: BlockNumber, j: GroupId| d != block || !next.contains(j) implies #[trigger] (c.cached)(d, j) == (a.cached)(d, j) by {
        if d == block {
            assert(next[k] == id);
            if done.contains(j) {
                let m = choose|m: int| 0 <= m < done.len() && done[m] == j;
                assert(next[m] == done[m]);
            }
            assert(j != id);
        }
        assert((c.cached)(d, j) == (b.cached)(d, j));
    }
}

/// Once every id is handled, the roots are carried as `roots_carried` says.
proof fn lemma_carried_all(a: GroupsView, b: GroupsView, block: BlockNumber, ids: Seq<GroupId>)
    requires
        carried_so_far(a, b, block, ids, ids.len() as int),
    ensures
        roots_carried(a, b, block, ids),
{
    assert(ids.take(ids.len() as int) =~= ids);
    assert forall|m: int| 0 <= m < ids.len() && (a.cached)(block, ids[m]).len() > 0 implies #[trigger] (b.cached)(block, ids[m]) == (a.cached)(block, ids[m]) by {
        assert(ids.contains(ids[m]));
    }
    assert forall|m: int| 0 <= m < ids.len() && (a.cached)(block, ids[m]).len() == 0 && (a.info)(ids[m]) is Some implies #[trigger] (b.cached)(block, ids[m]).len() == 1 by {
        assert(ids.contains(ids[m]));
    }
    assert forall|m: int| 0 <= m < ids.len() && (a.cached)(block, ids[m]).len() == 0 implies #[trigger] (b.cached)(block, ids[m]).len() <= 1 by {
        assert(ids.contains(ids[m]));
    }
}

impl Pallet {
    /// The storage of a mixer that has not been initialised: no mixers, no
    /// value locked, the zero account as admin.
    pub fn new(config: Config) -> (p: Self)
        ensures
            p@ == (PalletView {
                config: config@,
                initialised: false,
                mixer_groups: Map::empty(),
                mixer_group_ids: Seq::empty(),
                admin: 0,
                total_value_locked: Map::empty(),
            }),
    {
        let p = Pallet {
            config,
            initialised: false,
            mixer_groups: HashMap::new(),
            mixer_group_ids: Vec::new(),
            admin: 0,
            total_value_locked: HashMap::new(),
        };
        assert(p@.mixer_groups =~= Map::empty());
        p
    }

    /// Whether the mixer is initialised.
    pub fn initialised(&self) -> (b: bool)
        ensures
            b == self@.initialised,
    {
        self.initialised
    }

    /// The admin account.
    pub fn admin(&self) -> (a: AccountId)
        ensures
            a == self@.admin,
    {
        self.admin
    }

    /// The mixer's own account, which holds the deposits.
    pub fn account_id(&self) -> (a: AccountId)
        ensures
            a == module_account_of(self@.config.module_id),
    {
        module_account(self.config.module_id)
    }

    /// The record of mixer `id`, or the empty record where there is none.
    pub fn mixer_groups(&self, id: GroupId) -> (m: MixerInfo)
        ensures
            m@ == self@.mixer(id),
    {
        match self.mixer_groups.get(&id) {
            Some(m) => m.clone(),
            None => MixerInfo::default(),
        }
    }

    /// The ids of the mixer groups, in the order they were created.
    pub fn mixer_group_ids(&self) -> (ids: Vec<GroupId>)
        ensures
            ids@ == self@.mixer_group_ids,
    {
        self.mixer_group_ids.clone()
    }

    /// The value locked in mixer `id`.
    pub fn total_value_locked(&self, id: GroupId) -> (v: Balance)
        ensures
            v == self@.tvl(id),
    {
        match self.total_value_locked.get(&id) {
            Some(v) => *v,
            None => 0,
        }
    }

    /// The record of mixer `id`, where it exists: where its deposit size is
    /// zero there is no such mixer.
    pub fn get_mixer(&self, id: GroupId) -> (r: Result<MixerInfo, DispatchError>)
        ensures
            r is Ok <==> self@.has_mixer(id),
            r is Ok <==> self@.mixer(id).fixed_deposit_size > 0,
            r matches Ok(m) ==> m@ == self@.mixer(id),
            r is Err ==> r == Err::<MixerInfo, DispatchError>(DispatchError::Module(Error::NoMixerForId)),
    {
        let mixer_info = self.mixer_groups(id);
        if !(mixer_info.fixed_deposit_size > 0) {
            return Err(DispatchError::Module(Error::NoMixerForId));
        }
        Ok(mixer_info)
    }

    /// Hands the admin role to `to`. Only the root origin or the current
    /// admin may; anyone else is refused with `BadOrigin`.
    pub fn transfer_admin(&mut self, origin: Origin, to: AccountId) -> (r: Result<(), DispatchError>)
        ensures
            r is Ok <==> is_admin_origin(origin, old(self)@.admin),
            r is Ok ==> final(self)@ == with_admin(old(self)@, to),
            r is Err ==> r == Err::<(), DispatchError>(DispatchError::BadOrigin) && final(self)@ == old(self)@,
    {
        ensure_admin(origin, self.admin)?;
        self.admin = to;
        Ok(())
    }

    /// Deposits the fixed amount into the mixer `mixer_id` once for each of
    /// `data_points`: the signer pays the mixer's account, the value locked
    /// grows, and the leaves go to the mixer's record and to its Merkle
    /// group. Refused, with nothing changed, when the call is not signed,
    /// the mixer is not initialised or is stopped, there is no such mixer,
    /// or the signer cannot pay. The currency may refuse the payment, which
    /// then changes nothing; the Merkle groups may refuse the leaves after
    /// the payment, and then the payment and the larger value locked stay.
    /// A refusal of either is returned as it is.
    pub fn deposit<C: Currency, G: Group>(
        &mut self,
        currency: &mut C,
        group: &mut G,
        origin: Origin,
        mixer_id: GroupId,
        data_points: Vec<ScalarData>,
    ) -> (r: Result<(), DispatchError>)
        requires
            signer(origin) is Some && old(self)@.initialised && !groups_of(*old(group)).is_stopped(
                mixer_id,
            ) && old(self)@.has_mixer(mixer_id) ==> {
                let total = deposit_total(
                    data_points@.len(),
                    old(self)@.mixer(mixer_id).fixed_deposit_size,
                );
                &&& total <= u64::MAX
                &&& old(currency).balance_of(signer(origin).unwrap()) >= total && old(
                    currency,
                ).transfer_result(
                    signer(origin).unwrap(),
                    module_account_of(old(self)@.config.module_id),
                    total as Balance,
                ) is Ok ==> old(self)@.tvl(mixer_id) + total <= u64::MAX
            },
        ensures
            ({
                let s = old(self)@;
                let sender = signer(origin).unwrap();
                let account = module_account_of(s.config.module_id);
                let total = deposit_total(data_points@.len(), s.mixer(mixer_id).fixed_deposit_size);
                let go = groups_of(*old(group));
                let gf = groups_of(*final(group));
                let co = balances_of(*old(currency));
                let cf = balances_of(*final(currency));
                let untouched = final(self)@ == s && *final(currency) == *old(currency) && *final(group)
                    == *old(group);
                let checks_pass = signer(origin) is Some && s.initialised && !go.is_stopped(mixer_id)
                    && s.has_mixer(mixer_id) && co(sender) >= total;
                let paid = old(currency).transfer_result(sender, account, total as Balance);
                let added = old(group).add_members_result(account, mixer_id, data_points);
                &&& signer(origin) is None ==> r == Err::<(), DispatchError>(DispatchError::BadOrigin)
                    && untouched
                &&& signer(origin) is Some && !s.initialised ==> r == Err::<(), DispatchError>(
                    DispatchError::Module(Error::NotInitialised),
                ) && untouched
                &&& signer(origin) is Some && s.initialised && go.is_stopped(mixer_id) ==> r == Err::<
                    (),
                    DispatchError,
                >(DispatchError::Module(Error::MixerStopped)) && untouched
                &&& signer(origin) is Some && s.initialised && !go.is_stopped(mixer_id) && !s.has_mixer(
                    mixer_id,
                ) ==> r == Err::<(), DispatchError>(DispatchError::Module(Error::NoMixerForId))
                    && untouched
                &&& signer(origin) is Some && s.initialised && !go.is_stopped(mixer_id) && s.has_mixer(
                    mixer_id,
                ) && co(sender) < total ==> r == Err::<(), DispatchError>(
                    DispatchError::Module(Error::InsufficientBalance),
                ) && untouched
                &&& checks_pass && paid is Err ==> r == paid && untouched
                &&& checks_pass && paid is Ok && added is Err ==> {
                    &&& r == added
                    &&& final(self)@ == credited(s, mixer_id, total as Balance)
                    &&& transferred(co, cf, sender, account, total as Balance)
                    &&& *final(group) == *old(group)
                }
                &&& checks_pass && paid is Ok && added is Ok ==> {
                    &&& r is Ok
                    &&& final(self)@ == after_deposit(s, mixer_id, data_points@)
                    &&& transferred(co, cf, sender, account, total as Balance)
                    &&& members_added(go, gf, account, mixer_id, data_points@)
                }
                &&& r is Ok ==> checks_pass && paid is Ok && added is Ok
            }),
    {
        let sender = ensure_signed(origin)?;
        if !self.initialised {
            return Err(DispatchError::Module(Error::NotInitialised));
        }
        ensure_running(group.stopped(mixer_id))?;
        // the mixer's record; it exists whenever the mixer is initialised
        let mut mixer_info = self.get_mixer(mixer_id)?;
        let balance = currency.free_balance(sender);
        let deposit = deposit_amount(mixer_info.fixed_deposit_size, data_points.len(), balance)?;
        let account = self.account_id();
        currency.transfer(sender, account, deposit)?;
        let tvl = self.total_value_locked(mixer_id);
        self.total_value_locked.insert(mixer_id, tvl + deposit);
        proof {
            assert(self@.total_value_locked =~= credited(old(self)@, mixer_id, deposit).total_value_locked);
        }
        let ghost credited_state = self@;
        let mut points = data_points.clone();
        group.add_members(account, mixer_id, data_points)?;
        proof {
            assert(points@ == data_points@);
        }
        mixer_info.leaves.append(&mut points);
        self.mixer_groups.insert(mixer_id, mixer_info);
        proof {
            assert(self@.mixer_groups =~= with_leaves(credited_state, mixer_id, data_points@).mixer_groups);
        }
        Ok(())
    }

    /// Pays one fixed deposit of mixer `mixer_id` out of the mixer's
    /// account to the signer, given an unspent nullifier hash and a
    /// zero-knowledge proof of membership in its tree that verifies; the
    /// nullifier hash is then spent. Refused, with nothing changed, when the
    /// call is not signed, the mixer is not initialised or is stopped, the
    /// nullifier hash is spent, or the proof does not verify (the Merkle
    /// groups' refusal is returned as it is). The currency may refuse the
    /// payout, which then changes nothing; the Merkle groups may refuse to
    /// spend the nullifier after the payout, and then the payout and the
    /// smaller value locked stay. A refusal of either is returned as it is.
    pub fn withdraw<C: Currency, G: Group>(
        &mut self,
        currency: &mut C,
        group: &mut G,
        origin: Origin,
        mixer_id: GroupId,
        cached_block: BlockNumber,
        cached_root: ScalarData,
        comms: Vec<Commitment>,
        nullifier_hash: ScalarData,
        proof_bytes: Vec<u8>,
        leaf_index_commitments: Vec<Commitment>,
        proof_commitments: Vec<Commitment>,
    ) -> (r: Result<(), DispatchError>)
        requires
            signer(origin) is Some && old(self)@.initialised && !groups_of(*old(group)).is_stopped(
                mixer_id,
            ) && old(group).nullifier_check(mixer_id, nullifier_hash) is Ok && old(group).proof_check(
                mixer_id,
                cached_block,
                cached_root,
                comms,
                nullifier_hash,
                proof_bytes,
                leaf_index_commitments,
                proof_commitments,
            ) is Ok && old(currency).transfer_result(
                module_account_of(old(self)@.config.module_id),
                signer(origin).unwrap(),
                old(self)@.mixer(mixer_id).fixed_deposit_size,
            ) is Ok ==> old(self)@.tvl(mixer_id) >= old(self)@.mixer(mixer_id).fixed_deposit_size,
        ensures
            ({
                let s = old(self)@;
                let sender = signer(origin).unwrap();
                let account = module_account_of(s.config.module_id);
                let size = s.mixer(mixer_id).fixed_deposit_size;
                let go = groups_of(*old(group));
                let gf = groups_of(*final(group));
                let co = balances_of(*old(currency));
                let cf = balances_of(*final(currency));
                let running = signer(origin) is Some && s.initialised && !go.is_stopped(mixer_id);
                let unspent = old(group).nullifier_check(mixer_id, nullifier_hash);
                let proven = old(group).proof_check(
                    mixer_id,
                    cached_block,
                    cached_root,
                    comms,
                    nullifier_hash,
                    proof_bytes,
                    leaf_index_commitments,
                    proof_commitments,
                );
                let paid = old(currency).transfer_result(account, sender, size);
                let spent = old(group).add_nullifier_result(account, mixer_id, nullifier_hash);
                let untouched = final(self)@ == s && *final(currency) == *old(currency) && *final(group)
                    == *old(group);
                &&& signer(origin) is None ==> r == Err::<(), DispatchError>(DispatchError::BadOrigin)
                    && untouched
                &&& signer(origin) is Some && !s.initialised ==> r == Err::<(), DispatchError>(
                    DispatchError::Module(Error::NotInitialised),
                ) && untouched
                &&& signer(origin) is Some && s.initialised && go.is_stopped(mixer_id) ==> r == Err::<
                    (),
                    DispatchError,
                >(DispatchError::Module(Error::MixerStopped)) && untouched
                &&& running && (go.used)(mixer_id, nullifier_hash) ==> unspent is Err && r == unspent
                    && untouched
                &&& running && unspent is Err ==> r == unspent && untouched
                &&& running && unspent is Ok && proven is Err ==> r == proven && untouched
                &&& running && unspent is Ok && proven is Ok && paid is Err ==> r == paid && untouched
                &&& running && unspent is Ok && proven is Ok && paid is Ok && spent is Err ==> {
                    &&& r == spent
                    &&& final(self)@ == after_withdraw(s, mixer_id)
                    &&& transferred(co, cf, account, sender, size)
                    &&& *final(group) == *old(group)
                }
                &&& running && unspent is Ok && proven is Ok && paid is Ok && spent is Ok ==> {
                    &&& r is Ok
                    &&& !(go.used)(mixer_id, nullifier_hash)
                    &&& final(self)@ == after_withdraw(s, mixer_id)
                    &&& transferred(co, cf, account, sender, size)
                    &&& nullifier_added(go, gf, account, mixer_id, nullifier_hash)
                }
                &&& r is Ok ==> running && unspent is Ok && proven is Ok && paid is Ok && spent is Ok
            }),
    {
        let sender = ensure_signed(origin)?;
        if !self.initialised {
            return Err(DispatchError::Module(Error::NotInitialised));
        }
        ensure_running(group.stopped(mixer_id))?;
        let mixer_info = self.mixer_groups(mixer_id);
        // the nullifier must not have been used
        group.has_used_nullifier(mixer_id, nullifier_hash)?;
        group.verify_zk_membership_proof(
            mixer_id,
            cached_block,
            cached_root,
            comms,
            nullifier_hash,
            proof_bytes,
            leaf_index_commitments,
            proof_commitments,
        )?;
        let account = self.account_id();
        currency.transfer(account, sender, mixer_info.fixed_deposit_size)?;
        let tvl = self.total_value_locked(mixer_id);
        self.total_value_locked.insert(mixer_id, tvl - mixer_info.fixed_deposit_size);
        proof {
            assert(self@.total_value_locked =~= after_withdraw(old(self)@, mixer_id).total_value_locked);
        }
        group.add_nullifier(account, mixer_id, nullifier_hash)?;
        Ok(())
    }

    /// Stops or restarts every mixer: each mixer's Merkle group is set
    /// stopped as `stopped` says, by the mixer's account. Only the root
    /// origin or the admin may; anyone else is refused with `BadOrigin` and
    /// nothing changes. The Merkle groups may refuse for a mixer, which
    /// ends the call there.
    pub fn set_stopped<G: Group>(&self, group: &mut G, origin: Origin, stopped: bool) -> (r: Result<(), DispatchError>)
        ensures
            !is_admin_origin(origin, self@.admin) ==> r == Err::<(), DispatchError>(DispatchError::BadOrigin)
                && *final(group) == *old(group),
            is_admin_origin(origin, self@.admin) && self@.mixer_group_ids.len() == 0 ==> r == Ok::<
                (),
                DispatchError,
            >(()) && *final(group) == *old(group),
            r is Ok ==> is_admin_origin(origin, self@.admin) && all_stopped(
                groups_of(*old(group)),
                groups_of(*final(group)),
                module_account_of(self@.config.module_id),
                self@.mixer_group_ids,
                stopped,
            ),
            r is Ok ==> forall|i: int|
                0 <= i < self@.mixer_group_ids.len() ==> groups_of(*final(group)).is_stopped(
                    #[trigger] self@.mixer_group_ids[i],
                ) == stopped,
            r is Err && is_admin_origin(origin, self@.admin) ==> exists|k: int|
                0 <= k < self@.mixer_group_ids.len() && all_stopped(
                    groups_of(*old(group)),
                    groups_of(*final(group)),
                    module_account_of(self@.config.module_id),
                    #[trigger] self@.mixer_group_ids.take(k),
                    stopped,
                ) && final(group).set_stopped_result(
                    module_account_of(self@.config.module_id),
                    self@.mixer_group_ids[k],
                    stopped,
                ) == r,
    {
        ensure_admin(origin, self.admin)?;
        let account = self.account_id();
        let n = self.mixer_group_ids.len();
        let ghost ids = self@.mixer_group_ids;
        let ghost g0 = groups_of(*group);
        let mut i: usize = 0;
        proof {
            assert(ids.take(0) =~= Seq::<GroupId>::empty());
        }
        while i < n
            invariant
                i <= n,
                n == ids.len(),
                ids == self@.mixer_group_ids,
                account == module_account_of(self@.config.module_id),
                is_admin_origin(origin, self@.admin),
                g0 == groups_of(*old(group)),
                all_stopped(g0, groups_of(*group), account, ids.take(i as int), stopped),
                i == 0 ==> *group == *old(group),
            decreases n - i,
        {
            let id = self.mixer_group_ids[i];
            let res = group.set_stopped(account, id, stopped);
            proof {
                let after = groups_of(*group);
                let done = ids.take(i as int);
                let next = ids.take(i + 1);
                assert(next =~= done.push(id));
                if res is Ok {
                    assert forall|j: GroupId| #[trigger] next.contains(j) implies (after.info)(j) == Some(
                        GroupInfo { stopped, ..(g0.info)(j).unwrap() },
                    ) by {
                        if j != id {
                            assert(done.contains(j));
                        }
                    }
                    assert forall|j: GroupId| !#[trigger] next.contains(j) implies (after.info)(j) == (g0.info)(j) by {
                        assert(next[i as int] == id);
                        if done.contains(j) {
                            let m = choose|m: int| 0 <= m < done.len() && done[m] == j;
                            assert(next[m] == done[m]);
                        }
                    }
                    assert forall|m: int| 0 <= m < next.len() implies g0.may_manage(account, #[trigger] next[m]) by {
                        if m < i {
                            assert(next[m] == done[m]);
                        }
                    }
                    assert(all_stopped(g0, after, account, next, stopped));
                } else {
                    assert(all_stopped(g0, after, account, done, stopped));
                }
            }
            if res.is_err() {
                proof {
                    assert(i < n);
                }
                return res;
            }
            i = i + 1;
        }
        proof {
            assert(ids.take(n as int) =~= ids);
            assert forall|m: int| 0 <= m < ids.len() implies groups_of(*group).is_stopped(#[trigger] ids[m]) == stopped by {
                assert(ids.contains(ids[m]));
                assert(g0.may_manage(account, ids[m]));
            }
        }
        Ok(())
    }

    /// Sets up one mixer per configured deposit size, each with a fresh
    /// Merkle group of the configured depth, managed by the mixer's account
    /// (and requiring it), and installs the default admin. Refused, with
    /// nothing changed, once the mixer is initialised; where the Merkle
    /// groups refuse to create a group, the call ends there with the
    /// mixers made so far registered but nothing marked initialised.
    pub fn initialize<G: Group>(&mut self, group: &mut G) -> (r: Result<(), DispatchError>)
        ensures
            old(self)@.initialised ==> r == Err::<(), DispatchError>(
                DispatchError::Module(Error::AlreadyInitialised),
            ) && final(self)@ == old(self)@ && *final(group) == *old(group),
            r is Ok ==> !old(self)@.initialised && initialised_fully(
                old(self)@,
                final(self)@,
                groups_of(*old(group)),
                groups_of(*final(group)),
            ),
            !old(self)@.initialised && r is Err ==> initialised_partly(
                old(self)@,
                final(self)@,
                groups_of(*old(group)),
                groups_of(*final(group)),
            ) && (final(group).create_group_result(
                module_account_of(old(self)@.config.module_id),
                true,
                old(self)@.config.max_mixer_tree_depth,
            ) matches Err(e) && r == Err::<(), DispatchError>(e)),
    {
        if self.initialised {
            return Err(DispatchError::Module(Error::AlreadyInitialised));
        }
        // the default admin from the configuration
        self.admin = self.config.default_admin;
        let depth = self.config.max_mixer_tree_depth;
        let account = self.account_id();
        let deposit_length = self.config.deposit_length;
        let n = self.config.mixer_sizes.len();
        let ghost g0 = groups_of(*group);
        let mut mixer_ids: Vec<GroupId> = Vec::new();
        let mut i: usize = 0;
        proof {
            assert(self@ == with_registered(old(self)@, mixer_ids@));
            assert(groups_made(g0, groups_of(*group), account, depth, mixer_ids@));
        }
        while i < n
            invariant
                i <= n,
                n == old(self)@.config.mixer_sizes.len(),
                !old(self)@.initialised,
                mixer_ids@.len() == i,
                depth == old(self)@.config.max_mixer_tree_depth,
                account == module_account_of(old(self)@.config.module_id),
                deposit_length == old(self)@.config.deposit_length,
                self@ == with_registered(old(self)@, mixer_ids@),
                g0 == groups_of(*old(group)),
                groups_made(g0, groups_of(*group), account, depth, mixer_ids@),
            decreases n - i,
        {
            let size = self.config.mixer_sizes[i];
            let ghost before = groups_of(*group);
            let mixer_id = match group.create_group(account, true, depth) {
                Ok(id) => id,
                Err(e) => {
                    proof {
                        let after = groups_of(*group);
                        assert(groups_made(g0, after, account, depth, mixer_ids@));
                        assert(initialised_partly(old(self)@, self@, g0, after)) by {
                            assert(mixer_ids@.len() < old(self)@.config.mixer_sizes.len());
                        }
                    }
                    return Err(e);
                },
            };
            let mixer_info = MixerInfo {
                fixed_deposit_size: size,
                minimum_deposit_length_for_reward: deposit_length,
                leaves: Vec::new(),
            };
            let ghost prev_ids = mixer_ids@;
            self.mixer_groups.insert(mixer_id, mixer_info);
            mixer_ids.push(mixer_id);
            proof {
                let after = groups_of(*group);
                let ids = mixer_ids@;
                assert(ids.drop_last() =~= prev_ids);
                assert(self@.mixer_groups =~= with_registered(old(self)@, ids).mixer_groups);
                // the new id is fresh: it had no group before, unlike the earlier ones
                assert(!prev_ids.contains(mixer_id)) by {
                    if prev_ids.contains(mixer_id) {
                        let m = choose|m: int| 0 <= m < prev_ids.len() && prev_ids[m] == mixer_id;
                        assert((before.info)(prev_ids[m]) is Some);
                    }
                }
                assert(ids =~= prev_ids.push(mixer_id));
                assert forall|m: int| 0 <= m < ids.len() implies (g0.info)(#[trigger] ids[m]) is None by {
                    if m < prev_ids.len() {
                        assert(ids[m] == prev_ids[m]);
                    }
                }
                assert forall|m: int| 0 <= m < ids.len() implies (after.info)(#[trigger] ids[m]) == Some(
                    GroupInfo { manager: account, manager_required: true, depth, stopped: false },
                ) by {
                    if m < prev_ids.len() {
                        assert(ids[m] == prev_ids[m]);
                    }
                }
                assert forall|m: int| 0 <= m < ids.len() implies (after.members)(#[trigger] ids[m])
                    == Seq::<ScalarData>::empty() by {
                    if m < prev_ids.len() {
                        assert(ids[m] == prev_ids[m]);
                    }
                }
                assert forall|j: GroupId, h: ScalarData| ids.contains(j) implies !#[trigger] (after.used)(j, h) by {
                    if j != mixer_id {
                        assert(prev_ids.contains(j));
                    }
                }
                assert forall|j: GroupId| !ids.contains(j) implies #[trigger] (after.info)(j) == (g0.info)(j) by {
                    assert(!prev_ids.contains(j));
                }
                assert forall|j: GroupId| !ids.contains(j) implies #[trigger] (after.members)(j) == (g0.members)(j) by {
                    assert(!prev_ids.contains(j));
                }
                assert forall|j: GroupId, h: ScalarData| !ids.contains(j) implies #[trigger] (after.used)(j, h)
                    == (g0.used)(j, h) by {
                    assert(!prev_ids.contains(j));
                }
                assert(groups_made(g0, after, account, depth, ids));
            }
            i = i + 1;
        }
        let ghost ids = mixer_ids@;
        let ghost registered_state = self@;
        self.mixer_group_ids = mixer_ids;
        self.initialised = true;
        proof {
            assert(self@ == PalletView {
                initialised: true,
                mixer_group_ids: ids,
                ..registered_state
            });
        }
        Ok(())
    }

    /// The weight the end of this block will take: initialising the mixer
    /// while it is not initialised, carrying Merkle roots forward once it is.
    pub fn on_initialize<W: WeightInfo>(&self, weights: &W, _n: BlockNumber) -> (w: Weight)
        ensures
            w == (if self@.initialised {
                weights.on_finalize_initialized_weight()
            } else {
                weights.on_finalize_uninitialized_weight()
            }),
    {
        if self.initialised {
            weights.on_finalize_initialized()
        } else {
            weights.on_finalize_uninitialized()
        }
    }

    /// At the end of block `n`: once the mixer is initialised, carries the
    /// current root of each mixer's tree forward into the cache of this
    /// block where no deposit cached one; before that, initialises the
    /// mixer, which stays uninitialised (to be tried again at the next
    /// block) only where the Merkle groups refused to create a group; that
    /// error is dropped.
    pub fn on_finalize<G: Group>(&mut self, group: &mut G, n: BlockNumber)
        ensures
            old(self)@.initialised ==> final(self)@ == old(self)@ && roots_carried(
                groups_of(*old(group)),
                groups_of(*final(group)),
                n,
                old(self)@.mixer_group_ids,
            ),
            !old(self)@.initialised && final(self)@.initialised ==> initialised_fully(
                old(self)@,
                final(self)@,
                groups_of(*old(group)),
                groups_of(*final(group)),
            ),
            !old(self)@.initialised && !final(self)@.initialised ==> initialised_partly(
                old(self)@,
                final(self)@,
                groups_of(*old(group)),
                groups_of(*final(group)),
            ) && final(group).create_group_result(
                module_account_of(old(self)@.config.module_id),
                true,
                old(self)@.config.max_mixer_tree_depth,
            ) is Err,
    {
        if self.initialised {
            let count = self.mixer_group_ids.len();
            let ghost ids = self@.mixer_group_ids;
            let ghost g0 = groups_of(*group);
            let mut i: usize = 0;
            while i < count
                invariant
                    i <= count,
                    count == ids.len(),
                    ids == self@.mixer_group_ids,
                    self@ == old(self)@,
                    g0 == groups_of(*old(group)),
                    carried_so_far(g0, groups_of(*group), n, ids, i as int),
                decreases count - i,
            {
                let id = self.mixer_group_ids[i];
                let ghost before = groups_of(*group);
                let cached_roots = group.cached_roots(n, id);
                // with no roots cached at this block, carry the current root forward
                if cached_roots.len() == 0 {
                    let res = group.add_root_to_cache(id, n);
                    proof {
                        lemma_carry_step(g0, before, groups_of(*group), n, ids, i as int, res is Ok);
                    }
                } else {
                    proof {
                        lemma_carry_step(g0, before, before, n, ids, i as int, false);
                    }
                }
                i = i + 1;
            }
            proof {
                lemma_carried_all(g0, groups_of(*group), n, ids);
            }
        } else {
            match self.initialize(group) {
                Ok(_) => {},
                Err(_) => {},
            }
        }
    }
}

} // verus!
