//! What holds of the mixer across calls: how deposits and withdrawals move
//! the value locked, what they leave untouched, who holds the admin role,
//! and what initialisation sets up.

use vstd::prelude::*;
use crate::pallet::{
    after_deposit, after_withdraw, all_stopped, deposit_total, groups_made, initialised_fully,
    module_account_of, registered, roots_carried, with_admin, PalletView,
};
use crate::services::{members_added, nullifier_added, root_cached, same_groups, GroupInfo, GroupsView};
use crate::types::{is_admin_origin, signer, AccountId, Balance, BlockNumber, GroupId, MixerInfoView, Origin, ScalarData};

verus! {

/// The storage after `count` withdrawals from mixer `id`.
pub open spec fn after_withdrawals(s: PalletView, id: GroupId, count: nat) -> PalletView
    decreases count,
{
    if count == 0 {
        s
    } else {
        after_withdraw(after_withdrawals(s, id, (count - 1) as nat), id)
    }
}

/// A deposit changes only the mixer it goes into: its value locked grows by
/// the deposit size once per leaf, its leaves are the old leaves followed by
/// the new ones, and its deposit size and minimum length stay. Every other
/// mixer, the group ids, the admin and the initialisation flag stay as they
/// were.
pub proof fn lemma_deposit_is_local(s: PalletView, id: GroupId, points: Seq<ScalarData>, other: GroupId)
    requires
        other != id,
        s.tvl(id) + deposit_total(points.len(), s.mixer(id).fixed_deposit_size) <= u64::MAX,
    ensures
        after_deposit(s, id, points).tvl(id) == s.tvl(id) + points.len() * s.mixer(id).fixed_deposit_size,
        after_deposit(s, id, points).mixer(id).leaves == s.mixer(id).leaves + points,
        after_deposit(s, id, points).mixer(id).leaves.subrange(0, s.mixer(id).leaves.len() as int)
            == s.mixer(id).leaves,
        after_deposit(s, id, points).mixer(id).fixed_deposit_size == s.mixer(id).fixed_deposit_size,
        after_deposit(s, id, points).mixer(id).minimum_deposit_length_for_reward
            == s.mixer(id).minimum_deposit_length_for_reward,
        after_deposit(s, id, points).mixer(other) == s.mixer(other),
        after_deposit(s, id, points).tvl(other) == s.tvl(other),
        after_deposit(s, id, points).mixer_group_ids == s.mixer_group_ids,
        after_deposit(s, id, points).admin == s.admin,
        after_deposit(s, id, points).initialised == s.initialised,
        after_deposit(s, id, points).config == s.config,
{
    let a = after_deposit(s, id, points);
    assert(a.mixer(id).leaves.subrange(0, s.mixer(id).leaves.len() as int) =~= s.mixer(id).leaves);
}

/// A withdrawal changes only the value locked in its own mixer, which
/// falls by the deposit size; every mixer record, every other mixer's value
/// and the rest of the storage stay.
pub proof fn lemma_withdraw_is_local(s: PalletView, id: GroupId, other: GroupId)
    requires
        other != id,
        s.tvl(id) >= s.mixer(id).fixed_deposit_size,
    ensures
        after_withdraw(s, id).tvl(id) == s.tvl(id) - s.mixer(id).fixed_deposit_size,
        after_withdraw(s, id).mixer_groups == s.mixer_groups,
        after_withdraw(s, id).tvl(other) == s.tvl(other),
        after_withdraw(s, id).mixer_group_ids == s.mixer_group_ids,
        after_withdraw(s, id).admin == s.admin,
        after_withdraw(s, id).initialised == s.initialised,
{
}

/// The value locked in a mixer accounts for its deposits and withdrawals:
/// after `points` are deposited and `count` deposits withdrawn again, it
/// has grown by the deposit size times the number of leaves left in. In
/// particular, withdrawing as many deposits as were made gives back the
/// value locked before.
pub proof fn lemma_value_locked_accounts(s: PalletView, id: GroupId, points: Seq<ScalarData>, count: nat)
    requires
        count <= points.len(),
        s.tvl(id) + deposit_total(points.len(), s.mixer(id).fixed_deposit_size) <= u64::MAX,
    ensures
        after_withdrawals(after_deposit(s, id, points), id, count).tvl(id) == s.tvl(id) + (
        points.len() - count) * s.mixer(id).fixed_deposit_size,
        after_withdrawals(after_deposit(s, id, points), id, count).mixer(id)
            == after_deposit(s, id, points).mixer(id),
        count == points.len() ==> after_withdrawals(after_deposit(s, id, points), id, count).tvl(id)
            == s.tvl(id),
    decreases count,
{
    let d = after_deposit(s, id, points);
    let size = s.mixer(id).fixed_deposit_size;
    if count > 0 {
        lemma_value_locked_accounts(s, id, points, (count - 1) as nat);
        let prev = after_withdrawals(d, id, (count - 1) as nat);
        assert(prev.tvl(id) == s.tvl(id) + (points.len() - (count - 1)) * size);
        assert((points.len() - (count - 1)) * size == (points.len() - count) * size + size)
            by (nonlinear_arith);
        assert((points.len() - count) * size >= 0) by (nonlinear_arith)
            requires
                count <= points.len(),
        ;
    }
    if count == points.len() {
        assert((points.len() - count) * size == 0) by (nonlinear_arith)
            requires
                count == points.len(),
        ;
    }
}

/// Handing over the admin role takes it from the old admin and gives it to
/// the new one: after a handover to `to`, the signature of `to` is accepted
/// as admin and that of any other account is not; the root origin keeps it.
pub proof fn lemma_admin_handover(s: PalletView, to: AccountId, someone: AccountId)
    requires
        someone != to,
    ensures
        is_admin_origin(Origin::Signed(to), with_admin(s, to).admin),
        !is_admin_origin(Origin::Signed(someone), with_admin(s, to).admin),
        is_admin_origin(Origin::Root, with_admin(s, to).admin),
        !is_admin_origin(Origin::Unsigned, with_admin(s, to).admin),
{
}

/// After an initialisation that went through, the mixer is marked
/// initialised (so another initialisation is refused), the default admin
/// holds the role, there is one group id per configured size, all distinct,
/// the i-th id is the i-th group created during the initialisation, and it
/// leads both to a mixer with the i-th configured size, the
/// configured minimum length and no leaves, and to a fresh Merkle group
/// managed by the mixer's account at the configured depth. Nothing is
/// locked by initialising.
pub proof fn lemma_initialised_mixers(old: PalletView, new: PalletView, ga: GroupsView, gb: GroupsView, i: int)
    requires
        initialised_fully(old, new, ga, gb),
        0 <= i < new.mixer_group_ids.len(),
    ensures
        new.initialised,
        new.admin == old.config.default_admin,
        new.mixer_group_ids.len() == old.config.mixer_sizes.len(),
        new.mixer_group_ids.no_duplicates(),
        new.total_value_locked == old.total_value_locked,
        new.mixer(new.mixer_group_ids[i]) == (MixerInfoView {
            minimum_deposit_length_for_reward: old.config.deposit_length,
            fixed_deposit_size: old.config.mixer_sizes[i],
            leaves: Seq::empty(),
        }),
        (ga.info)(new.mixer_group_ids[i]) is None,
        (gb.info)(new.mixer_group_ids[i]) == Some(GroupInfo {
            manager: module_account_of(old.config.module_id),
            manager_required: true,
            depth: old.config.max_mixer_tree_depth,
            stopped: false,
        }),
        gb.created.len() == ga.created.len() + new.mixer_group_ids.len(),
        gb.created[ga.created.len() + i] == new.mixer_group_ids[i],
{
    lemma_registered_lookup(
        old.mixer_groups,
        new.mixer_group_ids,
        old.config.mixer_sizes,
        old.config.deposit_length,
        i,
    );
}

/// No double spending: once a withdrawal has spent a nullifier hash in a
/// mixer's group, that hash counts as spent there, and `withdraw` refuses
/// every later withdrawal that presents it, changing nothing.
pub proof fn lemma_no_double_spending(a: GroupsView, b: GroupsView, sender: AccountId, id: GroupId, nullifier_hash: ScalarData)
    requires
        nullifier_added(a, b, sender, id, nullifier_hash),
    ensures
        (b.used)(id, nullifier_hash),
        forall|h: ScalarData| (a.used)(id, h) ==> #[trigger] (b.used)(id, h),
{
}

/// Stopping the mixers stops every one of them: after `set_stopped` with
/// `true` went through, each mixer's group is stopped, so `deposit` and
/// `withdraw` refuse it with `MixerStopped`; restarting undoes that.
pub proof fn lemma_stopping_blocks(a: GroupsView, b: GroupsView, sender: AccountId, ids: Seq<GroupId>, stopped: bool, i: int)
    requires
        all_stopped(a, b, sender, ids, stopped),
        0 <= i < ids.len(),
    ensures
        b.is_stopped(ids[i]) == stopped,
{
    assert(ids.contains(ids[i]));
    assert(a.may_manage(sender, ids[i]));
}

/// Registering mixers under distinct ids gives the i-th id the i-th size.
pub proof fn lemma_registered_lookup(
    groups: Map<GroupId, MixerInfoView>,
    ids: Seq<GroupId>,
    sizes: Seq<Balance>,
    deposit_length: BlockNumber,
    i: int,
)
    requires
        ids.no_duplicates(),
        0 <= i < ids.len(),
        ids.len() <= sizes.len(),
    ensures
        registered(groups, ids, sizes, deposit_length).contains_key(ids[i]),
        registered(groups, ids, sizes, deposit_length)[ids[i]] == (MixerInfoView {
            minimum_deposit_length_for_reward: deposit_length,
            fixed_deposit_size: sizes[i],
            leaves: Seq::empty(),
        }),
    decreases ids.len(),
{
    if i < ids.len() - 1 {
        let prefix = ids.drop_last();
        assert(prefix.no_duplicates());
        assert(prefix[i] == ids[i]);
        assert(ids[i] != ids.last());
        lemma_registered_lookup(groups, prefix, sizes, deposit_length, i);
    }
}

/// Whatever a group's transition is, as the calls of the mixer make them:
/// leaves added, a nullifier spent, a root cached or carried, fresh groups
/// made, or nothing changed.
pub open spec fn kept_by_calls(a: GroupsView, b: GroupsView) -> bool {
    ||| exists|sender: AccountId, id: GroupId, members: Seq<ScalarData>| members_added(a, b, sender, id, members)
    ||| exists|sender: AccountId, id: GroupId, h: ScalarData| nullifier_added(a, b, sender, id, h)
    ||| exists|block: BlockNumber, id: GroupId| root_cached(a, b, block, id)
    ||| exists|block: BlockNumber, ids: Seq<GroupId>| roots_carried(a, b, block, ids)
    ||| exists|manager: AccountId, depth: u8, ids: Seq<GroupId>| groups_made(a, b, manager, depth, ids)
    ||| same_groups(a, b)
}

/// A stop lasts: a stopped group stays stopped through every change that
/// the mixer's calls other than `set_stopped` make to the groups, so
/// deposits and withdrawals stay refused until the admin restarts it.
pub proof fn lemma_stop_persists(a: GroupsView, b: GroupsView, id: GroupId)
    requires
        a.is_stopped(id),
        kept_by_calls(a, b),
    ensures
        b.is_stopped(id),
{
    if exists|manager: AccountId, depth: u8, ids: Seq<GroupId>| groups_made(a, b, manager, depth, ids) {
        let (manager, depth, ids) = choose|manager: AccountId, depth: u8, ids: Seq<GroupId>|
            groups_made(a, b, manager, depth, ids);
        if ids.contains(id) {
            let m = choose|m: int| 0 <= m < ids.len() && ids[m] == id;
            assert((a.info)(ids[m]) is None);
        }
    }
}

/// A spent nullifier stays spent: through every change that the mixer's
/// calls make to the groups, and through stopping or restarting, a
/// nullifier hash spent in an existing group stays spent, so `withdraw`
/// keeps refusing it.
pub proof fn lemma_spent_nullifier_persists(a: GroupsView, b: GroupsView, id: GroupId, h: ScalarData)
    requires
        (a.info)(id) is Some,
        (a.used)(id, h),
        kept_by_calls(a, b) || exists|sender: AccountId, ids: Seq<GroupId>, stopped: bool|
            all_stopped(a, b, sender, ids, stopped),
    ensures
        (b.used)(id, h),
{
    if exists|manager: AccountId, depth: u8, ids: Seq<GroupId>| groups_made(a, b, manager, depth, ids) {
        let (manager, depth, ids) = choose|manager: AccountId, depth: u8, ids: Seq<GroupId>|
            groups_made(a, b, manager, depth, ids);
        if ids.contains(id) {
            let m = choose|m: int| 0 <= m < ids.len() && ids[m] == id;
            assert((a.info)(ids[m]) is None);
        }
    }
}

/// The value locked in mixer `id` is its deposit size once for every leaf
/// deposited and not yet withdrawn, `withdrawn` counting the withdrawals
/// (each of which spends one nullifier hash that was not spent before).
pub open spec fn value_locked_accounted(s: PalletView, id: GroupId, withdrawn: nat) -> bool {
    &&& withdrawn <= s.mixer(id).leaves.len()
    &&& s.tvl(id) == s.mixer(id).fixed_deposit_size * (s.mixer(id).leaves.len() - withdrawn)
}

/// A deposit keeps the value locked accounted for: its leaves and its
/// value grow together.
pub proof fn lemma_deposit_keeps_value_accounted(s: PalletView, id: GroupId, points: Seq<ScalarData>, withdrawn: nat)
    requires
        value_locked_accounted(s, id, withdrawn),
        s.tvl(id) + deposit_total(points.len(), s.mixer(id).fixed_deposit_size) <= u64::MAX,
    ensures
        value_locked_accounted(after_deposit(s, id, points), id, withdrawn),
{
    let size = s.mixer(id).fixed_deposit_size;
    let n = s.mixer(id).leaves.len();
    assert(size * (n - withdrawn) + points.len() * size == size * (n + points.len() - withdrawn))
        by (nonlinear_arith)
        requires
            withdrawn <= n,
    ;
}

/// A withdrawal keeps the value locked accounted for, with one more
/// withdrawal counted, where a deposit remains to be withdrawn.
pub proof fn lemma_withdraw_keeps_value_accounted(s: PalletView, id: GroupId, withdrawn: nat)
    requires
        value_locked_accounted(s, id, withdrawn),
        withdrawn < s.mixer(id).leaves.len(),
    ensures
        s.tvl(id) >= s.mixer(id).fixed_deposit_size,
        value_locked_accounted(after_withdraw(s, id), id, withdrawn + 1),
{
    let size = s.mixer(id).fixed_deposit_size;
    let n = s.mixer(id).leaves.len();
    assert(size * (n - withdrawn) == size * (n - (withdrawn + 1)) + size) by (nonlinear_arith)
        requires
            withdrawn < n,
    ;
    assert(size * (n - (withdrawn + 1)) >= 0) by (nonlinear_arith)
        requires
            withdrawn < n,
    ;
}

/// A mixer exists exactly when its record has a non-zero deposit size,
/// however many leaves it holds: `get_mixer` and `deposit` never refuse a
/// mixer for being full, and a record with no deposit size is no mixer
/// whatever its leaves.
pub proof fn lemma_mixer_exists_by_size(s: PalletView, id: GroupId, leaves: Seq<ScalarData>)
    ensures
        s.has_mixer(id) <==> s.mixer(id).fixed_deposit_size > 0,
        s.mixer(id).fixed_deposit_size > 0 ==> (PalletView {
            mixer_groups: s.mixer_groups.insert(id, MixerInfoView { leaves, ..s.mixer(id) }),
            ..s
        }).has_mixer(id),
{
}

/// The account of a signed origin is the signing account itself, and no
/// other origin has one: a deposit signed by `who` is paid by `who`, and a
/// withdrawal signed by `who` pays `who`.
pub proof fn lemma_signer_is_signing_account(who: AccountId, other: AccountId)
    ensures
        signer(Origin::Signed(who)) == Some(who),
        who != other ==> signer(Origin::Signed(who)) != Some(other),
        signer(Origin::Root) is None,
        signer(Origin::Unsigned) is None,
{
}

/// Once initialised, the end of a block caches exactly one root for every
/// mixer whose group exists and had none cached at that block, whether the
/// group is stopped or running, and leaves a mixer that had roots cached
/// there as it was.
pub proof fn lemma_roots_carried_for_every_group(
    a: GroupsView,
    b: GroupsView,
    block: BlockNumber,
    ids: Seq<GroupId>,
    i: int,
)
    requires
        roots_carried(a, b, block, ids),
        0 <= i < ids.len(),
    ensures
        (a.info)(ids[i]) is Some && (a.cached)(block, ids[i]).len() == 0 ==> (b.cached)(block, ids[i]).len() == 1,
        (a.info)(ids[i]) is Some && (a.cached)(block, ids[i]).len() == 0 && a.is_stopped(ids[i]) ==> (b.cached)(block, ids[i]).len() == 1,
        (a.cached)(block, ids[i]).len() > 0 ==> (b.cached)(block, ids[i]) == (a.cached)(block, ids[i]),
{
}

} // verus!
