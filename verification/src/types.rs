//! The values the mixer works with: identifiers, leaf data, origins of
//! calls, errors, and the record the mixer keeps of each mixer group.

use vstd::prelude::*;

verus! {

/// An account.
pub type AccountId = u64;

/// The id of a mixer group (a Merkle group of the tree pallet).
pub type GroupId = u32;

/// A block height.
pub type BlockNumber = u64;

/// An amount of currency.
pub type Balance = u64;

/// A scalar of the deposit trees: a leaf, a root or a nullifier hash,
/// in its 32-byte encoding.
#[derive(Clone, Copy, Debug, PartialEq, Eq)]
pub struct ScalarData(pub [u8; 32]);

/// A Pedersen commitment of a membership proof, in its 32-byte encoding.
#[derive(Clone, Copy, Debug, PartialEq, Eq)]
pub struct Commitment(pub [u8; 32]);

/// Who a call comes from.
#[derive(Clone, Copy, Debug, PartialEq, Eq)]
pub enum Origin {
    /// The root (sudo) origin.
    Root,
    /// A call signed by an account.
    Signed(AccountId),
    /// An unsigned call.
    Unsigned,
}

/// Errors of the mixer.
#[derive(Clone, Copy, Debug, PartialEq, Eq, Structural)]
pub enum Error {
    /// Value was None
    NoneValue,
    /// Mixer not found for specified id
    NoMixerForId,
    /// Mixer is not initialized
    NotInitialised,
    /// Mixer is already initialized
    AlreadyInitialised,
    /// User doesn't have enough balance for the deposit
    InsufficientBalance,
    /// Caller doesn't have permission to make a call
    UnauthorizedCall,
    /// Mixer is stopped
    MixerStopped,
}

/// Why a call failed: its origin was refused, the mixer refused it, or a
/// pallet it relies on (currency or Merkle groups) refused it, with that
/// pallet's index and error code.
#[derive(Clone, Copy, Debug, PartialEq, Eq, Structural)]
pub enum DispatchError {
    BadOrigin,
    Module(Error),
    External { index: u8, error: u8 },
}

/// Events of the mixer.
#[derive(Clone, Copy, Debug, PartialEq, Eq)]
pub enum Event {
    /// New deposit added to the specific mixer
    Deposit(GroupId, AccountId, ScalarData),
    /// Withdrawal from the specific mixer
    Withdraw(GroupId, AccountId, ScalarData),
}

/// The account of a signed origin; any other origin is refused.
pub open spec fn signer(origin: Origin) -> Option<AccountId> {
    match origin {
        Origin::Signed(who) => Some(who),
        _ => None,
    }
}

/// Whether `origin` may act as the mixer's admin: the root origin, or the
/// admin account itself.
pub open spec fn is_admin_origin(origin: Origin, admin: AccountId) -> bool {
    match origin {
        Origin::Root => true,
        Origin::Signed(who) => who == admin,
        Origin::Unsigned => false,
    }
}

/// The signer of `origin`, or `BadOrigin` where the call is not signed.
pub fn ensure_signed(origin: Origin) -> (r: Result<AccountId, DispatchError>)
    ensures
        r == (match signer(origin) {
            Some(who) => Ok(who),
            None => Err(DispatchError::BadOrigin),
        }),
        forall|who: AccountId| origin == Origin::Signed(who) ==> r == Ok::<AccountId, DispatchError>(who),
        origin == Origin::Root || origin == Origin::Unsigned ==> r == Err::<AccountId, DispatchError>(
            DispatchError::BadOrigin,
        ),
{
    match origin {
        Origin::Signed(who) => Ok(who),
        _ => Err(DispatchError::BadOrigin),
    }
}

/// Accepts the root origin and the admin's own signature, and refuses
/// anything else with `BadOrigin`.
pub fn ensure_admin(origin: Origin, admin: AccountId) -> (r: Result<(), DispatchError>)
    ensures
        r == (if is_admin_origin(origin, admin) {
            Ok(())
        } else {
            Err(DispatchError::BadOrigin)
        }),
{
    match origin {
        Origin::Root => Ok(()),
        Origin::Signed(who) => {
            if who == admin {
                Ok(())
            } else {
                Err(DispatchError::BadOrigin)
            }
        },
        Origin::Unsigned => Err(DispatchError::BadOrigin),
    }
}

/// Info about the mixer and its leaf data.
#[derive(Debug, PartialEq, Eq)]
pub struct MixerInfo {
    /// Minimum duration the deposit has stayed in the mixer for user to
    /// be eligible for reward (currently not used)
    pub minimum_deposit_length_for_reward: BlockNumber,
    /// Deposit size for the mixer
    pub fixed_deposit_size: Balance,
    /// All the leaves
    pub leaves: Vec<ScalarData>,
}

/// A mixer's record as a mathematical value.
pub struct MixerInfoView {
    pub minimum_deposit_length_for_reward: BlockNumber,
    pub fixed_deposit_size: Balance,
    pub leaves: Seq<ScalarData>,
}

impl View for MixerInfo {
    type V = MixerInfoView;

    open spec fn view(&self) -> MixerInfoView {
        MixerInfoView {
            minimum_deposit_length_for_reward: self.minimum_deposit_length_for_reward,
            fixed_deposit_size: self.fixed_deposit_size,
            leaves: self.leaves@,
        }
    }
}

/// The record of a mixer that was never set up: zero length, zero deposit
/// size, no leaves.
pub open spec fn empty_mixer_info() -> MixerInfoView {
    MixerInfoView {
        minimum_deposit_length_for_reward: 0,
        fixed_deposit_size: 0,
        leaves: Seq::empty(),
    }
}

impl Default for MixerInfo {
    fn default() -> (m: Self)
        ensures
            m@ == empty_mixer_info(),
    {
        MixerInfo {
            minimum_deposit_length_for_reward: 0,
            fixed_deposit_size: 0,
            leaves: Vec::new(),
        }
    }
}

impl Clone for MixerInfo {
    fn clone(&self) -> (m: Self)
        ensures
            m@ == self@,
    {
        MixerInfo {
            minimum_deposit_length_for_reward: self.minimum_deposit_length_for_reward,
            fixed_deposit_size: self.fixed_deposit_size,
            leaves: self.leaves.clone(),
        }
    }
}

impl MixerInfo {
    pub fn new(min_dep_length: BlockNumber, dep_size: Balance, leaves: Vec<ScalarData>) -> (m: Self)
        ensures
            m@ == (MixerInfoView {
                minimum_deposit_length_for_reward: min_dep_length,
                fixed_deposit_size: dep_size,
                leaves: leaves@,
            }),
    {
        MixerInfo {
            minimum_deposit_length_for_reward: min_dep_length,
            fixed_deposit_size: dep_size,
            leaves,
        }
    }
}

} // verus!
