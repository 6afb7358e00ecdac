//! Why the multisig wallet refuses a transaction.
use vstd::prelude::*;

verus! {

/// The reasons a multisig endpoint fails; each names the message the
/// contract fails with.
#[derive(Clone, Copy, Debug, PartialEq, Eq, Structural)]
pub enum MultisigError {
    /// "only board members and proposers can propose"
    OnlyProposersCanPropose,
    /// "only board members can sign"
    OnlyBoardMembersCanSign,
    /// "only board members can un-sign"
    OnlyBoardMembersCanUnsign,
    /// "only board members and proposers can perform actions"
    OnlyProposersCanPerform,
    /// "only board members and proposers can discard actions"
    OnlyProposersCanDiscard,
    /// "Wrong action type signed"
    WrongActionTypeSigned,
    /// "Failed checking Secp256k1 signature"
    Secp256k1CheckFailed,
    /// The virtual machine rejects a bad Ed25519 signature.
    Ed25519CheckFailed,
    /// Secp256r1 signatures are not implemented; the contract panics on them.
    SignatureTypeNotImplemented,
    /// "Unknown address"
    UnknownAddress,
    /// "Address already registered"
    AddressAlreadyRegistered,
    /// "Invalid nonce"
    InvalidNonce,
    /// "action does not exist"
    ActionDoesNotExist,
    /// "cannot discard action with valid signatures"
    CannotDiscardSignedAction,
    /// "cannot sign actions of an aborted batch"
    CannotSignAbortedBatch,
    /// "cannot perform actions of an aborted batch"
    CannotPerformAbortedBatch,
    /// "Invalid group ID"
    InvalidGroupId,
    /// "quorum has not been reached"
    QuorumNotReached,
    /// "Quorum not reached for action"
    QuorumNotReachedForAction,
    /// "May not execute this action by itself"
    MayNotExecuteAlone,
    /// "board size cannot exceed limit"
    BoardSizeLimit,
    /// "board cannot be empty on init, no-one would be able to propose"
    EmptyBoard,
    /// "quorum cannot exceed board size"
    QuorumExceedsBoardSize,
    /// "cannot remove all board members and proposers"
    CannotRemoveAllUsers,
    /// "No actions"
    NoActions,
    /// "Invalid action"
    InvalidAction,
    /// "proposed action has no effect"
    ActionHasNoEffect,
    /// "No tokens to transfer"
    NoTokensToTransfer,
    /// "All transfer exec must be to the same shard"
    NotSameShard,
    /// "first_action_id needs to be within the range of the available action ids"
    FirstActionOutOfRange,
    /// "cannot exceed the total number of actions"
    RangeExceedsActions,
    /// "Only module owner can call this function"
    OnlyModuleOwner,
    /// "Address not in list"
    AddressNotInList,
    /// "index out of range"
    IndexOutOfRange,
    /// "May not use group ID 0"
    GroupIdZero,
    /// A counter would exceed its width; the virtual machine fails such a transaction.
    ArithmeticOverflow,
}

} // verus!
