//! How a method of the coordinator fails.

use vstd::prelude::*;

verus! {

/// The code with which a method ends.
#[derive(Debug, Clone, Copy, PartialEq, Eq, Structural)]
pub enum ExitCode {
    Success,
    UsrIllegalArgument,
    UsrForbidden,
    UsrIllegalState,
    UsrUnhandledMessage,
}

/// Why a method of the coordinator failed.
#[derive(Debug, Clone, Copy, PartialEq, Eq, Structural)]
pub enum ActorError {
    /// The caller is not of a kind that may call the method.
    Forbidden,
    /// The network name is not a subnet path.
    InvalidNetworkName,
    /// An amount is negative.
    NegativeAmount,
    /// The caller is not named by an id address.
    CallerNotId,
    /// The subnet is no child of this network.
    NotAChild,
    /// The subnet is registered already.
    AlreadyRegistered,
    /// The collateral is below the minimum stake.
    NotEnoughCollateral,
    /// The subnet is not registered.
    SubnetNotRegistered,
    /// No value came with the call, or none was asked for.
    NoValue,
    /// More stake is released than the subnet has.
    StakeExceeded,
    /// The coordinator holds less than it is to send.
    InsufficientBalance,
    /// The subnet still holds funds of its users.
    SupplyNotEmpty,
    /// The checkpoint's source is not the caller's subnet.
    WrongSource,
    /// The subnet is not active.
    SubnetInactive,
    /// The epoch is negative, or its window exceeds 64 bits.
    InvalidEpoch,
    /// The checkpoint is older than the last one of the subnet.
    CheckpointInPast,
    /// The checkpoint does not name the last one of the subnet as its
    /// predecessor.
    PrevCheckMismatch,
    /// The subnet has committed this checkpoint in this window already.
    DuplicateCheckpoint,
    /// More value leaves the subnet than circulates in it.
    SupplyExceeded,
    /// A counter would exceed 64 bits.
    NonceOverflow,
    /// The host could not resolve the caller to a key address.
    UnresolvedCaller,
    /// An address that must be raw is hierarchical, or the other way round.
    InvalidAddress,
    /// The destination is the network itself.
    DestinationIsSelf,
    /// There is no way down from the network to the destination.
    NoRoute,
    /// The child through which the message goes down is not registered.
    HopNotRegistered,
    /// The message does not carry the next nonce.
    NonceMismatch,
    /// The method is not one that a cross-net message may call.
    InvalidCrossMethod,
    /// The parameters of a cross-net call do not hold what the method takes.
    InvalidParams,
    /// An execution with this identifier exists already.
    ExecExists,
    /// The parties of an execution have no identifier.
    ExecIdFailed,
    /// The execution has no message, or fewer than two parties.
    WrongExecShape,
    /// The parties of the execution could not be resolved.
    InvalidExecInputs,
    /// The network is not the common parent of the parties.
    NotCommonParent,
    /// The messages of the execution differ in method or destination.
    MixedMessages,
    /// There is no execution with this identifier.
    ExecNotFound,
    /// The caller is no party of the execution.
    NotInExec,
    /// The execution has succeeded or was aborted.
    ExecFinalized,
    /// The caller has submitted an output already.
    AlreadySubmitted,
    /// The method number stands for no method, or the parameters are not those
    /// of the method.
    UnhandledMessage,
    /// The coordinator has no state yet, or has one already.
    WrongLifecycle,
}

impl ActorError {
    /// The exit code that the host sees.
    pub open spec fn spec_exit_code(self) -> ExitCode {
        match self {
            ActorError::Forbidden => ExitCode::UsrForbidden,
            ActorError::InvalidNetworkName => ExitCode::UsrIllegalArgument,
            ActorError::NegativeAmount => ExitCode::UsrIllegalArgument,
            ActorError::CallerNotId => ExitCode::UsrIllegalArgument,
            ActorError::NotAChild => ExitCode::UsrIllegalArgument,
            ActorError::AlreadyRegistered => ExitCode::UsrIllegalArgument,
            ActorError::NotEnoughCollateral => ExitCode::UsrIllegalArgument,
            ActorError::SubnetNotRegistered => ExitCode::UsrIllegalArgument,
            ActorError::NoValue => ExitCode::UsrIllegalArgument,
            ActorError::StakeExceeded => ExitCode::UsrIllegalState,
            ActorError::InsufficientBalance => ExitCode::UsrIllegalState,
            ActorError::SupplyNotEmpty => ExitCode::UsrIllegalState,
            ActorError::WrongSource => ExitCode::UsrIllegalArgument,
            ActorError::SubnetInactive => ExitCode::UsrIllegalState,
            ActorError::InvalidEpoch => ExitCode::UsrIllegalState,
            ActorError::CheckpointInPast => ExitCode::UsrIllegalArgument,
            ActorError::PrevCheckMismatch => ExitCode::UsrIllegalArgument,
            ActorError::DuplicateCheckpoint => ExitCode::UsrIllegalArgument,
            ActorError::SupplyExceeded => ExitCode::UsrIllegalState,
            ActorError::NonceOverflow => ExitCode::UsrIllegalState,
            ActorError::UnresolvedCaller => ExitCode::UsrIllegalArgument,
            ActorError::InvalidAddress => ExitCode::UsrIllegalArgument,
            ActorError::DestinationIsSelf => ExitCode::UsrIllegalArgument,
            ActorError::NoRoute => ExitCode::UsrIllegalState,
            ActorError::HopNotRegistered => ExitCode::UsrIllegalState,
            ActorError::NonceMismatch => ExitCode::UsrIllegalState,
            ActorError::InvalidCrossMethod => ExitCode::UsrIllegalArgument,
            ActorError::InvalidParams => ExitCode::UsrIllegalArgument,
            ActorError::ExecExists => ExitCode::UsrIllegalArgument,
            ActorError::ExecIdFailed => ExitCode::UsrIllegalArgument,
            ActorError::WrongExecShape => ExitCode::UsrIllegalArgument,
            ActorError::InvalidExecInputs => ExitCode::UsrIllegalArgument,
            ActorError::NotCommonParent => ExitCode::UsrIllegalArgument,
            ActorError::MixedMessages => ExitCode::UsrIllegalArgument,
            ActorError::ExecNotFound => ExitCode::UsrIllegalArgument,
            ActorError::NotInExec => ExitCode::UsrIllegalArgument,
            ActorError::ExecFinalized => ExitCode::UsrIllegalState,
            ActorError::AlreadySubmitted => ExitCode::UsrIllegalArgument,
            ActorError::UnhandledMessage => ExitCode::UsrUnhandledMessage,
            ActorError::WrongLifecycle => ExitCode::UsrIllegalState,
        }
    }

    /// The exit code that the host sees.
    pub fn exit_code(&self) -> (r: ExitCode)
        ensures
            r == self.spec_exit_code(),
            r != ExitCode::Success,
    {
        match self {
            ActorError::Forbidden => ExitCode::UsrForbidden,
            ActorError::InvalidNetworkName => ExitCode::UsrIllegalArgument,
            ActorError::NegativeAmount => ExitCode::UsrIllegalArgument,
            ActorError::CallerNotId => ExitCode::UsrIllegalArgument,
            ActorError::NotAChild => ExitCode::UsrIllegalArgument,
            ActorError::AlreadyRegistered => ExitCode::UsrIllegalArgument,
            ActorError::NotEnoughCollateral => ExitCode::UsrIllegalArgument,
            ActorError::SubnetNotRegistered => ExitCode::UsrIllegalArgument,
            ActorError::NoValue => ExitCode::UsrIllegalArgument,
            ActorError::StakeExceeded => ExitCode::UsrIllegalState,
            ActorError::InsufficientBalance => ExitCode::UsrIllegalState,
            ActorError::SupplyNotEmpty => ExitCode::UsrIllegalState,
            ActorError::WrongSource => ExitCode::UsrIllegalArgument,
            ActorError::SubnetInactive => ExitCode::UsrIllegalState,
            ActorError::InvalidEpoch => ExitCode::UsrIllegalState,
            ActorError::CheckpointInPast => ExitCode::UsrIllegalArgument,
            ActorError::PrevCheckMismatch => ExitCode::UsrIllegalArgument,
            ActorError::DuplicateCheckpoint => ExitCode::UsrIllegalArgument,
            ActorError::SupplyExceeded => ExitCode::UsrIllegalState,
            ActorError::NonceOverflow => ExitCode::UsrIllegalState,
            ActorError::UnresolvedCaller => ExitCode::UsrIllegalArgument,
            ActorError::InvalidAddress => ExitCode::UsrIllegalArgument,
            ActorError::DestinationIsSelf => ExitCode::UsrIllegalArgument,
            ActorError::NoRoute => ExitCode::UsrIllegalState,
            ActorError::HopNotRegistered => ExitCode::UsrIllegalState,
            ActorError::NonceMismatch => ExitCode::UsrIllegalState,
            ActorError::InvalidCrossMethod => ExitCode::UsrIllegalArgument,
            ActorError::InvalidParams => ExitCode::UsrIllegalArgument,
            ActorError::ExecExists => ExitCode::UsrIllegalArgument,
            ActorError::ExecIdFailed => ExitCode::UsrIllegalArgument,
            ActorError::WrongExecShape => ExitCode::UsrIllegalArgument,
            ActorError::InvalidExecInputs => ExitCode::UsrIllegalArgument,
            ActorError::NotCommonParent => ExitCode::UsrIllegalArgument,
            ActorError::MixedMessages => ExitCode::UsrIllegalArgument,
            ActorError::ExecNotFound => ExitCode::UsrIllegalArgument,
            ActorError::NotInExec => ExitCode::UsrIllegalArgument,
            ActorError::ExecFinalized => ExitCode::UsrIllegalState,
            ActorError::AlreadySubmitted => ExitCode::UsrIllegalArgument,
            ActorError::UnhandledMessage => ExitCode::UsrUnhandledMessage,
            ActorError::WrongLifecycle => ExitCode::UsrIllegalState,
        }
    }
}

} // verus!
