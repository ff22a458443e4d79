//! The methods of the coordinator by number.

use crate::actor::{
    add_stake_failure, caller_subnet, fund_failure, fund_msg, is_transfer, kill_failure,
    register_failure, release_stake_failure, stake_changed, Actor, FundParams, Invocation, Send,
};
use crate::address::{AddressView, BURNT_FUNDS_ACTOR_ID, SYSTEM_ACTOR_ID};
use crate::apply::{apply_failure, msg_applied, outcome_for, ApplyOutcome};
use crate::bottomup::{
    bottomup_applied, cross_msg, release_failure, release_msg, send_cross_failure,
    CrossMsgParams,
};
use crate::checkpoint::Checkpoint;
use crate::child_check::{commit_applied, commit_failure};
use crate::econ::atto;
use crate::error::ActorError;
use crate::exec::{AbortExecParams, AtomicExecParamsRaw, ExecStatus, LockedOutput, SubmitOutput};
use crate::keyed::position;
use crate::orchestrator::{abort_applied, abort_failure, init_failure};
use crate::state::{topdown_applied, ConstructorParams, State};
use crate::subnet_id::SubnetID;
use crate::types::{HCMsgType, MethodNum, StorableMsg};
use vstd::prelude::*;

verus! {

/// The methods that the host can call.
#[derive(Debug, Clone, Copy, PartialEq, Eq, Structural)]
pub enum Method {
    Constructor,
    Register,
    AddStake,
    ReleaseStake,
    Kill,
    CommitChildCheckpoint,
    Fund,
    Release,
    SendCross,
    ApplyMessage,
    InitAtomicExec,
    AbortAtomicExec,
}

/// The methods that only a cross-net message can call.
#[derive(Debug, Clone, Copy, PartialEq, Eq, Structural)]
pub enum CrossMethod {
    SubmitAtomicExec,
}

/// The parameters of a call, decoded.
#[derive(Debug)]
pub enum MethodParams {
    /// No parameters.
    Empty,
    Constructor(ConstructorParams),
    ReleaseStake(FundParams),
    CommitChildCheckpoint(Checkpoint),
    Fund(SubnetID),
    SendCross(CrossMsgParams),
    ApplyMessage(StorableMsg),
    /// The parameters of the execution and, for each party in order, the id
    /// that the host resolved its raw address to.
    InitAtomicExec(AtomicExecParamsRaw, Vec<Option<u64>>),
    AbortAtomicExec(AbortExecParams),
}

/// What a call returns.
#[derive(Debug)]
pub enum Return {
    /// Nothing.
    Empty,
    /// The id of the registered subnet.
    Registered(SubnetID),
    /// A transfer for the host to make.
    Transfer(Send),
    /// A transfer to the burn sink for the host to make, where there is
    /// value to burn.
    Burn(Option<Send>),
    /// What the host has to do after a message was applied.
    Applied(ApplyOutcome),
    /// The identifier of the execution.
    Locked(LockedOutput),
    /// The status of the execution.
    Submitted(SubmitOutput),
}

/// The method with the number `n`, if there is one.
pub open spec fn method_of(n: MethodNum) -> Option<Method> {
    if n == 1 {
        Some(Method::Constructor)
    } else if n == 2 {
        Some(Method::Register)
    } else if n == 3 {
        Some(Method::AddStake)
    } else if n == 4 {
        Some(Method::ReleaseStake)
    } else if n == 5 {
        Some(Method::Kill)
    } else if n == 6 {
        Some(Method::CommitChildCheckpoint)
    } else if n == 7 {
        Some(Method::Fund)
    } else if n == 8 {
        Some(Method::Release)
    } else if n == 9 {
        Some(Method::SendCross)
    } else if n == 10 {
        Some(Method::ApplyMessage)
    } else if n == 11 {
        Some(Method::InitAtomicExec)
    } else if n == 12 {
        Some(Method::AbortAtomicExec)
    } else {
        None
    }
}

impl Method {
    /// The method with the number `n`, if there is one.
    pub fn from_u64(n: MethodNum) -> (r: Option<Method>)
        ensures
            r == method_of(n),
    {
        match n {
            1 => Some(Method::Constructor),
            2 => Some(Method::Register),
            3 => Some(Method::AddStake),
            4 => Some(Method::ReleaseStake),
            5 => Some(Method::Kill),
            6 => Some(Method::CommitChildCheckpoint),
            7 => Some(Method::Fund),
            8 => Some(Method::Release),
            9 => Some(Method::SendCross),
            10 => Some(Method::ApplyMessage),
            11 => Some(Method::InitAtomicExec),
            12 => Some(Method::AbortAtomicExec),
            _ => None,
        }
    }

    /// The number of the method.
    pub fn number(&self) -> (r: MethodNum)
        ensures
            method_of(r) == Some(*self),
    {
        match self {
            Method::Constructor => 1,
            Method::Register => 2,
            Method::AddStake => 3,
            Method::ReleaseStake => 4,
            Method::Kill => 5,
            Method::CommitChildCheckpoint => 6,
            Method::Fund => 7,
            Method::Release => 8,
            Method::SendCross => 9,
            Method::ApplyMessage => 10,
            Method::InitAtomicExec => 11,
            Method::AbortAtomicExec => 12,
        }
    }
}

impl CrossMethod {
    /// The cross-net method with the number `n`, if there is one.
    pub fn from_u64(n: MethodNum) -> (r: Option<CrossMethod>)
        ensures
            r is Some <==> n == crate::apply::METHOD_SUBMIT_ATOMIC_EXEC,
    {
        if n == crate::apply::METHOD_SUBMIT_ATOMIC_EXEC {
            Some(CrossMethod::SubmitAtomicExec)
        } else {
            None
        }
    }

    /// The number of the method.
    pub fn number(&self) -> (r: MethodNum)
        ensures
            r == crate::apply::METHOD_SUBMIT_ATOMIC_EXEC,
    {
        crate::apply::METHOD_SUBMIT_ATOMIC_EXEC
    }
}

/// Whether the parameters are those that the method takes.
pub open spec fn params_fit(m: Method, p: MethodParams) -> bool {
    match m {
        Method::Constructor => p is Constructor,
        Method::Register => p is Empty,
        Method::AddStake => p is Empty,
        Method::ReleaseStake => p is ReleaseStake,
        Method::Kill => p is Empty,
        Method::CommitChildCheckpoint => p is CommitChildCheckpoint,
        Method::Fund => p is Fund,
        Method::Release => p is Empty,
        Method::SendCross => p is SendCross,
        Method::ApplyMessage => p is ApplyMessage,
        Method::InitAtomicExec => p is InitAtomicExec,
        Method::AbortAtomicExec => p is AbortAtomicExec,
    }
}

/// The first reason to refuse a call, if there is one: an unknown method,
/// parameters that are not the method's, a constructor for a coordinator that
/// has a state or another method for one that has none, and then the
/// method's own reasons.
pub open spec fn invoke_failure(
    st: Option<State>,
    inv: Invocation,
    method: MethodNum,
    p: MethodParams,
) -> Option<ActorError> {
    if method_of(method) is None || !params_fit(method_of(method)->Some_0, p) {
        Some(ActorError::UnhandledMessage)
    } else if (method_of(method)->Some_0 == Method::Constructor) != (st is None) {
        Some(ActorError::WrongLifecycle)
    } else {
        let s = st->Some_0;
        match method_of(method)->Some_0 {
            Method::Constructor => if inv.caller@ != AddressView::id(SYSTEM_ACTOR_ID) {
                Some(ActorError::Forbidden)
            } else if crate::subnet_id::parse_path(p->Constructor_0.network_name@) is Err {
                Some(ActorError::InvalidNetworkName)
            } else if atto(p->Constructor_0.min_stake) < 0 {
                Some(ActorError::NegativeAmount)
            } else {
                None
            },
            Method::Register => register_failure(s, inv),
            Method::AddStake => add_stake_failure(s, inv),
            Method::ReleaseStake => release_stake_failure(s, inv, atto(p->ReleaseStake_0.value)),
            Method::Kill => kill_failure(s, inv),
            Method::CommitChildCheckpoint => commit_failure(s, inv, p->CommitChildCheckpoint_0),
            Method::Fund => fund_failure(s, inv, p->Fund_0@),
            Method::Release => release_failure(s, inv),
            Method::SendCross => send_cross_failure(
                s,
                inv,
                p->SendCross_0.destination@,
                p->SendCross_0.msg@,
            ),
            Method::ApplyMessage => apply_failure(s, inv, p->ApplyMessage_0@),
            Method::InitAtomicExec => init_failure(
                s,
                inv,
                p->InitAtomicExec_0,
                p->InitAtomicExec_1@,
            ),
            Method::AbortAtomicExec => abort_failure(s, inv, p->AbortAtomicExec_0.exec_cid@),
        }
    }
}

/// Whether `burn` asks to burn `value`: the transfer of a positive value to
/// the burn sink, and nothing where there is nothing to burn.
pub open spec fn burns(burn: Option<Send>, value: int) -> bool {
    match burn {
        Some(send) => value > 0 && is_transfer(send, AddressView::id(BURNT_FUNDS_ACTOR_ID), value),
        None => value <= 0,
    }
}

/// How a call that succeeds changes the state, and what it returns: what the
/// method with that number does.
pub open spec fn invoked(
    before: State,
    after: State,
    inv: Invocation,
    m: Method,
    p: MethodParams,
    r: Return,
) -> bool {
    let shid = caller_subnet(before, inv);
    let i = position(before.subnets@, shid);
    match m {
        Method::Constructor => false,
        Method::Register => r is Registered && r->Registered_0@ == shid && after.subnets@.len()
            == before.subnets@.len() + 1 && after.subnets@.drop_last() == before.subnets@
            && after.subnets@.last().id@ == shid && atto(after.subnets@.last().stake) == atto(
            inv.value_received,
        ) && atto(after.subnets@.last().circ_supply) == 0 && after.subnets@.last().status
            == crate::subnet::Status::Active && after.subnets@.last().nonce == 0
            && after.subnets@.last().top_down_msgs@.len() == 0
            && after.subnets@.last().prev_checkpoint is None && after.total_subnets
            == before.total_subnets + 1 && after == (State {
            subnets: after.subnets,
            total_subnets: after.total_subnets,
            ..before
        }),
        Method::AddStake => r is Empty && stake_changed(
            before,
            after,
            i,
            atto(inv.value_received),
        ),
        Method::ReleaseStake => r is Transfer && stake_changed(
            before,
            after,
            i,
            -atto(p->ReleaseStake_0.value),
        ) && is_transfer(r->Transfer_0, inv.caller@, atto(p->ReleaseStake_0.value)),
        Method::Kill => r is Transfer && after.subnets@ == before.subnets@.remove(i)
            && after.total_subnets == before.total_subnets - 1 && after == (State {
            subnets: after.subnets,
            total_subnets: after.total_subnets,
            ..before
        }) && is_transfer(r->Transfer_0, inv.caller@, atto(before.subnets@[i].stake)),
        Method::CommitChildCheckpoint => r is Burn && commit_applied(
            before,
            after,
            inv,
            p->CommitChildCheckpoint_0,
        ) && burns(
            r->Burn_0,
            crate::commit::delivered_value(
                p->CommitChildCheckpoint_0.data.cross_msgs@,
                before.network_name@,
                p->CommitChildCheckpoint_0.data.cross_msgs@.len() as int,
            ),
        ),
        Method::Fund => r is Empty && topdown_applied(
            before,
            after,
            fund_msg(p->Fund_0@, inv.sig_addr->Some_0@, atto(inv.value_received)),
        ),
        Method::Release => r is Transfer && bottomup_applied(
            before,
            after,
            inv.curr_epoch,
            release_msg(
                before.network_name@,
                inv.sig_addr->Some_0@,
                atto(inv.value_received),
                before.nonce,
            ),
        ) && is_transfer(
            r->Transfer_0,
            AddressView::id(BURNT_FUNDS_ACTOR_ID),
            atto(inv.value_received),
        ),
        Method::SendCross => {
            let msg = cross_msg(before, inv, p->SendCross_0.destination@, p->SendCross_0.msg@);
            r is Burn && if msg.hc_type() == HCMsgType::TopDown {
                topdown_applied(before, after, msg) && r->Burn_0 is None
            } else {
                bottomup_applied(before, after, inv.curr_epoch, msg.with_nonce(before.nonce))
                    && burns(r->Burn_0, msg.value)
            }
        },
        Method::ApplyMessage => r is Applied && msg_applied(before, after, p->ApplyMessage_0@)
            && outcome_for(before, r->Applied_0, p->ApplyMessage_0@),
        Method::InitAtomicExec => r is Locked && r->Locked_0.cid@
            == p->InitAtomicExec_0.spec_cid() && after.atomic_exec_registry@.len()
            == before.atomic_exec_registry@.len() + 1 && after.atomic_exec_registry@.drop_last()
            == before.atomic_exec_registry@ && after.atomic_exec_registry@.last().cid@
            == p->InitAtomicExec_0.spec_cid() && after.atomic_exec_registry@.last().execution.status
            == ExecStatus::Initialized
            && after.atomic_exec_registry@.last().execution.submitted@.len() == 0
            && crate::orchestrator::params_resolved(
            p->InitAtomicExec_0,
            p->InitAtomicExec_1@,
            after.atomic_exec_registry@.last().execution.params,
        ) && after == (State {
            atomic_exec_registry: after.atomic_exec_registry,
            ..before
        }),
        Method::AbortAtomicExec => r is Submitted && r->Submitted_0.status == ExecStatus::Aborted
            && abort_applied(before, after, p->AbortAtomicExec_0.exec_cid@),
    }
}

impl Actor {
    /// Calls the method with the number `method`. The constructor gives the
    /// coordinator its state; every other method needs it. A call that fails
    /// leaves the state as it was.
    pub fn invoke_method(
        st: &mut Option<State>,
        inv: &Invocation,
        method: MethodNum,
        params: MethodParams,
    ) -> (r: Result<Return, ActorError>)
        requires
            *old(st) is Some ==> old(st)->Some_0.wf(),
        ensures
            match r {
                Ok(ret) => {
                    &&& invoke_failure(*old(st), *inv, method, params) is None
                    &&& *final(st) is Some
                    &&& final(st)->Some_0.wf()
                    &&& method_of(method) == Some(Method::Constructor) ==> ret is Empty
                    &&& method_of(method) != Some(Method::Constructor) ==> invoked(
                        old(st)->Some_0,
                        final(st)->Some_0,
                        *inv,
                        method_of(method)->Some_0,
                        params,
                        ret,
                    )
                },
                Err(e) => invoke_failure(*old(st), *inv, method, params) == Some(e) && *final(st)
                    == *old(st),
            },
    {
        let m = match Method::from_u64(method) {
            Some(m) => m,
            None => {
                return Err(ActorError::UnhandledMessage);
            },
        };
        match st {
            None => match (m, params) {
                (Method::Constructor, MethodParams::Constructor(p)) => {
                    match Self::constructor(inv, p) {
                        Ok(state) => {
                            *st = Some(state);
                            Ok(Return::Empty)
                        },
                        Err(e) => Err(e),
                    }
                },
                (Method::Constructor, _) => Err(ActorError::UnhandledMessage),
                (Method::Register, MethodParams::Empty) => Err(ActorError::WrongLifecycle),
                (Method::AddStake, MethodParams::Empty) => Err(ActorError::WrongLifecycle),
                (Method::ReleaseStake, MethodParams::ReleaseStake(_)) => Err(
                    ActorError::WrongLifecycle,
                ),
                (Method::Kill, MethodParams::Empty) => Err(ActorError::WrongLifecycle),
                (Method::CommitChildCheckpoint, MethodParams::CommitChildCheckpoint(_)) => Err(
                    ActorError::WrongLifecycle,
                ),
                (Method::Fund, MethodParams::Fund(_)) => Err(ActorError::WrongLifecycle),
                (Method::Release, MethodParams::Empty) => Err(ActorError::WrongLifecycle),
                (Method::SendCross, MethodParams::SendCross(_)) => Err(ActorError::WrongLifecycle),
                (Method::ApplyMessage, MethodParams::ApplyMessage(_)) => Err(
                    ActorError::WrongLifecycle,
                ),
                (Method::InitAtomicExec, MethodParams::InitAtomicExec(_, _)) => Err(
                    ActorError::WrongLifecycle,
                ),
                (Method::AbortAtomicExec, MethodParams::AbortAtomicExec(_)) => Err(
                    ActorError::WrongLifecycle,
                ),
                _ => Err(ActorError::UnhandledMessage),
            },
            Some(state) => match (m, params) {
                (Method::Constructor, MethodParams::Constructor(_)) => Err(
                    ActorError::WrongLifecycle,
                ),
                (Method::Register, MethodParams::Empty) => match Self::register(state, inv) {
                    Ok(id) => Ok(Return::Registered(id)),
                    Err(e) => Err(e),
                },
                (Method::AddStake, MethodParams::Empty) => match Self::add_stake(state, inv) {
                    Ok(()) => Ok(Return::Empty),
                    Err(e) => Err(e),
                },
                (Method::ReleaseStake, MethodParams::ReleaseStake(p)) => match Self::release_stake(
                    state,
                    inv,
                    p,
                ) {
                    Ok(send) => Ok(Return::Transfer(send)),
                    Err(e) => Err(e),
                },
                (Method::Kill, MethodParams::Empty) => match Self::kill(state, inv) {
                    Ok(send) => Ok(Return::Transfer(send)),
                    Err(e) => Err(e),
                },
                (
                    Method::CommitChildCheckpoint,
                    MethodParams::CommitChildCheckpoint(p),
                ) => match Self::commit_child_check(state, inv, p) {
                    Ok(burn) => Ok(Return::Burn(burn)),
                    Err(e) => Err(e),
                },
                (Method::Fund, MethodParams::Fund(p)) => match Self::fund(state, inv, p) {
                    Ok(()) => Ok(Return::Empty),
                    Err(e) => Err(e),
                },
                (Method::Release, MethodParams::Empty) => match Self::release(state, inv) {
                    Ok(send) => Ok(Return::Transfer(send)),
                    Err(e) => Err(e),
                },
                (Method::SendCross, MethodParams::SendCross(p)) => match Self::send_cross(
                    state,
                    inv,
                    p,
                ) {
                    Ok(burn) => Ok(Return::Burn(burn)),
                    Err(e) => Err(e),
                },
                (Method::ApplyMessage, MethodParams::ApplyMessage(p)) => match Self::apply_msg(
                    state,
                    inv,
                    p,
                ) {
                    Ok(out) => Ok(Return::Applied(out)),
                    Err(e) => Err(e),
                },
                (
                    Method::InitAtomicExec,
                    MethodParams::InitAtomicExec(p, ids),
                ) => match Self::init_atomic_exec(state, inv, p, &ids) {
                    Ok(out) => Ok(Return::Locked(out)),
                    Err(e) => Err(e),
                },
                (
                    Method::AbortAtomicExec,
                    MethodParams::AbortAtomicExec(p),
                ) => match Self::abort_atomic_exec(state, inv, p) {
                    Ok(out) => Ok(Return::Submitted(out)),
                    Err(e) => Err(e),
                },
                _ => Err(ActorError::UnhandledMessage),
            },
        }
    }
}

} // verus!
