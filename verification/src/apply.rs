//! Applying a cross-net message that the consensus has validated.

use crate::actor::{Actor, Invocation, Send};
use crate::address::{Address, AddressView, SCA_ACTOR_ID, SYSTEM_ACTOR_ID};
use crate::submit_codec::parse_submit;
use crate::econ::{atto, token_clone, token_lt, token_zero};
use crate::error::ActorError;
use crate::exec::{SubmitExecParams, SubmitOutput};
use crate::hash::bytes_clone;
use crate::orchestrator::{exec_of, status_after, submit_applied, submit_failure};
use crate::state::{bottomup_nonce_accepted, topdown_applied, State};
use crate::types::{HCMsgType, MethodNum, StorableMsg, StorableMsgView};
use fvm_shared::econ::TokenAmount;
use vstd::prelude::*;

verus! {

/// The number of the method that takes the submission of a party of an
/// atomic execution. Only a cross-net message can call it.
pub const METHOD_SUBMIT_ATOMIC_EXEC: MethodNum = 13;

/// What the host has to do when a message has been applied.
#[derive(Debug)]
pub struct ApplyOutcome {
    /// The value to mint to the coordinator before anything is sent on.
    pub mint: Option<TokenAmount>,
    /// The message to deliver to an actor of this network.
    pub forward: Option<Send>,
    /// The status of the atomic execution to which the message submitted.
    pub submitted: Option<SubmitOutput>,
}

/// Whether a message is for this network itself.
pub open spec fn for_here(st: State, m: StorableMsgView) -> bool {
    m.to.subnet->Some_0 == st.network_name@
}

/// Whether a message is for the coordinator itself.
pub open spec fn for_coordinator(m: StorableMsgView) -> bool {
    m.to.raw() == AddressView::id(SCA_ACTOR_ID)
}

/// The first reason for which a message for this network cannot be carried
/// out, if there is one. A message for the coordinator must call the method
/// that takes a submission, with parameters that hold one.
pub open spec fn run_failure(st: State, m: StorableMsgView) -> Option<ActorError> {
    if !for_coordinator(m) {
        None
    } else if m.method != METHOD_SUBMIT_ATOMIC_EXEC {
        Some(ActorError::InvalidCrossMethod)
    } else if parse_submit(m.params) is None {
        Some(ActorError::InvalidParams)
    } else {
        submit_failure(st, m.from, parse_submit(m.params)->Some_0)
    }
}

/// The first reason to refuse to apply a message, if there is one.
pub open spec fn apply_failure(st: State, inv: Invocation, m: StorableMsgView) -> Option<
    ActorError,
> {
    if inv.caller@ != AddressView::id(SYSTEM_ACTOR_ID) {
        Some(ActorError::Forbidden)
    } else if !m.in_transit() {
        Some(ActorError::InvalidAddress)
    } else if m.value < 0 {
        Some(ActorError::NegativeAmount)
    } else if m.apply_type(st.network_name@) == HCMsgType::BottomUp && !bottomup_nonce_accepted(
        st.applied_bottomup_nonce,
        m.nonce,
    ) {
        Some(ActorError::NonceMismatch)
    } else if m.apply_type(st.network_name@) != HCMsgType::BottomUp && st.applied_topdown_nonce
        != m.nonce {
        Some(ActorError::NonceMismatch)
    } else if m.apply_type(st.network_name@) != HCMsgType::BottomUp && st.applied_topdown_nonce
        == u64::MAX {
        Some(ActorError::NonceOverflow)
    } else if for_here(st, m) {
        run_failure(st, m)
    } else {
        st.topdown_failure(m)
    }
}

/// How the state changes when the message `m` is applied.
///
/// A message that is applied on its way up makes its nonce the one that is
/// being applied; any other takes the next top-down nonce. A message for
/// another subnet is committed to the child through which it goes down. A
/// message for the coordinator is taken as the submission of its sender.
/// Nothing else changes.
pub open spec fn msg_applied(before: State, after: State, m: StorableMsgView) -> bool {
    let rest = State {
        applied_bottomup_nonce: before.applied_bottomup_nonce,
        applied_topdown_nonce: before.applied_topdown_nonce,
        ..after
    };
    &&& if m.apply_type(before.network_name@) == HCMsgType::BottomUp {
        after.applied_bottomup_nonce == m.nonce && after.applied_topdown_nonce
            == before.applied_topdown_nonce
    } else {
        after.applied_topdown_nonce == before.applied_topdown_nonce + 1
            && after.applied_bottomup_nonce == before.applied_bottomup_nonce
    }
    &&& if !for_here(before, m) {
        topdown_applied(before, rest, m)
    } else if for_coordinator(m) {
        submit_applied(before, rest, m.from, parse_submit(m.params)->Some_0)
    } else {
        rest == before
    }
}

/// What the host is asked to do when the message `m` has been applied: to
/// mint the value of a message that came down, to deliver a message for an
/// actor of this network, and nothing more.
pub open spec fn outcome_for(before: State, out: ApplyOutcome, m: StorableMsgView) -> bool {
    &&& if m.apply_type(before.network_name@) == HCMsgType::BottomUp {
        out.mint is None
    } else {
        out.mint is Some && atto(out.mint->Some_0) == m.value
    }
    &&& if for_here(before, m) && !for_coordinator(m) {
        &&& out.forward is Some
        &&& out.forward->Some_0.to@ == m.to.raw()
        &&& out.forward->Some_0.method == m.method
        &&& out.forward->Some_0.params@ == m.params
        &&& atto(out.forward->Some_0.value) == m.value
    } else {
        out.forward is None
    }
    &&& if for_here(before, m) && for_coordinator(m) {
        out.submitted is Some && out.submitted->Some_0.status == status_after(
            exec_of(before, parse_submit(m.params)->Some_0.cid),
            parse_submit(m.params)->Some_0,
        )
    } else {
        out.submitted is None
    }
}

impl Actor {
    /// Carries out a message for this network: a message for the coordinator
    /// is taken as the submission of its sender, any other is handed back for
    /// the host to deliver.
    pub fn run_cross_msg(st: &mut State, msg: &StorableMsg) -> (r: Result<
        (Option<Send>, Option<SubmitOutput>),
        ActorError,
    >)
        requires
            old(st).wf(),
            msg@.in_transit(),
        ensures
            match r {
                Ok((forward, submitted)) => {
                    &&& run_failure(*old(st), msg@) is None
                    &&& if for_coordinator(msg@) {
                        &&& forward is None
                        &&& submitted is Some
                        &&& submitted->Some_0.status == status_after(
                            exec_of(*old(st), parse_submit(msg@.params)->Some_0.cid),
                            parse_submit(msg@.params)->Some_0,
                        )
                        &&& submit_applied(
                            *old(st),
                            *final(st),
                            msg@.from,
                            parse_submit(msg@.params)->Some_0,
                        )
                    } else {
                        &&& submitted is None
                        &&& forward is Some
                        &&& forward->Some_0.to@ == msg@.to.raw()
                        &&& forward->Some_0.method == msg.method
                        &&& forward->Some_0.params@ == msg@.params
                        &&& atto(forward->Some_0.value) == msg@.value
                        &&& *final(st) == *old(st)
                    }
                    &&& final(st).wf()
                },
                Err(e) => run_failure(*old(st), msg@) == Some(e) && *final(st) == *old(st),
            },
    {
        let rto = Address { subnet: None, payload: msg.to.payload.clone() };
        let sca = Address::new_id(SCA_ACTOR_ID);
        if rto == sca {
            if msg.method != METHOD_SUBMIT_ATOMIC_EXEC {
                return Err(ActorError::InvalidCrossMethod);
            }
            let params = match SubmitExecParams::from_bytes(&msg.params) {
                Some(p) => p,
                None => {
                    return Err(ActorError::InvalidParams);
                },
            };
            match Self::submit_atomic_exec(st, &msg.from, params) {
                Ok(out) => Ok((None, Some(out))),
                Err(e) => Err(e),
            }
        } else {
            Ok(
                (
                    Some(
                        Send {
                            to: rto,
                            method: msg.method,
                            params: bytes_clone(&msg.params),
                            value: token_clone(&msg.value),
                        },
                    ),
                    None,
                ),
            )
        }
    }

    /// Applies the cross-net message `params`. Only the system actor may
    /// call.
    ///
    /// A message that came down must carry the next top-down nonce; its value
    /// is to be minted to the coordinator. A message that goes up must carry
    /// the nonce of the meta that is being applied, or the one after it. A
    /// message for another subnet is committed to the child through which it
    /// goes down; one for this network is carried out.
    pub fn apply_msg(st: &mut State, inv: &Invocation, params: StorableMsg) -> (r: Result<
        ApplyOutcome,
        ActorError,
    >)
        requires
            old(st).wf(),
        ensures
            match r {
                Ok(out) => {
                    &&& apply_failure(*old(st), *inv, params@) is None
                    &&& msg_applied(*old(st), *final(st), params@)
                    &&& outcome_for(*old(st), out, params@)
                    &&& final(st).wf()
                },
                Err(e) => apply_failure(*old(st), *inv, params@) == Some(e) && *final(st)
                    == *old(st),
            },
    {
        let system = Address::new_id(SYSTEM_ACTOR_ID);
        if !(inv.caller == system) {
            return Err(ActorError::Forbidden);
        }
        let tp = match params.apply_type(&st.network_name) {
            Ok(t) => t,
            Err(_) => {
                return Err(ActorError::InvalidAddress);
            },
        };
        let zero = token_zero();
        if token_lt(&params.value, &zero) {
            return Err(ActorError::NegativeAmount);
        }
        let here = match &params.to.subnet {
            Some(sto) => *sto == st.network_name,
            None => false,
        };
        let bottom_up = match tp {
            HCMsgType::BottomUp => true,
            _ => false,
        };
        if bottom_up {
            let applied = st.applied_bottomup_nonce;
            let accepted = if applied == u64::MAX {
                params.nonce == 0
            } else {
                params.nonce == applied || params.nonce == applied + 1
            };
            if !accepted {
                return Err(ActorError::NonceMismatch);
            }
        } else {
            if st.applied_topdown_nonce != params.nonce {
                return Err(ActorError::NonceMismatch);
            }
            if st.applied_topdown_nonce == u64::MAX {
                return Err(ActorError::NonceOverflow);
            }
        }
        let (forward, submitted) = if here {
            match Self::run_cross_msg(st, &params) {
                Ok(done) => done,
                Err(e) => {
                    return Err(e);
                },
            }
        } else {
            match st.commit_topdown_msg(&params) {
                Ok(()) => (None, None),
                Err(e) => {
                    return Err(e);
                },
            }
        };
        let mint = if bottom_up {
            st.applied_bottomup_nonce = params.nonce;
            None
        } else {
            st.applied_topdown_nonce = st.applied_topdown_nonce + 1;
            Some(token_clone(&params.value))
        };
        Ok(ApplyOutcome { mint, forward, submitted })
    }
}

} // verus!
