//! The methods of the coordinator.
//!
//! Each method takes the state, what the host knows of the call, and the
//! method's parameters. It returns what the host has to send in its turn.
//! A method that fails leaves the state as it was.

use crate::address::{Address, AddressError, AddressView, SYSTEM_ACTOR_ID};
use crate::checkpoint::ChainEpoch;
use crate::econ::{atto, token_clone, token_is_positive, token_lt, token_sub, token_zero};
use crate::error::ActorError;
use crate::keyed::{find, lemma_position, lemma_update_keeps_keys, position, present};
use crate::state::{topdown_applied, ConstructorParams, State};
use crate::subnet::{status_for, Status, Subnet};
use crate::subnet_id::SubnetID;
use crate::types::{MethodNum, StorableMsg, StorableMsgView, METHOD_SEND};
use fvm_shared::econ::TokenAmount;
use vstd::prelude::*;

verus! {

/// The kind of actor that calls.
#[derive(Debug, Clone, Copy, PartialEq, Eq, Structural)]
pub enum ActorType {
    System,
    Account,
    Multisig,
    Subnet,
    Other,
}

/// What the host knows of a call.
#[derive(Debug)]
pub struct Invocation {
    /// The immediate caller.
    pub caller: Address,
    /// The kind of actor that the caller is.
    pub caller_type: ActorType,
    /// The value that came with the call.
    pub value_received: TokenAmount,
    /// The epoch in which the call runs.
    pub curr_epoch: ChainEpoch,
    /// What the coordinator holds, the value of the call included.
    pub current_balance: TokenAmount,
    /// The key address that the host resolved the caller to, where it could.
    pub sig_addr: Option<Address>,
}

/// What a method asks the host to send.
#[derive(Debug)]
pub struct Send {
    pub to: Address,
    pub method: MethodNum,
    pub params: Vec<u8>,
    pub value: TokenAmount,
}

/// The parameters of the method that releases stake.
#[derive(Debug)]
pub struct FundParams {
    pub value: TokenAmount,
}

/// The subnet coordinator actor.
#[derive(Debug)]
pub struct Actor;

/// Whether an actor of this kind can sign messages.
pub open spec fn signable(t: ActorType) -> bool {
    t == ActorType::Account || t == ActorType::Multisig
}

/// Whether the address is the raw id address of some actor.
pub open spec fn is_raw_id(a: AddressView) -> bool {
    a.subnet is None && a.payload is ID
}

/// The id of a raw id address.
pub open spec fn raw_id(a: AddressView) -> u64 {
    a.payload->ID_0
}

/// The subnet whose subnet actor the caller is.
pub open spec fn caller_subnet(st: State, inv: Invocation) -> Seq<u64> {
    st.network_name@.push(raw_id(inv.caller@))
}

/// Why a call that only a subnet actor may make is refused at once, if it is.
pub open spec fn subnet_caller_failure(inv: Invocation) -> Option<ActorError> {
    if inv.caller_type != ActorType::Subnet {
        Some(ActorError::Forbidden)
    } else if !is_raw_id(inv.caller@) {
        Some(ActorError::CallerNotId)
    } else {
        None
    }
}

/// The transfer of `value` to `to`.
pub open spec fn is_transfer(s: Send, to: AddressView, value: int) -> bool {
    s.to@ == to && s.method == METHOD_SEND && s.params@.len() == 0 && atto(s.value) == value
}

/// The first reason to refuse a registration, if there is one.
pub open spec fn register_failure(st: State, inv: Invocation) -> Option<ActorError> {
    if subnet_caller_failure(inv) is Some {
        subnet_caller_failure(inv)
    } else if present(st.subnets@, caller_subnet(st, inv)) {
        Some(ActorError::AlreadyRegistered)
    } else if atto(inv.value_received) < atto(st.min_stake) {
        Some(ActorError::NotEnoughCollateral)
    } else {
        None
    }
}

/// The first reason to refuse more stake, if there is one.
pub open spec fn add_stake_failure(st: State, inv: Invocation) -> Option<ActorError> {
    if subnet_caller_failure(inv) is Some {
        subnet_caller_failure(inv)
    } else if atto(inv.value_received) <= 0 {
        Some(ActorError::NoValue)
    } else if !present(st.subnets@, caller_subnet(st, inv)) {
        Some(ActorError::SubnetNotRegistered)
    } else {
        None
    }
}

/// The first reason to refuse the release of `value` of stake, if there is one.
pub open spec fn release_stake_failure(st: State, inv: Invocation, value: int) -> Option<
    ActorError,
> {
    if subnet_caller_failure(inv) is Some {
        subnet_caller_failure(inv)
    } else if value <= 0 {
        Some(ActorError::NoValue)
    } else if !present(st.subnets@, caller_subnet(st, inv)) {
        Some(ActorError::SubnetNotRegistered)
    } else if atto(st.subnets@[position(st.subnets@, caller_subnet(st, inv))].stake) < value {
        Some(ActorError::StakeExceeded)
    } else if atto(inv.current_balance) < value {
        Some(ActorError::InsufficientBalance)
    } else {
        None
    }
}

/// The first reason to refuse to kill the caller's subnet, if there is one.
pub open spec fn kill_failure(st: State, inv: Invocation) -> Option<ActorError> {
    if subnet_caller_failure(inv) is Some {
        subnet_caller_failure(inv)
    } else if !present(st.subnets@, caller_subnet(st, inv)) {
        Some(ActorError::SubnetNotRegistered)
    } else if atto(inv.current_balance) < atto(
        st.subnets@[position(st.subnets@, caller_subnet(st, inv))].stake,
    ) {
        Some(ActorError::InsufficientBalance)
    } else if atto(st.subnets@[position(st.subnets@, caller_subnet(st, inv))].circ_supply) > 0 {
        Some(ActorError::SupplyNotEmpty)
    } else {
        None
    }
}

/// How the subnet at `i` changes when `delta` is added to its stake: the stake
/// grows by `delta`, the status follows the stake, and nothing else changes,
/// in this subnet or in the state.
pub open spec fn stake_changed(before: State, after: State, i: int, delta: int) -> bool {
    &&& 0 <= i < before.subnets@.len()
    &&& after.subnets@.len() == before.subnets@.len()
    &&& forall|j: int|
        0 <= j < before.subnets@.len() && j != i ==> after.subnets@[j] == before.subnets@[j]
    &&& atto(after.subnets@[i].stake) == atto(before.subnets@[i].stake) + delta
    &&& after.subnets@[i].status == status_for(
        atto(after.subnets@[i].stake),
        atto(before.min_stake),
    )
    &&& after.subnets@[i].id == before.subnets@[i].id
    &&& after.subnets@[i].top_down_msgs == before.subnets@[i].top_down_msgs
    &&& after.subnets@[i].nonce == before.subnets@[i].nonce
    &&& after.subnets@[i].circ_supply == before.subnets@[i].circ_supply
    &&& after.subnets@[i].prev_checkpoint == before.subnets@[i].prev_checkpoint
    &&& after == (State { subnets: after.subnets, ..before })
}

/// The message that funds `sig` in the subnet `dest` with `value`.
pub open spec fn fund_msg(dest: Seq<u64>, sig: AddressView, value: int) -> StorableMsgView {
    StorableMsgView {
        from: sig.within(dest.drop_last()),
        to: sig.within(dest),
        method: METHOD_SEND,
        params: Seq::<u8>::empty(),
        value,
        nonce: 0,
    }
}

/// The first reason to refuse to fund the subnet `dest`, if there is one.
pub open spec fn fund_failure(st: State, inv: Invocation, dest: Seq<u64>) -> Option<ActorError> {
    if !signable(inv.caller_type) {
        Some(ActorError::Forbidden)
    } else if atto(inv.value_received) <= 0 {
        Some(ActorError::NoValue)
    } else if inv.sig_addr is None {
        Some(ActorError::UnresolvedCaller)
    } else if dest.len() == 0 {
        Some(ActorError::NoRoute)
    } else if inv.sig_addr->Some_0@.is_hierarchical() {
        Some(ActorError::InvalidAddress)
    } else {
        st.topdown_failure(fund_msg(dest, inv.sig_addr->Some_0@, atto(inv.value_received)))
    }
}

/// Checks that the caller is a subnet actor, and names its subnet.
fn subnet_of_caller(st: &State, inv: &Invocation) -> (r: Result<SubnetID, ActorError>)
    ensures
        match r {
            Ok(id) => subnet_caller_failure(*inv) is None && id@ == caller_subnet(*st, *inv),
            Err(e) => subnet_caller_failure(*inv) == Some(e),
        },
{
    match inv.caller_type {
        ActorType::Subnet => {},
        _ => {
            return Err(ActorError::Forbidden);
        },
    }
    match inv.caller.id() {
        Ok(id) => Ok(SubnetID::new_child(&st.network_name, id)),
        Err(_) => Err(ActorError::CallerNotId),
    }
}

/// Whether an actor of this kind can sign messages.
fn is_signable(t: ActorType) -> (r: bool)
    ensures
        r == signable(t),
{
    match t {
        ActorType::Account => true,
        ActorType::Multisig => true,
        _ => false,
    }
}

/// The transfer of `value` to `to`.
pub(crate) fn transfer(to: &Address, value: TokenAmount) -> (r: Send)
    ensures
        is_transfer(r, to@, atto(value)),
{
    Send { to: to.clone(), method: METHOD_SEND, params: Vec::new(), value }
}

impl Actor {
    /// Creates the state of the coordinator. Only the system actor may call.
    pub fn constructor(inv: &Invocation, params: ConstructorParams) -> (r: Result<
        State,
        ActorError,
    >)
        ensures
            inv.caller@ != AddressView::id(SYSTEM_ACTOR_ID) ==> r == Err::<State, ActorError>(
                ActorError::Forbidden,
            ),
            inv.caller@ == AddressView::id(SYSTEM_ACTOR_ID) ==> match r {
                Ok(st) => {
                    &&& crate::subnet_id::parse_path(params.network_name@) == Ok::<
                        Seq<u64>,
                        crate::subnet_id::PathError,
                    >(st.network_name@)
                    &&& atto(params.min_stake) >= 0
                    &&& st.min_stake == params.min_stake
                    &&& st.check_period == if params.checkpoint_period
                        > crate::checkpoint::DEFAULT_CHECKPOINT_PERIOD {
                        params.checkpoint_period
                    } else {
                        crate::checkpoint::DEFAULT_CHECKPOINT_PERIOD
                    }
                    &&& st.total_subnets == 0
                    &&& st.subnets@.len() == 0
                    &&& st.checkpoints@.len() == 0
                    &&& st.check_msg_registry@.len() == 0
                    &&& st.nonce == 0
                    &&& st.bottomup_msg_meta@.len() == 0
                    &&& st.applied_bottomup_nonce == u64::MAX
                    &&& st.applied_topdown_nonce == 0
                    &&& st.atomic_exec_registry@.len() == 0
                    &&& st.wf()
                },
                Err(e) => if crate::subnet_id::parse_path(params.network_name@) is Err {
                    e == ActorError::InvalidNetworkName
                } else {
                    e == ActorError::NegativeAmount && atto(params.min_stake) < 0
                },
            },
    {
        let system = Address::new_id(SYSTEM_ACTOR_ID);
        if !(inv.caller == system) {
            return Err(ActorError::Forbidden);
        }
        State::new(params)
    }

    /// Registers the caller's subnet with the value of the call as its
    /// collateral, and returns the subnet's id.
    pub fn register(st: &mut State, inv: &Invocation) -> (r: Result<SubnetID, ActorError>)
        requires
            old(st).wf(),
        ensures
            match r {
                Ok(id) => {
                    &&& register_failure(*old(st), *inv) is None
                    &&& id@ == caller_subnet(*old(st), *inv)
                    &&& final(st).subnets@.len() == old(st).subnets@.len() + 1
                    &&& final(st).subnets@.drop_last() == old(st).subnets@
                    &&& final(st).subnets@.last().id@ == id@
                    &&& atto(final(st).subnets@.last().stake) == atto(inv.value_received)
                    &&& final(st).subnets@.last().status == Status::Active
                    &&& atto(final(st).subnets@.last().circ_supply) == 0
                    &&& final(st).subnets@.last().nonce == 0
                    &&& final(st).subnets@.last().top_down_msgs@.len() == 0
                    &&& final(st).subnets@.last().prev_checkpoint is None
                    &&& final(st).total_subnets == old(st).total_subnets + 1
                    &&& *final(st) == (State {
                        subnets: final(st).subnets,
                        total_subnets: final(st).total_subnets,
                        ..*old(st)
                    })
                    &&& final(st).wf()
                },
                Err(e) => register_failure(*old(st), *inv) == Some(e) && *final(st) == *old(st),
            },
    {
        let shid = match subnet_of_caller(st, inv) {
            Ok(id) => id,
            Err(e) => {
                return Err(e);
            },
        };
        if st.get_subnet(&shid).is_some() {
            return Err(ActorError::AlreadyRegistered);
        }
        assert(shid@.drop_last() =~= st.network_name@);
        match st.register_subnet(&shid, token_clone(&inv.value_received)) {
            Ok(()) => Ok(shid),
            Err(e) => Err(e),
        }
    }

    /// Adds the value of the call to the collateral of the caller's subnet.
    pub fn add_stake(st: &mut State, inv: &Invocation) -> (r: Result<(), ActorError>)
        requires
            old(st).wf(),
        ensures
            match r {
                Ok(()) => {
                    &&& add_stake_failure(*old(st), *inv) is None
                    &&& stake_changed(
                        *old(st),
                        *final(st),
                        position(old(st).subnets@, caller_subnet(*old(st), *inv)),
                        atto(inv.value_received),
                    )
                    &&& final(st).wf()
                },
                Err(e) => add_stake_failure(*old(st), *inv) == Some(e) && *final(st) == *old(st),
            },
    {
        let shid = match subnet_of_caller(st, inv) {
            Ok(id) => id,
            Err(e) => {
                return Err(e);
            },
        };
        if !token_is_positive(&inv.value_received) {
            return Err(ActorError::NoValue);
        }
        let i = match find(&st.subnets, &shid) {
            Some(i) => i,
            None => {
                return Err(ActorError::SubnetNotRegistered);
            },
        };
        proof {
            lemma_position(st.subnets@, shid@);
        }
        st.subnets[i].add_stake(&st.min_stake, &inv.value_received);
        proof {
            Self::lemma_subnet_replaced(*old(st), *st, i as int);
        }
        Ok(())
    }

    /// Takes `params.value` out of the collateral of the caller's subnet, and
    /// returns the transfer of that value to the subnet actor.
    pub fn release_stake(st: &mut State, inv: &Invocation, params: FundParams) -> (r: Result<
        Send,
        ActorError,
    >)
        requires
            old(st).wf(),
        ensures
            match r {
                Ok(send) => {
                    &&& release_stake_failure(*old(st), *inv, atto(params.value)) is None
                    &&& stake_changed(
                        *old(st),
                        *final(st),
                        position(old(st).subnets@, caller_subnet(*old(st), *inv)),
                        -atto(params.value),
                    )
                    &&& is_transfer(send, inv.caller@, atto(params.value))
                    &&& final(st).wf()
                },
                Err(e) => release_stake_failure(*old(st), *inv, atto(params.value)) == Some(e)
                    && *final(st) == *old(st),
            },
    {
        let shid = match subnet_of_caller(st, inv) {
            Ok(id) => id,
            Err(e) => {
                return Err(e);
            },
        };
        if !token_is_positive(&params.value) {
            return Err(ActorError::NoValue);
        }
        let i = match find(&st.subnets, &shid) {
            Some(i) => i,
            None => {
                return Err(ActorError::SubnetNotRegistered);
            },
        };
        proof {
            lemma_position(st.subnets@, shid@);
        }
        if token_lt(&st.subnets[i].stake, &params.value) {
            return Err(ActorError::StakeExceeded);
        }
        if token_lt(&inv.current_balance, &params.value) {
            return Err(ActorError::InsufficientBalance);
        }
        let zero = token_zero();
        let delta = token_sub(&zero, &params.value);
        st.subnets[i].add_stake(&st.min_stake, &delta);
        proof {
            Self::lemma_subnet_replaced(*old(st), *st, i as int);
        }
        Ok(transfer(&inv.caller, params.value))
    }

    /// Takes the caller's subnet out of the registry, and returns the transfer
    /// of its collateral to the subnet actor. A subnet that still holds funds
    /// of its users cannot be killed.
    pub fn kill(st: &mut State, inv: &Invocation) -> (r: Result<Send, ActorError>)
        requires
            old(st).wf(),
        ensures
            match r {
                Ok(send) => {
                    &&& kill_failure(*old(st), *inv) is None
                    &&& final(st).subnets@ == old(st).subnets@.remove(
                        position(old(st).subnets@, caller_subnet(*old(st), *inv)),
                    )
                    &&& !present(final(st).subnets@, caller_subnet(*old(st), *inv))
                    &&& final(st).total_subnets == old(st).total_subnets - 1
                    &&& *final(st) == (State {
                        subnets: final(st).subnets,
                        total_subnets: final(st).total_subnets,
                        ..*old(st)
                    })
                    &&& is_transfer(
                        send,
                        inv.caller@,
                        atto(
                            old(st).subnets@[position(
                                old(st).subnets@,
                                caller_subnet(*old(st), *inv),
                            )].stake,
                        ),
                    )
                    &&& final(st).wf()
                },
                Err(e) => kill_failure(*old(st), *inv) == Some(e) && *final(st) == *old(st),
            },
    {
        let shid = match subnet_of_caller(st, inv) {
            Ok(id) => id,
            Err(e) => {
                return Err(e);
            },
        };
        let i = match find(&st.subnets, &shid) {
            Some(i) => i,
            None => {
                return Err(ActorError::SubnetNotRegistered);
            },
        };
        proof {
            lemma_position(st.subnets@, shid@);
        }
        if token_lt(&inv.current_balance, &st.subnets[i].stake) {
            return Err(ActorError::InsufficientBalance);
        }
        if token_is_positive(&st.subnets[i].circ_supply) {
            return Err(ActorError::SupplyNotEmpty);
        }
        match st.rm_subnet(&shid) {
            Some(sub) => Ok(transfer(&inv.caller, sub.stake)),
            None => Err(ActorError::SubnetNotRegistered),
        }
    }

    /// Sends the value of the call down to the caller's address in the subnet
    /// `params`: a fund message is committed to the child through which the
    /// way down goes.
    pub fn fund(st: &mut State, inv: &Invocation, params: SubnetID) -> (r: Result<(), ActorError>)
        requires
            old(st).wf(),
        ensures
            match r {
                Ok(()) => {
                    &&& fund_failure(*old(st), *inv, params@) is None
                    &&& topdown_applied(
                        *old(st),
                        *final(st),
                        fund_msg(params@, inv.sig_addr->Some_0@, atto(inv.value_received)),
                    )
                    &&& final(st).wf()
                },
                Err(e) => fund_failure(*old(st), *inv, params@) == Some(e) && *final(st) == *old(
                    st,
                ),
            },
    {
        if !is_signable(inv.caller_type) {
            return Err(ActorError::Forbidden);
        }
        if !token_is_positive(&inv.value_received) {
            return Err(ActorError::NoValue);
        }
        let sig_addr = match &inv.sig_addr {
            Some(a) => a,
            None => {
                return Err(ActorError::UnresolvedCaller);
            },
        };
        let msg = match StorableMsg::new_fund_msg(
            &params,
            sig_addr,
            token_clone(&inv.value_received),
        ) {
            Ok(m) => m,
            Err(AddressError::NoParent) => {
                return Err(ActorError::NoRoute);
            },
            Err(_) => {
                return Err(ActorError::InvalidAddress);
            },
        };
        st.commit_topdown_msg(&msg)
    }

    /// Replacing one subnet by a well-formed one with the same id keeps the
    /// state well formed.
    proof fn lemma_subnet_replaced(before: State, after: State, i: int)
        requires
            before.wf(),
            0 <= i < before.subnets@.len(),
            after.subnets@.len() == before.subnets@.len(),
            forall|j: int|
                0 <= j < before.subnets@.len() && j != i ==> after.subnets@[j]
                    == before.subnets@[j],
            after.subnets@[i].id == before.subnets@[i].id,
            after.subnets@[i].wf(atto(before.min_stake)),
            forall|j: int| 0 <= j < before.subnets@.len() ==> before.subnet_ok(
                #[trigger] before.subnets@[j],
            ),
            after == (State { subnets: after.subnets, ..before }),
        ensures
            after.wf(),
            forall|k: Seq<u64>| position(after.subnets@, k) == position(before.subnets@, k),
    {
        assert(after.subnets@ =~= before.subnets@.update(i, after.subnets@[i]));
        lemma_update_keeps_keys(before.subnets@, i, after.subnets@[i]);
        assert forall|j: int| 0 <= j < after.subnets@.len() implies after.subnet_ok(
            #[trigger] after.subnets@[j],
        ) by {
            assert(before.subnet_ok(before.subnets@[j]));
            if j != i {
                assert(after.subnets@[j] == before.subnets@[j]);
            }
        }
    }
}

} // verus!
