//! The state of the coordinator, and the steps that change it.

use crate::checkpoint::{ChainEpoch, Checkpoint, CrossMsgMeta, DEFAULT_CHECKPOINT_PERIOD};
use crate::cross::CrossMsgs;
use crate::econ::{atto, token_add, token_lt, token_zero};
use crate::error::ActorError;
use crate::exec::AtomicExec;
use crate::hash::Cid;
use crate::keyed::{
    distinct, find, lemma_position, lemma_push_new_key, lemma_remove_key,
    lemma_update_keeps_keys, position, present, Keyed,
};
use crate::subnet::{Status, Subnet};
use crate::subnet_id::{is_prefix, SubnetID};
use crate::types::{StorableMsg, StorableMsgView};
use fvm_shared::econ::TokenAmount;
use vstd::prelude::*;

verus! {

/// What the coordinator is constructed with.
#[derive(Debug)]
pub struct ConstructorParams {
    /// The path of the network that the coordinator runs in.
    pub network_name: String,
    /// The number of epochs between checkpoints.
    pub checkpoint_period: ChainEpoch,
    /// The collateral from which a subnet is active.
    pub min_stake: TokenAmount,
}

/// The content behind a message meta, under its identifier.
#[derive(Debug)]
pub struct MsgsEntry {
    pub cid: Cid,
    pub msgs: CrossMsgs,
}

/// An atomic execution, under its identifier.
#[derive(Debug)]
pub struct ExecEntry {
    pub cid: Cid,
    pub execution: AtomicExec,
}

/// The state of the coordinator.
#[derive(Debug)]
pub struct State {
    /// The network that the coordinator runs in.
    pub network_name: SubnetID,
    /// The number of registered subnets.
    pub total_subnets: u64,
    /// The collateral from which a subnet is active.
    pub min_stake: TokenAmount,
    /// The registered subnets.
    pub subnets: Vec<Subnet>,
    /// The number of epochs between checkpoints.
    pub check_period: ChainEpoch,
    /// The window checkpoints, one for each window that has seen activity.
    pub checkpoints: Vec<Checkpoint>,
    /// The contents behind the message metas of the window checkpoints.
    pub check_msg_registry: Vec<MsgsEntry>,
    /// The nonce of the next bottom-up message or meta.
    pub nonce: u64,
    /// The metas that children sent to this network, in the order of their
    /// nonces.
    pub bottomup_msg_meta: Vec<CrossMsgMeta>,
    /// The nonce of the last bottom-up meta whose messages are being applied,
    /// and the largest 64-bit number before there is one.
    pub applied_bottomup_nonce: u64,
    /// The nonce of the next top-down message to apply.
    pub applied_topdown_nonce: u64,
    /// The atomic executions.
    pub atomic_exec_registry: Vec<ExecEntry>,
}

impl Keyed for MsgsEntry {
    type Key = Cid;

    type KeyV = Seq<u8>;

    open spec fn key(&self) -> Seq<u8> {
        self.cid@
    }

    open spec fn key_of(k: &Cid) -> Seq<u8> {
        k@
    }

    fn has_key(&self, k: &Cid) -> (r: bool) {
        self.cid == *k
    }

    fn same_key(&self, other: &MsgsEntry) -> (r: bool) {
        self.cid == other.cid
    }
}

impl Keyed for ExecEntry {
    type Key = Cid;

    type KeyV = Seq<u8>;

    open spec fn key(&self) -> Seq<u8> {
        self.cid@
    }

    open spec fn key_of(k: &Cid) -> Seq<u8> {
        k@
    }

    fn has_key(&self, k: &Cid) -> (r: bool) {
        self.cid == *k
    }

    fn same_key(&self, other: &ExecEntry) -> (r: bool) {
        self.cid == other.cid
    }
}

/// What holds of the registry of contents: every content stands under its
/// own identifier.
pub open spec fn registry_sound(registry: Seq<MsgsEntry>) -> bool {
    forall|i: int|
        0 <= i < registry.len() ==> (#[trigger] registry[i]).cid@ == registry[i].msgs.spec_cid()
}

/// Whether the nonces of the metas grow strictly and stay below `bound`.
pub open spec fn nonces_increasing(metas: Seq<CrossMsgMeta>, bound: u64) -> bool {
    &&& forall|i: int, j: int|
        0 <= i < j < metas.len() ==> (#[trigger] metas[i]).nonce < (#[trigger] metas[j]).nonce
    &&& forall|i: int| 0 <= i < metas.len() ==> (#[trigger] metas[i]).nonce < bound
}

/// Whether the metas hold one meta for each nonce below `bound`, in order.
pub open spec fn nonces_dense_upto(metas: Seq<CrossMsgMeta>, bound: u64) -> bool {
    &&& metas.len() == bound
    &&& forall|i: int| 0 <= i < metas.len() ==> (#[trigger] metas[i]).nonce == i
}

/// Whether `id` names a child of the network `network`.
pub open spec fn is_child_of(network: Seq<u64>, id: Seq<u64>) -> bool {
    id.len() > 0 && id.drop_last() == network
}

/// The subnet through which a message from `network` to `to` goes down first.
pub open spec fn next_hop(network: Seq<u64>, to: Seq<u64>) -> Seq<u64> {
    to.take(network.len() as int + 1)
}

/// How a subnet changes when a top-down message is committed to it: the
/// message goes to the end of its queue under the subnet's nonce, the nonce
/// grows by one, and the circulating supply by the value of the message.
pub open spec fn topdown_committed(before: Subnet, after: Subnet, msg: StorableMsgView) -> bool {
    &&& after.id == before.id
    &&& after.stake == before.stake
    &&& after.status == before.status
    &&& after.prev_checkpoint == before.prev_checkpoint
    &&& after.nonce == before.nonce + 1
    &&& atto(after.circ_supply) == atto(before.circ_supply) + msg.value
    &&& after.top_down_msgs@.len() == before.top_down_msgs@.len() + 1
    &&& after.top_down_msgs@.drop_last() == before.top_down_msgs@
    &&& after.top_down_msgs@.last()@ == msg.with_nonce(before.nonce)
}

/// How the state changes when a top-down message is committed: the child
/// through which the message goes down changes as `topdown_committed` says,
/// and nothing else changes.
pub open spec fn topdown_applied(before: State, after: State, msg: StorableMsgView) -> bool {
    let i = position(before.subnets@, next_hop(before.network_name@, msg.to.subnet->Some_0));
    &&& 0 <= i < before.subnets@.len()
    &&& after.subnets@.len() == before.subnets@.len()
    &&& forall|j: int|
        0 <= j < before.subnets@.len() && j != i ==> after.subnets@[j] == before.subnets@[j]
    &&& topdown_committed(before.subnets@[i], after.subnets@[i], msg)
    &&& forall|k: Seq<u64>| position(after.subnets@, k) == position(before.subnets@, k)
    &&& after == (State { subnets: after.subnets, ..before })
}

impl State {
    /// What holds of the state between any two method calls.
    pub open spec fn wf(&self) -> bool {
        &&& self.check_period >= DEFAULT_CHECKPOINT_PERIOD
        &&& atto(self.min_stake) >= 0
        &&& distinct(self.subnets@)
        &&& self.total_subnets == self.subnets@.len()
        &&& forall|i: int|
            0 <= i < self.subnets@.len() ==> self.subnet_ok(#[trigger] self.subnets@[i])
        &&& distinct(self.checkpoints@)
        &&& forall|i: int|
            0 <= i < self.checkpoints@.len() ==> self.window_ok(#[trigger] self.checkpoints@[i])
        &&& distinct(self.check_msg_registry@)
        &&& registry_sound(self.check_msg_registry@)
        &&& nonces_increasing(self.bottomup_msg_meta@, self.nonce)
        &&& distinct(self.atomic_exec_registry@)
        &&& forall|i: int|
            0 <= i < self.atomic_exec_registry@.len() ==> self.exec_ok(
                #[trigger] self.atomic_exec_registry@[i],
            )
    }

    /// What holds of every registered subnet: it is a child of this network,
    /// and is as `Subnet::wf` says.
    pub open spec fn subnet_ok(&self, sub: Subnet) -> bool {
        sub.wf(atto(self.min_stake)) && is_child_of(self.network_name@, sub.id@)
    }

    /// What holds of every window checkpoint: it is a checkpoint of this
    /// network in its canonical form, and its epoch is a multiple of the
    /// checkpoint period.
    pub open spec fn window_ok(&self, ch: Checkpoint) -> bool {
        &&& ch.wf()
        &&& ch.data.source@ == self.network_name@
        &&& ch.data.epoch >= 0
        &&& ch.data.epoch as int % self.check_period as int == 0
    }

    /// What holds of every recorded execution: it is as `AtomicExec::wf`
    /// says, and this network is the common parent of its parties.
    pub open spec fn exec_ok(&self, e: ExecEntry) -> bool {
        e.execution.wf() && crate::exec::common_parent_all(e.execution.params.inputs@)
            == self.network_name@
    }

    /// The first reason for which a top-down message cannot be committed, if
    /// there is one.
    pub open spec fn topdown_failure(&self, msg: StorableMsgView) -> Option<ActorError> {
        if msg.to.subnet is None {
            Some(ActorError::InvalidAddress)
        } else if msg.value < 0 {
            Some(ActorError::NegativeAmount)
        } else if !(is_prefix(self.network_name@, msg.to.subnet->Some_0) && self.network_name@.len()
            < msg.to.subnet->Some_0.len()) {
            Some(ActorError::NoRoute)
        } else if !present(self.subnets@, next_hop(self.network_name@, msg.to.subnet->Some_0)) {
            Some(ActorError::HopNotRegistered)
        } else {
            None
        }
    }

    /// A new state for the network that `params` names, with no subnet, no
    /// checkpoint and no execution. A checkpoint period below the default is
    /// raised to it.
    pub fn new(params: ConstructorParams) -> (r: Result<State, ActorError>)
        ensures
            match r {
                Ok(st) => {
                    &&& crate::subnet_id::parse_path(params.network_name@) == Ok::<
                        Seq<u64>,
                        crate::subnet_id::PathError,
                    >(st.network_name@)
                    &&& atto(params.min_stake) >= 0
                    &&& st.min_stake == params.min_stake
                    &&& st.check_period == if params.checkpoint_period
                        > DEFAULT_CHECKPOINT_PERIOD {
                        params.checkpoint_period
                    } else {
                        DEFAULT_CHECKPOINT_PERIOD
                    }
                    &&& st.total_subnets == 0
                    &&& st.subnets@.len() == 0
                    &&& st.checkpoints@.len() == 0
                    &&& st.check_msg_registry@.len() == 0
                    &&& st.nonce == 0
                    &&& st.bottomup_msg_meta@.len() == 0
                    &&& st.applied_bottomup_nonce == u64::MAX
                    &&& st.applied_topdown_nonce == 0
                    &&& st.atomic_exec_registry@.len() == 0
                    &&& st.wf()
                },
                Err(e) => if crate::subnet_id::parse_path(params.network_name@) is Err {
                    e == ActorError::InvalidNetworkName
                } else {
                    e == ActorError::NegativeAmount && atto(params.min_stake) < 0
                },
            },
    {
        let network_name = match SubnetID::from_str(params.network_name.as_str()) {
            Ok(id) => id,
            Err(_) => {
                return Err(ActorError::InvalidNetworkName);
            },
        };
        let zero = token_zero();
        if token_lt(&params.min_stake, &zero) {
            return Err(ActorError::NegativeAmount);
        }
        let check_period = if params.checkpoint_period > DEFAULT_CHECKPOINT_PERIOD {
            params.checkpoint_period
        } else {
            DEFAULT_CHECKPOINT_PERIOD
        };
        Ok(
            State {
                network_name,
                total_subnets: 0,
                min_stake: params.min_stake,
                subnets: Vec::new(),
                check_period,
                checkpoints: Vec::new(),
                check_msg_registry: Vec::new(),
                nonce: 0,
                bottomup_msg_meta: Vec::new(),
                applied_bottomup_nonce: u64::MAX,
                applied_topdown_nonce: 0,
                atomic_exec_registry: Vec::new(),
            },
        )
    }

    /// The subnet with the id `id`, if it is registered.
    pub fn get_subnet(&self, id: &SubnetID) -> (r: Option<&Subnet>)
        ensures
            match r {
                Some(s) => present(self.subnets@, id@) && *s == self.subnets@[position(
                    self.subnets@,
                    id@,
                )],
                None => !present(self.subnets@, id@),
            },
    {
        match find(&self.subnets, id) {
            Some(i) => Some(&self.subnets[i]),
            None => None,
        }
    }

    /// Registers the subnet `id`, a child of this network, with the collateral
    /// `value`. A subnet that is no child of this network, a collateral below
    /// the minimum stake, or a subnet that is registered already, is refused
    /// and changes nothing.
    pub fn register_subnet(&mut self, id: &SubnetID, value: TokenAmount) -> (r: Result<
        (),
        ActorError,
    >)
        requires
            old(self).wf(),
        ensures
            match r {
                Ok(()) => {
                    &&& is_child_of(old(self).network_name@, id@)
                    &&& atto(value) >= atto(old(self).min_stake)
                    &&& !present(old(self).subnets@, id@)
                    &&& final(self).subnets@.len() == old(self).subnets@.len() + 1
                    &&& final(self).subnets@.drop_last() == old(self).subnets@
                    &&& final(self).subnets@.last().id@ == id@
                    &&& final(self).subnets@.last().stake == value
                    &&& final(self).subnets@.last().status == Status::Active
                    &&& atto(final(self).subnets@.last().circ_supply) == 0
                    &&& final(self).subnets@.last().nonce == 0
                    &&& final(self).subnets@.last().top_down_msgs@.len() == 0
                    &&& final(self).subnets@.last().prev_checkpoint is None
                    &&& final(self).total_subnets == old(self).total_subnets + 1
                    &&& *final(self) == (State {
                        subnets: final(self).subnets,
                        total_subnets: final(self).total_subnets,
                        ..*old(self)
                    })
                    &&& final(self).wf()
                },
                Err(e) => *final(self) == *old(self) && if !is_child_of(
                    old(self).network_name@,
                    id@,
                ) {
                    e == ActorError::NotAChild
                } else if atto(value) < atto(old(self).min_stake) {
                    e == ActorError::NotEnoughCollateral
                } else {
                    e == ActorError::AlreadyRegistered && present(old(self).subnets@, id@)
                },
            },
    {
        match id.parent() {
            Some(p) => if !(p == self.network_name) {
                return Err(ActorError::NotAChild);
            },
            None => {
                return Err(ActorError::NotAChild);
            },
        }
        if token_lt(&value, &self.min_stake) {
            return Err(ActorError::NotEnoughCollateral);
        }
        if find(&self.subnets, id).is_some() {
            return Err(ActorError::AlreadyRegistered);
        }
        let subnet = Subnet::new(id.clone(), value, &self.min_stake);
        proof {
            lemma_push_new_key(self.subnets@, subnet);
        }
        self.subnets.push(subnet);
        self.total_subnets = self.subnets.len() as u64;
        proof {
            assert(final(self).subnets@.drop_last() =~= old(self).subnets@);
            assert forall|i: int| 0 <= i < self.subnets@.len() implies self.subnet_ok(
                #[trigger] self.subnets@[i],
            ) by {
                if i < old(self).subnets@.len() {
                    assert(self.subnets@[i] == old(self).subnets@[i]);
                    assert(old(self).subnet_ok(old(self).subnets@[i]));
                }
            }
        }
        Ok(())
    }

    /// Takes the subnet `id` out of the registry, and hands it back. Where it
    /// is not registered nothing changes.
    pub fn rm_subnet(&mut self, id: &SubnetID) -> (r: Option<Subnet>)
        requires
            old(self).wf(),
        ensures
            match r {
                Some(s) => {
                    &&& present(old(self).subnets@, id@)
                    &&& s == old(self).subnets@[position(old(self).subnets@, id@)]
                    &&& final(self).subnets@ == old(self).subnets@.remove(
                        position(old(self).subnets@, id@),
                    )
                    &&& !present(final(self).subnets@, id@)
                    &&& final(self).total_subnets == old(self).total_subnets - 1
                    &&& *final(self) == (State {
                        subnets: final(self).subnets,
                        total_subnets: final(self).total_subnets,
                        ..*old(self)
                    })
                    &&& final(self).wf()
                },
                None => !present(old(self).subnets@, id@) && *final(self) == *old(self),
            },
    {
        match find(&self.subnets, id) {
            Some(i) => {
                proof {
                    lemma_position(self.subnets@, id@);
                    lemma_remove_key(self.subnets@, i as int);
                }
                let s = self.subnets.remove(i);
                self.total_subnets = self.subnets.len() as u64;
                proof {
                    assert forall|j: int| 0 <= j < self.subnets@.len() implies self.subnet_ok(
                        #[trigger] self.subnets@[j],
                    ) by {
                        if j < i {
                            assert(self.subnets@[j] == old(self).subnets@[j]);
                            assert(old(self).subnet_ok(old(self).subnets@[j]));
                        } else {
                            assert(self.subnets@[j] == old(self).subnets@[j + 1]);
                            assert(old(self).subnet_ok(old(self).subnets@[j + 1]));
                        }
                    }
                }
                Some(s)
            },
            None => None,
        }
    }

    /// Commits a message for a subnet below this network to the queue of the
    /// child through which it goes down: under the child's next nonce, and
    /// with its value added to the child's circulating supply. A message that
    /// cannot be committed changes nothing.
    pub fn commit_topdown_msg(&mut self, msg: &StorableMsg) -> (r: Result<(), ActorError>)
        requires
            old(self).wf(),
        ensures
            match r {
                Ok(()) => {
                    &&& old(self).topdown_failure(msg@) is None
                    &&& topdown_applied(*old(self), *final(self), msg@)
                    &&& final(self).wf()
                },
                Err(e) => old(self).topdown_failure(msg@) == Some(e) && *final(self) == *old(self),
            },
    {
        let sto = match &msg.to.subnet {
            Some(s) => s,
            None => {
                return Err(ActorError::InvalidAddress);
            },
        };
        let zero = token_zero();
        if token_lt(&msg.value, &zero) {
            return Err(ActorError::NegativeAmount);
        }
        let hop = match sto.down(&self.network_name) {
            Some(h) => h,
            None => {
                return Err(ActorError::NoRoute);
            },
        };
        let i = match find(&self.subnets, &hop) {
            Some(i) => i,
            None => {
                return Err(ActorError::HopNotRegistered);
            },
        };
        proof {
            lemma_position(self.subnets@, hop@);
        }
        let ghost before = self.subnets@[i as int];
        let mut m = msg.clone();
        m.nonce = self.subnets[i].nonce;
        let stored = self.subnets[i].store_topdown_msg(&m);
        assert(stored is Ok);
        let n = self.subnets[i].top_down_msgs.len();
        self.subnets[i].nonce = n as u64;
        self.subnets[i].circ_supply = token_add(&self.subnets[i].circ_supply, &msg.value);
        proof {
            let after = self.subnets@[i as int];
            assert(after.top_down_msgs@.last().nonce == before.nonce);
            assert forall|k: int| 0 <= k < after.top_down_msgs@.len() implies (
            #[trigger] after.top_down_msgs@[k]).nonce == k by {
                if k < before.top_down_msgs@.len() {
                    assert(after.top_down_msgs@[k] == after.top_down_msgs@.drop_last()[k]);
                    assert(before.top_down_msgs@[k].nonce == k);
                }
            }
            assert(self.subnets@ =~= old(self).subnets@.update(i as int, after));
            lemma_update_keeps_keys(old(self).subnets@, i as int, after);
            assert forall|j: int| 0 <= j < self.subnets@.len() implies self.subnet_ok(
                #[trigger] self.subnets@[j],
            ) by {
                assert(old(self).subnet_ok(old(self).subnets@[j]));
                if j != i {
                    assert(self.subnets@[j] == old(self).subnets@[j]);
                }
            }
        }
        Ok(())
    }

    /// Accepts the nonce of a bottom-up message that is being applied: the
    /// nonce of the meta that is being applied already, or the one after it,
    /// which then becomes the meta that is being applied. Before any message
    /// was applied only the nonce 0 is accepted.
    pub fn bottomup_state_transition(&mut self, msg: &StorableMsg) -> (r: Result<(), ActorError>)
        ensures
            match r {
                Ok(()) => {
                    &&& bottomup_nonce_accepted(old(self).applied_bottomup_nonce, msg.nonce)
                    &&& final(self).applied_bottomup_nonce == msg.nonce
                    &&& *final(self) == (State {
                        applied_bottomup_nonce: msg.nonce,
                        ..*old(self)
                    })
                },
                Err(e) => e == ActorError::NonceMismatch && !bottomup_nonce_accepted(
                    old(self).applied_bottomup_nonce,
                    msg.nonce,
                ) && *final(self) == *old(self),
            },
    {
        let applied = self.applied_bottomup_nonce;
        if applied == u64::MAX {
            if msg.nonce == 0 {
                self.applied_bottomup_nonce = 0;
                return Ok(());
            }
            return Err(ActorError::NonceMismatch);
        }
        if msg.nonce == applied {
            return Ok(());
        }
        if msg.nonce == applied + 1 {
            self.applied_bottomup_nonce = msg.nonce;
            return Ok(());
        }
        Err(ActorError::NonceMismatch)
    }
}

/// Whether a bottom-up message with the nonce `nonce` may be applied after
/// the nonce `applied`: the same nonce again or the next one, and 0 where
/// `applied` is the largest 64-bit number, which stands for none.
pub open spec fn bottomup_nonce_accepted(applied: u64, nonce: u64) -> bool {
    if applied == u64::MAX {
        nonce == 0
    } else {
        nonce == applied || nonce == applied + 1
    }
}

} // verus!
