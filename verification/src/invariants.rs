//! Checking at run time what holds of the state between any two calls.

use crate::checkpoint::{cids_distinct, Checkpoint, CrossMsgMeta, DEFAULT_CHECKPOINT_PERIOD};
use crate::econ::{atto, token_lt, token_zero};
use crate::exec::{AtomicExec, AtomicExecParams, ExecStatus};
use crate::hash::Cid;
use crate::keyed::{find, is_distinct, is_sorted, present};
use crate::state::{nonces_increasing, registry_sound, MsgsEntry, State};
use crate::subnet::{nonces_dense, Status, Subnet};
use crate::types::StorableMsg;
use fvm_shared::econ::TokenAmount;
use vstd::prelude::*;

verus! {

/// Whether each message of the queue stands at the place of its nonce.
fn check_nonces_dense(msgs: &Vec<StorableMsg>) -> (r: bool)
    ensures
        r == nonces_dense(msgs@),
{
    let mut i: usize = 0;
    while i < msgs.len()
        invariant
            0 <= i <= msgs.len(),
            forall|k: int| 0 <= k < i ==> (#[trigger] msgs@[k]).nonce == k,
        decreases msgs.len() - i,
    {
        if msgs[i].nonce != i as u64 {
            return false;
        }
        i += 1;
    }
    true
}

/// Whether no identifier occurs twice.
fn check_cids_distinct(cids: &Vec<Cid>) -> (r: bool)
    ensures
        r == cids_distinct(cids@),
{
    let n = cids.len();
    let mut j: usize = 0;
    while j < n
        invariant
            0 <= j <= n,
            n == cids@.len(),
            forall|a: int, b: int| 0 <= a < b < j ==> (#[trigger] cids@[a])@ != (#[trigger] cids@[b])@,
        decreases n - j,
    {
        let mut i: usize = 0;
        while i < j
            invariant
                0 <= i <= j < n,
                n == cids@.len(),
                forall|a: int| 0 <= a < i ==> (#[trigger] cids@[a])@ != cids@[j as int]@,
            decreases j - i,
        {
            if cids[i] == cids[j] {
                return false;
            }
            i += 1;
        }
        j += 1;
    }
    true
}

/// Whether the nonces of the metas grow strictly and stay below `bound`.
fn check_nonces_increasing(metas: &Vec<CrossMsgMeta>, bound: u64) -> (r: bool)
    ensures
        r == nonces_increasing(metas@, bound),
{
    let n = metas.len();
    let mut i: usize = 0;
    while i < n
        invariant
            0 <= i <= n,
            n == metas@.len(),
            forall|a: int, b: int|
                0 <= a < b < i ==> (#[trigger] metas@[a]).nonce < (#[trigger] metas@[b]).nonce,
            forall|a: int| 0 <= a < i ==> (#[trigger] metas@[a]).nonce < bound,
        decreases n - i,
    {
        if metas[i].nonce >= bound {
            return false;
        }
        if i > 0 && metas[i - 1].nonce >= metas[i].nonce {
            assert(!(metas@[i as int - 1].nonce < metas@[i as int].nonce));
            return false;
        }
        proof {
            assert forall|a: int| 0 <= a < i implies (#[trigger] metas@[a]).nonce
                < metas@[i as int].nonce by {
                if a < i - 1 {
                    assert(metas@[a].nonce < metas@[i as int - 1].nonce);
                }
            }
        }
        i += 1;
    }
    true
}

impl Subnet {
    /// Whether the subnet is as every registered subnet is.
    pub fn check(&self, min_stake: &TokenAmount) -> (r: bool)
        ensures
            r == self.wf(atto(*min_stake)),
    {
        let zero = token_zero();
        let staked = !token_lt(&self.stake, min_stake);
        let status_fits = match self.status {
            Status::Active => staked,
            Status::Inactive => !staked,
            Status::Killed => false,
        };
        status_fits && !token_lt(&self.stake, &zero) && !token_lt(&self.circ_supply, &zero)
            && self.top_down_msgs.len() as u64 == self.nonce && check_nonces_dense(
            &self.top_down_msgs,
        )
    }
}

impl Checkpoint {
    /// Whether the checkpoint is in its canonical form.
    pub fn check(&self) -> (r: bool)
        ensures
            r == self.wf(),
    {
        if !is_sorted(&self.data.children) || !is_sorted(&self.data.cross_msgs) {
            return false;
        }
        let mut i: usize = 0;
        while i < self.data.children.len()
            invariant
                0 <= i <= self.data.children.len(),
                forall|k: int|
                    0 <= k < i ==> cids_distinct((#[trigger] self.data.children@[k]).checks@),
            decreases self.data.children.len() - i,
        {
            if !check_cids_distinct(&self.data.children[i].checks) {
                return false;
            }
            i += 1;
        }
        true
    }
}

impl AtomicExecParams {
    /// Whether the parameters are well formed.
    pub fn check(&self) -> (r: bool)
        ensures
            r == self.wf(),
    {
        if !is_distinct(&self.inputs) {
            return false;
        }
        let mut i: usize = 0;
        while i < self.inputs.len()
            invariant
                0 <= i <= self.inputs.len(),
                forall|k: int| 0 <= k < i ==> (#[trigger] self.inputs@[k]).addr@.subnet is Some,
                forall|k: int| 0 <= k < i ==> (#[trigger] self.inputs@[k]).addr@.payload is ID,
            decreases self.inputs.len() - i,
        {
            let is_id = match &self.inputs[i].addr.payload {
                crate::address::Payload::ID(_) => true,
                _ => false,
            };
            if self.inputs[i].addr.subnet.is_none() || !is_id {
                return false;
            }
            i += 1;
        }
        true
    }
}

impl AtomicExec {
    /// Whether the execution is as every recorded execution is.
    pub fn check(&self) -> (r: bool)
        ensures
            r == self.wf(),
    {
        let parties = self.params.inputs.len();
        let submitted = self.submitted.len();
        if !self.params.check() || self.params.msgs.len() < 1 || parties < 2 || !is_distinct(
            &self.submitted,
        ) || submitted > parties || !crate::orchestrator::msgs_same_target(&self.params.msgs) {
            return false;
        }
        let status_fits = match self.status {
            ExecStatus::Success => submitted == parties,
            ExecStatus::Initialized => submitted < parties,
            ExecStatus::Aborted => true,
        };
        if !status_fits {
            return false;
        }
        let mut i: usize = 0;
        while i < self.submitted.len()
            invariant
                0 <= i <= self.submitted.len(),
                forall|k: int|
                    0 <= k < i ==> present(
                        self.params.inputs@,
                        (#[trigger] self.submitted@[k]).addr@,
                    ),
            decreases self.submitted.len() - i,
        {
            if find(&self.params.inputs, &self.submitted[i].addr).is_none() {
                return false;
            }
            i += 1;
        }
        true
    }
}

/// Whether every content stands under its own identifier.
fn check_registry_sound(registry: &Vec<MsgsEntry>) -> (r: bool)
    ensures
        r == registry_sound(registry@),
{
    let mut i: usize = 0;
    while i < registry.len()
        invariant
            0 <= i <= registry.len(),
            forall|k: int|
                0 <= k < i ==> (#[trigger] registry@[k]).cid@ == registry@[k].msgs.spec_cid(),
        decreases registry.len() - i,
    {
        let cid = registry[i].msgs.cid();
        if !(registry[i].cid == cid) {
            return false;
        }
        i += 1;
    }
    true
}

impl State {
    /// Whether every subnet is as every registered subnet is.
    fn check_subnets(&self) -> (r: bool)
        ensures
            r == forall|i: int|
                0 <= i < self.subnets@.len() ==> self.subnet_ok(#[trigger] self.subnets@[i]),
    {
        let mut i: usize = 0;
        while i < self.subnets.len()
            invariant
                0 <= i <= self.subnets.len(),
                forall|k: int| 0 <= k < i ==> self.subnet_ok(#[trigger] self.subnets@[k]),
            decreases self.subnets.len() - i,
        {
            let child = match self.subnets[i].id.parent() {
                Some(p) => p == self.network_name,
                None => false,
            };
            if !child || !self.subnets[i].check(&self.min_stake) {
                return false;
            }
            i += 1;
        }
        true
    }

    /// Whether every window checkpoint is as every window checkpoint is.
    fn check_checkpoints(&self) -> (r: bool)
        requires
            self.check_period > 0,
        ensures
            r == forall|i: int|
                0 <= i < self.checkpoints@.len() ==> self.window_ok(#[trigger] self.checkpoints@[i]),
    {
        let mut i: usize = 0;
        while i < self.checkpoints.len()
            invariant
                0 <= i <= self.checkpoints.len(),
                self.check_period > 0,
                forall|k: int| 0 <= k < i ==> self.window_ok(#[trigger] self.checkpoints@[k]),
            decreases self.checkpoints.len() - i,
        {
            let ch = &self.checkpoints[i];
            if !ch.check() || !(ch.data.source == self.network_name) || ch.data.epoch < 0
                || ch.data.epoch % self.check_period != 0 {
                return false;
            }
            i += 1;
        }
        true
    }

    /// Whether every execution is as every recorded execution is.
    fn check_execs(&self) -> (r: bool)
        ensures
            r == forall|i: int|
                0 <= i < self.atomic_exec_registry@.len() ==> self.exec_ok(
                    #[trigger] self.atomic_exec_registry@[i],
                ),
    {
        let mut i: usize = 0;
        while i < self.atomic_exec_registry.len()
            invariant
                0 <= i <= self.atomic_exec_registry.len(),
                forall|k: int|
                    0 <= k < i ==> self.exec_ok(#[trigger] self.atomic_exec_registry@[k]),
            decreases self.atomic_exec_registry.len() - i,
        {
            let e = &self.atomic_exec_registry[i].execution;
            if !e.check() {
                return false;
            }
            match crate::exec::is_common_parent(&self.network_name, &e.params.inputs) {
                Ok(true) => {},
                _ => {
                    return false;
                },
            }
            i += 1;
        }
        true
    }

    /// Whether the state is as it is between any two calls: every method
    /// that is called on such a state leaves such a state.
    pub fn verify_invariants(&self) -> (r: bool)
        ensures
            r == self.wf(),
    {
        let zero = token_zero();
        if self.check_period < DEFAULT_CHECKPOINT_PERIOD {
            return false;
        }
        !token_lt(&self.min_stake, &zero) && is_distinct(&self.subnets) && self.total_subnets == self.subnets.len() as u64
            && self.check_subnets() && is_distinct(&self.checkpoints) && self.check_checkpoints()
            && is_distinct(&self.check_msg_registry) && check_registry_sound(
            &self.check_msg_registry,
        ) && check_nonces_increasing(&self.bottomup_msg_meta, self.nonce) && is_distinct(
            &self.atomic_exec_registry,
        ) && self.check_execs()
    }
}

} // verus!
