//! The orchestration of atomic executions.

use crate::actor::{signable, Actor, ActorType, Invocation};
use crate::address::{Address, AddressView, SCA_ACTOR_ID};
use crate::atomic::{LockParams, UnlockParams, METHOD_ABORT, METHOD_UNLOCK};
use crate::econ::{atto, token_zero};
use crate::error::ActorError;
use crate::exec::{
    common_parent_all, input_subnet, is_addr_in_exec, is_common_parent, raw_addr_in,
    resolve_failure, resolved_key, same_target, AbortExecParams, AtomicExec, AtomicExecParams,
    AtomicExecParamsRaw, ExecInput, ExecStatus, LockedOutput, Submission, SubmitExecParams,
    SubmitOutput, SubmitView,
};
use crate::hash::{blake2b256_cid, bytes_clone, Cid};
use crate::keyed::{
    find, lemma_position, lemma_position_unique, lemma_push_new_key, lemma_update_keeps_keys,
    position, present,
};
use crate::state::{next_hop, ExecEntry, State};
use crate::subnet::Subnet;
use crate::types::{MethodNum, StorableMsg, StorableMsgView};
use crate::views::{lemma_views_push, views};
use vstd::prelude::*;

verus! {

/// Whether no earlier party is in the subnet of the party at `j`.
pub open spec fn first_of_subnet(inputs: Seq<ExecInput>, j: int) -> bool {
    forall|i: int| 0 <= i < j ==> (#[trigger] inputs[i]).addr@.subnet != inputs[j].addr@.subnet
}

/// The message that tells the actor of a party how the execution ended.
pub open spec fn result_msg(net: Seq<u64>, input: ExecInput, method: MethodNum, params: Seq<u8>) -> StorableMsgView {
    StorableMsgView {
        from: AddressView::id(SCA_ACTOR_ID).within(net),
        to: AddressView { subnet: input.addr@.subnet, payload: input.info.actor@.payload },
        method,
        params,
        value: 0,
        nonce: 0,
    }
}

/// The first reason for which the result cannot be sent to the first `n`
/// parties, if there is one. One message goes to each subnet: to the actor of
/// the first party in it.
pub open spec fn propagate_failure(st: State, inputs: Seq<ExecInput>, n: int) -> Option<ActorError>
    decreases n,
{
    if n <= 0 {
        None
    } else {
        let before = propagate_failure(st, inputs, n - 1);
        if before is Some {
            before
        } else if !first_of_subnet(inputs, n - 1) {
            None
        } else if inputs[n - 1].info.actor@.is_hierarchical() {
            Some(ActorError::InvalidAddress)
        } else {
            st.topdown_failure(result_msg(st.network_name@, inputs[n - 1], 0, Seq::<u8>::empty()))
        }
    }
}

/// The result messages for the first `n` parties that go down through the
/// child `hop`, under the nonces from `nonce0` on.
pub open spec fn queued_for(
    net: Seq<u64>,
    inputs: Seq<ExecInput>,
    hop: Seq<u64>,
    method: MethodNum,
    params: Seq<u8>,
    nonce0: int,
    n: int,
) -> Seq<StorableMsgView>
    decreases n,
{
    if n <= 0 {
        Seq::<StorableMsgView>::empty()
    } else {
        let before = queued_for(net, inputs, hop, method, params, nonce0, n - 1);
        if first_of_subnet(inputs, n - 1) && next_hop(net, input_subnet(inputs, n - 1)) == hop {
            before.push(
                result_msg(net, inputs[n - 1], method, params).with_nonce(
                    (nonce0 + before.len()) as u64,
                ),
            )
        } else {
            before
        }
    }
}

/// How the subnets change when the result of an execution has been sent to
/// its first `n` parties: each child has the result messages that go down
/// through it behind those it had, under its next nonces, and nothing else
/// changes.
pub open spec fn results_queued(
    before: State,
    after: State,
    inputs: Seq<ExecInput>,
    method: MethodNum,
    params: Seq<u8>,
    n: int,
) -> bool {
    &&& after.subnets@.len() == before.subnets@.len()
    &&& forall|j: int|
        0 <= j < before.subnets@.len() ==> child_queued(
            before.network_name@,
            #[trigger] before.subnets@[j],
            after.subnets@[j],
            inputs,
            method,
            params,
            n,
        )
    &&& forall|k: Seq<u64>| position(after.subnets@, k) == position(before.subnets@, k)
    &&& after == (State { subnets: after.subnets, ..before })
}

/// How one child changes when the result of an execution has been sent to
/// its first `n` parties.
pub open spec fn child_queued(
    net: Seq<u64>,
    before: Subnet,
    after: Subnet,
    inputs: Seq<ExecInput>,
    method: MethodNum,
    params: Seq<u8>,
    n: int,
) -> bool {
    let q = queued_for(net, inputs, before.id@, method, params, before.nonce as int, n);
    &&& views(after.top_down_msgs@) == views(before.top_down_msgs@) + q
    &&& after.nonce == before.nonce + q.len()
    &&& after.id == before.id
    &&& after.stake == before.stake
    &&& after.status == before.status
    &&& after.prev_checkpoint == before.prev_checkpoint
    &&& atto(after.circ_supply) == atto(before.circ_supply)
}

/// A reason not to send to the first `k` parties is the reason not to send to
/// more of them.
pub proof fn lemma_propagate_failure_stays(st: State, inputs: Seq<ExecInput>, k: int, n: int)
    requires
        0 <= k <= n,
        propagate_failure(st, inputs, k) is Some,
    ensures
        propagate_failure(st, inputs, n) == propagate_failure(st, inputs, k),
    decreases n - k,
{
    if k < n {
        lemma_propagate_failure_stays(st, inputs, k, n - 1);
    }
}

/// Whether no earlier party is in the subnet of the party at `j`.
fn is_first_of_subnet(inputs: &Vec<ExecInput>, j: usize) -> (r: bool)
    requires
        j < inputs@.len(),
    ensures
        r == first_of_subnet(inputs@, j as int),
{
    let mut i: usize = 0;
    while i < j
        invariant
            0 <= i <= j < inputs@.len(),
            forall|k: int| 0 <= k < i ==> (#[trigger] inputs@[k]).addr@.subnet
                != inputs@[j as int].addr@.subnet,
        decreases j - i,
    {
        let same = match (&inputs[i].addr.subnet, &inputs[j].addr.subnet) {
            (Some(a), Some(b)) => a == b,
            (None, None) => true,
            _ => false,
        };
        if same {
            return false;
        }
        i += 1;
    }
    true
}

/// The message that tells the actor of a party how the execution ended.
fn new_result_msg(st: &State, input: &ExecInput, method: MethodNum, params: &Vec<u8>) -> (r:
    StorableMsg)
    ensures
        r@ == result_msg(st.network_name@, *input, method, params@),
{
    let from = Address {
        subnet: Some(st.network_name.clone()),
        payload: crate::address::Payload::ID(SCA_ACTOR_ID),
    };
    let to = Address {
        subnet: match &input.addr.subnet {
            Some(s) => Some(s.clone()),
            None => None,
        },
        payload: input.info.actor.payload.clone(),
    };
    StorableMsg { from, to, method, params: bytes_clone(params), value: token_zero(), nonce: 0 }
}

impl State {
    /// Checks whether the result of an execution can be sent to all its
    /// parties.
    pub fn check_propagate(&self, inputs: &Vec<ExecInput>) -> (r: Result<(), ActorError>)
        ensures
            match r {
                Ok(()) => propagate_failure(*self, inputs@, inputs@.len() as int) is None,
                Err(e) => propagate_failure(*self, inputs@, inputs@.len() as int) == Some(e),
            },
    {
        let n = inputs.len();
        let mut j: usize = 0;
        while j < n
            invariant
                0 <= j <= n,
                n == inputs@.len(),
                propagate_failure(*self, inputs@, j as int) is None,
            decreases n - j,
        {
            if is_first_of_subnet(inputs, j) {
                let ghost m = result_msg(
                    self.network_name@,
                    inputs@[j as int],
                    0,
                    Seq::<u8>::empty(),
                );
                let failure = if inputs[j].info.actor.subnet.is_some() {
                    Some(ActorError::InvalidAddress)
                } else {
                    match &inputs[j].addr.subnet {
                        None => Some(ActorError::InvalidAddress),
                        Some(sto) => match sto.down(&self.network_name) {
                            None => Some(ActorError::NoRoute),
                            Some(hop) => if find(&self.subnets, &hop).is_some() {
                                None
                            } else {
                                Some(ActorError::HopNotRegistered)
                            },
                        },
                    }
                };
                match failure {
                    Some(e) => {
                        proof {
                            lemma_propagate_failure_stays(
                                *self,
                                inputs@,
                                j as int + 1,
                                n as int,
                            );
                        }
                        return Err(e);
                    },
                    None => {},
                }
            }
            j += 1;
        }
        Ok(())
    }

    /// Sends the result of an execution to its parties: one message for each
    /// subnet, to the actor of the first party in it, committed to the child
    /// through which it goes down.
    pub fn propagate_exec_result(
        &mut self,
        inputs: &Vec<ExecInput>,
        method: MethodNum,
        params: &Vec<u8>,
    )
        requires
            old(self).wf(),
            propagate_failure(*old(self), inputs@, inputs@.len() as int) is None,
        ensures
            final(self).wf(),
            results_queued(
                *old(self),
                *final(self),
                inputs@,
                method,
                params@,
                inputs@.len() as int,
            ),
    {
        let n = inputs.len();
        let ghost net = self.network_name@;
        let mut j: usize = 0;
        proof {
            assert forall|c: int| 0 <= c < self.subnets@.len() implies child_queued(
                net,
                #[trigger] self.subnets@[c],
                self.subnets@[c],
                inputs@,
                method,
                params@,
                0,
            ) by {
                assert(views(self.subnets@[c].top_down_msgs@) + Seq::<StorableMsgView>::empty()
                    =~= views(self.subnets@[c].top_down_msgs@));
            }
        }
        while j < n
            invariant
                0 <= j <= n,
                n == inputs@.len(),
                net == old(self).network_name@,
                old(self).wf(),
                self.wf(),
                propagate_failure(*old(self), inputs@, n as int) is None,
                results_queued(*old(self), *self, inputs@, method, params@, j as int),
            decreases n - j,
        {
            let ghost prev = *self;
            proof {
                if propagate_failure(*old(self), inputs@, j as int + 1) is Some {
                    lemma_propagate_failure_stays(*old(self), inputs@, j as int + 1, n as int);
                }
            }
            if is_first_of_subnet(inputs, j) {
                let msg = new_result_msg(self, &inputs[j], method, params);
                proof {
                    let checked = result_msg(net, inputs@[j as int], 0, Seq::<u8>::empty());
                    assert(old(self).topdown_failure(checked) is None);
                    assert(prev.topdown_failure(msg@) is None);
                }
                let sent = self.commit_topdown_msg(&msg);
                assert(sent is Ok);
                proof {
                    let hop = next_hop(net, input_subnet(inputs@, j as int));
                    let h = position(prev.subnets@, hop);
                    lemma_position(old(self).subnets@, hop);
                    assert forall|c: int| 0 <= c < old(self).subnets@.len() implies child_queued(
                        net,
                        #[trigger] old(self).subnets@[c],
                        self.subnets@[c],
                        inputs@,
                        method,
                        params@,
                        j as int + 1,
                    ) by {
                        assert(child_queued(
                            net,
                            old(self).subnets@[c],
                            prev.subnets@[c],
                            inputs@,
                            method,
                            params@,
                            j as int,
                        ));
                        let q0 = queued_for(
                            net,
                            inputs@,
                            old(self).subnets@[c].id@,
                            method,
                            params@,
                            old(self).subnets@[c].nonce as int,
                            j as int,
                        );
                        if c == h {
                            let after = self.subnets@[c];
                            let before = prev.subnets@[c];
                            assert(after.top_down_msgs@ =~= before.top_down_msgs@.push(
                                after.top_down_msgs@.last(),
                            ));
                            lemma_views_push(before.top_down_msgs@, after.top_down_msgs@.last());
                            assert(old(self).subnets@[c].id@ == hop);
                            assert(views(after.top_down_msgs@) =~= views(
                                old(self).subnets@[c].top_down_msgs@,
                            ) + q0.push(msg@.with_nonce(before.nonce)));
                        } else {
                            assert(self.subnets@[c] == prev.subnets@[c]);
                            if old(self).subnets@[c].id@ == hop {
                                lemma_position_unique(old(self).subnets@, hop, c);
                            }
                        }
                    }
                }
            } else {
                proof {
                    assert forall|c: int| 0 <= c < old(self).subnets@.len() implies child_queued(
                        net,
                        #[trigger] old(self).subnets@[c],
                        self.subnets@[c],
                        inputs@,
                        method,
                        params@,
                        j as int + 1,
                    ) by {
                        assert(child_queued(
                            net,
                            old(self).subnets@[c],
                            prev.subnets@[c],
                            inputs@,
                            method,
                            params@,
                            j as int,
                        ));
                    }
                }
            }
            j += 1;
        }
    }
}

/// Whether `p` holds the parameters `raw` with every party named by its id
/// address, as the host resolved it.
pub open spec fn params_resolved(raw: AtomicExecParamsRaw, ids: Seq<Option<u64>>, p: AtomicExecParams) -> bool {
    &&& p.msgs == raw.msgs
    &&& p.inputs@.len() == raw.inputs@.len()
    &&& forall|i: int|
        0 <= i < p.inputs@.len() ==> (#[trigger] p.inputs@[i]).addr@ == resolved_key(
            raw.inputs@,
            ids,
            i,
        ) && p.inputs@[i].info.cid@ == raw.inputs@[i].info.cid@ && p.inputs@[i].info.actor@
            == raw.inputs@[i].info.actor@
}

/// The first reason to refuse to start an execution, if there is one.
pub open spec fn init_failure(
    st: State,
    inv: Invocation,
    raw: AtomicExecParamsRaw,
    ids: Seq<Option<u64>>,
) -> Option<ActorError> {
    if !signable(inv.caller_type) {
        Some(ActorError::Forbidden)
    } else if !raw.has_cid() {
        Some(ActorError::ExecIdFailed)
    } else if resolve_failure(raw.inputs@, ids, raw.inputs@.len() as int) is Some {
        Some(ActorError::InvalidExecInputs)
    } else if present(st.atomic_exec_registry@, raw.spec_cid()) {
        Some(ActorError::ExecExists)
    } else if raw.msgs@.len() == 0 || raw.inputs@.len() < 2 {
        Some(ActorError::WrongExecShape)
    } else if common_parent_all(raw.inputs@) != st.network_name@ {
        Some(ActorError::NotCommonParent)
    } else if !same_target(raw.msgs@) {
        Some(ActorError::MixedMessages)
    } else {
        None
    }
}

/// The execution with the identifier `cid`.
pub open spec fn exec_of(st: State, cid: Seq<u8>) -> AtomicExec {
    st.atomic_exec_registry@[position(st.atomic_exec_registry@, cid)].execution
}

/// Whether a party has submitted another output than `out`.
pub open spec fn conflicts(submitted: Seq<Submission>, out: Seq<u8>) -> bool {
    exists|i: int| 0 <= i < submitted.len() && (#[trigger] submitted[i]).output@ != out
}

/// The status of an execution after a party has submitted: aborted where the
/// party aborts or its output differs from one submitted before, successful
/// where it is the last party to submit, and waiting otherwise.
pub open spec fn status_after(e: AtomicExec, p: SubmitView) -> ExecStatus {
    if p.abort || conflicts(e.submitted@, blake2b256_cid(p.output)) {
        ExecStatus::Aborted
    } else if e.submitted@.len() + 1 == e.params.inputs@.len() {
        ExecStatus::Success
    } else {
        ExecStatus::Initialized
    }
}

/// The parameters of the message that unlocks the parties of a successful
/// execution: the method and parameters of the execution's first message, and
/// the output.
pub open spec fn unlock_params(e: AtomicExec, output: Seq<u8>) -> Seq<u8> {
    crate::encoding::cbor_array_head(2) + crate::encoding::cbor_array_head(2)
        + crate::encoding::cbor_uint(e.params.msgs@[0].method) + crate::encoding::cbor_bytes(
        e.params.msgs@[0].params@,
    ) + crate::encoding::cbor_array_head(1) + crate::encoding::cbor_bytes(output)
}

/// The first reason to refuse a submission of the party `caller`, if there is
/// one.
pub open spec fn submit_failure(st: State, caller: AddressView, p: SubmitView) -> Option<
    ActorError,
> {
    let e = exec_of(st, p.cid);
    if !present(st.atomic_exec_registry@, p.cid) {
        Some(ActorError::ExecNotFound)
    } else if !present(e.params.inputs@, caller) {
        Some(ActorError::NotInExec)
    } else if e.status != ExecStatus::Initialized {
        Some(ActorError::ExecFinalized)
    } else if !p.abort && present(e.submitted@, caller) {
        Some(ActorError::AlreadySubmitted)
    } else if status_after(e, p) != ExecStatus::Initialized {
        propagate_failure(st, e.params.inputs@, e.params.inputs@.len() as int)
    } else {
        None
    }
}

/// The first reason to refuse to abort an execution, if there is one.
pub open spec fn abort_failure(st: State, inv: Invocation, cid: Seq<u8>) -> Option<ActorError> {
    let e = exec_of(st, cid);
    if !signable(inv.caller_type) {
        Some(ActorError::Forbidden)
    } else if !(inv.caller@.subnet is None && inv.caller@.payload is ID) {
        Some(ActorError::CallerNotId)
    } else if !present(st.atomic_exec_registry@, cid) {
        Some(ActorError::ExecNotFound)
    } else if !raw_addr_in(e.params.inputs@, inv.caller@) {
        Some(ActorError::NotInExec)
    } else if e.status != ExecStatus::Initialized {
        Some(ActorError::ExecFinalized)
    } else {
        propagate_failure(st, e.params.inputs@, e.params.inputs@.len() as int)
    }
}

/// How the registry of executions changes when the execution at `q` gets the
/// status `status`: its parameters stay, its submissions are `submitted`, and
/// every other execution stays as it is.
pub open spec fn exec_updated(
    before: Seq<ExecEntry>,
    after: Seq<ExecEntry>,
    q: int,
    status: ExecStatus,
) -> bool {
    &&& after.len() == before.len()
    &&& forall|j: int| 0 <= j < before.len() && j != q ==> after[j] == before[j]
    &&& after[q].cid == before[q].cid
    &&& after[q].execution.params == before[q].execution.params
    &&& after[q].execution.status == status
}

/// How the state changes when the party `caller` submits `p`.
///
/// The execution gets the status that `status_after` gives. A submission that
/// neither aborts nor conflicts is recorded behind those before it. Where the
/// execution ends, each subnet of a party gets one message: to abort, with no
/// parameters, or to unlock, with the output. Nothing else changes.
pub open spec fn submit_applied(before: State, after: State, caller: AddressView, p: SubmitView) -> bool {
    let q = position(before.atomic_exec_registry@, p.cid);
    let e = before.atomic_exec_registry@[q].execution;
    let e2 = after.atomic_exec_registry@[q].execution;
    let status = status_after(e, p);
    let queued = State { atomic_exec_registry: before.atomic_exec_registry, ..after };
    &&& exec_updated(before.atomic_exec_registry@, after.atomic_exec_registry@, q, status)
    &&& if p.abort || conflicts(e.submitted@, blake2b256_cid(p.output)) {
        e2.submitted == e.submitted
    } else {
        &&& e2.submitted@.len() == e.submitted@.len() + 1
        &&& e2.submitted@.drop_last() == e.submitted@
        &&& e2.submitted@.last().addr@ == caller
        &&& e2.submitted@.last().output@ == blake2b256_cid(p.output)
    }
    &&& match status {
        ExecStatus::Initialized => queued == before,
        ExecStatus::Aborted => results_queued(
            before,
            queued,
            e.params.inputs@,
            METHOD_ABORT,
            Seq::<u8>::empty(),
            e.params.inputs@.len() as int,
        ),
        ExecStatus::Success => results_queued(
            before,
            queued,
            e.params.inputs@,
            METHOD_UNLOCK,
            unlock_params(e, p.output),
            e.params.inputs@.len() as int,
        ),
    }
}

/// How the state changes when the execution `cid` is aborted from outside:
/// it gets the status aborted, its submissions stay, and each subnet of a
/// party gets one message to abort. Nothing else changes.
pub open spec fn abort_applied(before: State, after: State, cid: Seq<u8>) -> bool {
    let q = position(before.atomic_exec_registry@, cid);
    let e = before.atomic_exec_registry@[q].execution;
    let queued = State { atomic_exec_registry: before.atomic_exec_registry, ..after };
    &&& exec_updated(
        before.atomic_exec_registry@,
        after.atomic_exec_registry@,
        q,
        ExecStatus::Aborted,
    )
    &&& after.atomic_exec_registry@[q].execution.submitted == e.submitted
    &&& results_queued(
        before,
        queued,
        e.params.inputs@,
        METHOD_ABORT,
        Seq::<u8>::empty(),
        e.params.inputs@.len() as int,
    )
}

/// The common parent of parties depends on their subnets alone.
pub proof fn lemma_common_parent_same_subnets(a: Seq<ExecInput>, b: Seq<ExecInput>, n: int)
    requires
        a.len() == b.len(),
        0 <= n <= a.len(),
        a.len() > 0,
        forall|i: int| 0 <= i < a.len() ==> (#[trigger] a[i]).addr@.subnet == b[i].addr@.subnet,
    ensures
        crate::exec::common_parent_upto(a, n) == crate::exec::common_parent_upto(b, n),
    decreases n,
{
    assert(a[0].addr@.subnet == b[0].addr@.subnet);
    if n > 0 {
        lemma_common_parent_same_subnets(a, b, n - 1);
        assert(a[n - 1].addr@.subnet == b[n - 1].addr@.subnet);
    }
}

/// Whether all messages have the method and the destination of the first.
pub(crate) fn msgs_same_target(msgs: &Vec<StorableMsg>) -> (r: bool)
    ensures
        r == same_target(msgs@),
{
    let mut i: usize = 0;
    while i < msgs.len()
        invariant
            0 <= i <= msgs.len(),
            forall|j: int|
                0 <= j < i ==> (#[trigger] msgs@[j]).method == msgs@[0].method && msgs@[j].to@
                    == msgs@[0].to@,
        decreases msgs.len() - i,
    {
        if msgs[i].method != msgs[0].method || !(msgs[i].to == msgs[0].to) {
            return false;
        }
        i += 1;
    }
    true
}

/// Whether a party has submitted another output than `out`.
fn has_conflict(submitted: &Vec<Submission>, out: &Cid) -> (r: bool)
    ensures
        r == conflicts(submitted@, out@),
{
    let mut i: usize = 0;
    while i < submitted.len()
        invariant
            0 <= i <= submitted.len(),
            forall|j: int| 0 <= j < i ==> (#[trigger] submitted@[j]).output@ == out@,
        decreases submitted.len() - i,
    {
        if !(submitted[i].output == *out) {
            return true;
        }
        i += 1;
    }
    false
}

impl State {
    /// The execution with the identifier `cid`, if there is one.
    pub fn get_atomic_exec(&self, cid: &Cid) -> (r: Option<&AtomicExec>)
        ensures
            match r {
                Some(e) => present(self.atomic_exec_registry@, cid@) && *e == exec_of(*self, cid@),
                None => !present(self.atomic_exec_registry@, cid@),
            },
    {
        match find(&self.atomic_exec_registry, cid) {
            Some(q) => Some(&self.atomic_exec_registry[q].execution),
            None => None,
        }
    }

    /// Ends the execution at `q` with the status `status`, and sends the
    /// result to its parties with the method `method` and the parameters
    /// `params`.
    fn finalize_exec(&mut self, q: usize, status: ExecStatus, method: MethodNum, params: &Vec<u8>)
        requires
            old(self).wf(),
            q < old(self).atomic_exec_registry@.len(),
            status != ExecStatus::Initialized,
            status == ExecStatus::Success ==> old(
                self,
            ).atomic_exec_registry@[q as int].execution.submitted@.len() == old(
                self,
            ).atomic_exec_registry@[q as int].execution.params.inputs@.len(),
            propagate_failure(
                *old(self),
                old(self).atomic_exec_registry@[q as int].execution.params.inputs@,
                old(self).atomic_exec_registry@[q as int].execution.params.inputs@.len() as int,
            ) is None,
        ensures
            final(self).wf(),
            exec_updated(
                old(self).atomic_exec_registry@,
                final(self).atomic_exec_registry@,
                q as int,
                status,
            ),
            final(self).atomic_exec_registry@[q as int].execution.submitted == old(
                self,
            ).atomic_exec_registry@[q as int].execution.submitted,
            results_queued(
                *old(self),
                State { atomic_exec_registry: old(self).atomic_exec_registry, ..*final(self) },
                old(self).atomic_exec_registry@[q as int].execution.params.inputs@,
                method,
                params@,
                old(self).atomic_exec_registry@[q as int].execution.params.inputs@.len() as int,
            ),
    {
        self.atomic_exec_registry[q].execution.status = status;
        proof {
            let entry = self.atomic_exec_registry@[q as int];
            assert(self.atomic_exec_registry@ =~= old(self).atomic_exec_registry@.update(
                q as int,
                entry,
            ));
            lemma_update_keeps_keys(old(self).atomic_exec_registry@, q as int, entry);
            assert forall|j: int| 0 <= j < self.atomic_exec_registry@.len() implies self.exec_ok(
                #[trigger] self.atomic_exec_registry@[j],
            ) by {
                assert(old(self).exec_ok(old(self).atomic_exec_registry@[j]));
                if j != q {
                    assert(self.atomic_exec_registry@[j] == old(self).atomic_exec_registry@[j]);
                }
            }
        }
        let ghost marked = *self;
        let inputs = clone_inputs(&self.atomic_exec_registry[q].execution.params.inputs);
        proof {
            lemma_propagate_same(
                *old(self),
                marked,
                old(self).atomic_exec_registry@[q as int].execution.params.inputs@,
                inputs@,
                inputs@.len() as int,
            );
        }
        self.propagate_exec_result(&inputs, method, params);
        proof {
            let queued = State { atomic_exec_registry: old(self).atomic_exec_registry, ..*self };
            let orig = old(self).atomic_exec_registry@[q as int].execution.params.inputs@;
            assert forall|c: int| 0 <= c < old(self).subnets@.len() implies child_queued(
                old(self).network_name@,
                #[trigger] old(self).subnets@[c],
                queued.subnets@[c],
                orig,
                method,
                params@,
                orig.len() as int,
            ) by {
                assert(child_queued(
                    marked.network_name@,
                    marked.subnets@[c],
                    self.subnets@[c],
                    inputs@,
                    method,
                    params@,
                    inputs@.len() as int,
                ));
                lemma_queued_same(
                    old(self).network_name@,
                    inputs@,
                    orig,
                    old(self).subnets@[c].id@,
                    method,
                    params@,
                    old(self).subnets@[c].nonce as int,
                    orig.len() as int,
                );
            }
        }
    }
}

/// Whether two lists of parties name the same parties with the same actors.
pub open spec fn same_parties(a: Seq<ExecInput>, b: Seq<ExecInput>) -> bool {
    &&& a.len() == b.len()
    &&& forall|i: int|
        0 <= i < a.len() ==> (#[trigger] a[i]).addr@ == b[i].addr@ && a[i].info.actor@
            == b[i].info.actor@
}

/// A copy of a list of parties.
fn clone_inputs(inputs: &Vec<ExecInput>) -> (r: Vec<ExecInput>)
    ensures
        same_parties(r@, inputs@),
{
    let mut out: Vec<ExecInput> = Vec::new();
    let mut i: usize = 0;
    while i < inputs.len()
        invariant
            0 <= i <= inputs.len(),
            out@.len() == i,
            forall|j: int|
                0 <= j < i ==> (#[trigger] out@[j]).addr@ == inputs@[j].addr@
                    && out@[j].info.actor@ == inputs@[j].info.actor@,
        decreases inputs.len() - i,
    {
        out.push(ExecInput { addr: inputs[i].addr.clone(), info: inputs[i].info.clone() });
        i += 1;
    }
    out
}

/// Whether a party is the first of its subnet depends on the parties' names
/// alone.
proof fn lemma_first_same(a: Seq<ExecInput>, b: Seq<ExecInput>, j: int)
    requires
        same_parties(a, b),
        0 <= j < a.len(),
    ensures
        first_of_subnet(a, j) == first_of_subnet(b, j),
{
    if first_of_subnet(a, j) {
        assert forall|i: int| 0 <= i < j implies (#[trigger] b[i]).addr@.subnet
            != b[j].addr@.subnet by {
            assert(a[i].addr@.subnet != a[j].addr@.subnet);
        }
    }
    if first_of_subnet(b, j) {
        assert forall|i: int| 0 <= i < j implies (#[trigger] a[i]).addr@.subnet
            != a[j].addr@.subnet by {
            assert(b[i].addr@.subnet != b[j].addr@.subnet);
        }
    }
}

/// Whether the result can be sent depends on the parties' names, the network
/// and the ids of the registered subnets alone.
proof fn lemma_propagate_same(s: State, t: State, a: Seq<ExecInput>, b: Seq<ExecInput>, n: int)
    requires
        same_parties(a, b),
        0 <= n <= a.len(),
        s.network_name == t.network_name,
        s.subnets == t.subnets,
    ensures
        propagate_failure(s, a, n) == propagate_failure(t, b, n),
    decreases n,
{
    if n > 0 {
        lemma_propagate_same(s, t, a, b, n - 1);
        lemma_first_same(a, b, n - 1);
        assert(a[n - 1].addr@ == b[n - 1].addr@);
    }
}

/// The result messages depend on the parties' names alone.
proof fn lemma_queued_same(
    net: Seq<u64>,
    a: Seq<ExecInput>,
    b: Seq<ExecInput>,
    hop: Seq<u64>,
    method: MethodNum,
    params: Seq<u8>,
    nonce0: int,
    n: int,
)
    requires
        same_parties(a, b),
        0 <= n <= a.len(),
    ensures
        queued_for(net, a, hop, method, params, nonce0, n) == queued_for(
            net,
            b,
            hop,
            method,
            params,
            nonce0,
            n,
        ),
    decreases n,
{
    if n > 0 {
        lemma_queued_same(net, a, b, hop, method, params, nonce0, n - 1);
        lemma_first_same(a, b, n - 1);
        assert(a[n - 1].addr@ == b[n - 1].addr@);
    }
}

impl Actor {
    /// Starts the atomic execution that `params` describes, and returns its
    /// identifier. `ids` holds, for each party in order, the id to which the
    /// host resolved the party's raw address, or `None` where it knows none.
    pub fn init_atomic_exec(
        st: &mut State,
        inv: &Invocation,
        params: AtomicExecParamsRaw,
        ids: &Vec<Option<u64>>,
    ) -> (r: Result<LockedOutput, ActorError>)
        requires
            old(st).wf(),
        ensures
            match r {
                Ok(out) => {
                    &&& init_failure(*old(st), *inv, params, ids@) is None
                    &&& out.cid@ == params.spec_cid()
                    &&& final(st).atomic_exec_registry@.len() == old(st).atomic_exec_registry@.len()
                        + 1
                    &&& final(st).atomic_exec_registry@.drop_last() == old(
                        st,
                    ).atomic_exec_registry@
                    &&& final(st).atomic_exec_registry@.last().cid@ == params.spec_cid()
                    &&& final(st).atomic_exec_registry@.last().execution.status
                        == ExecStatus::Initialized
                    &&& final(st).atomic_exec_registry@.last().execution.submitted@.len() == 0
                    &&& params_resolved(
                        params,
                        ids@,
                        final(st).atomic_exec_registry@.last().execution.params,
                    )
                    &&& *final(st) == (State {
                        atomic_exec_registry: final(st).atomic_exec_registry,
                        ..*old(st)
                    })
                    &&& final(st).wf()
                },
                Err(e) => init_failure(*old(st), *inv, params, ids@) == Some(e) && *final(st)
                    == *old(st),
            },
    {
        match inv.caller_type {
            ActorType::Account => {},
            ActorType::Multisig => {},
            _ => {
                return Err(ActorError::Forbidden);
            },
        }
        let cid = match params.cid() {
            Ok(c) => c,
            Err(_) => {
                return Err(ActorError::ExecIdFailed);
            },
        };
        let ghost raw = params;
        let resolved = match params.input_into_ids(ids) {
            Ok(p) => p,
            Err(_) => {
                return Err(ActorError::InvalidExecInputs);
            },
        };
        if find(&st.atomic_exec_registry, &cid).is_some() {
            return Err(ActorError::ExecExists);
        }
        if resolved.msgs.len() == 0 || resolved.inputs.len() < 2 {
            return Err(ActorError::WrongExecShape);
        }
        proof {
            lemma_common_parent_same_subnets(
                resolved.inputs@,
                raw.inputs@,
                raw.inputs@.len() as int,
            );
        }
        match is_common_parent(&st.network_name, &resolved.inputs) {
            Ok(true) => {},
            _ => {
                return Err(ActorError::NotCommonParent);
            },
        }
        if !msgs_same_target(&resolved.msgs) {
            return Err(ActorError::MixedMessages);
        }
        let entry = ExecEntry { cid: cid.clone(), execution: AtomicExec::new(resolved) };
        proof {
            lemma_push_new_key(st.atomic_exec_registry@, entry);
        }
        st.atomic_exec_registry.push(entry);
        proof {
            assert(st.atomic_exec_registry@.drop_last() =~= old(st).atomic_exec_registry@);
            assert forall|j: int| 0 <= j < st.atomic_exec_registry@.len() implies st.exec_ok(
                #[trigger] st.atomic_exec_registry@[j],
            ) by {
                if j < old(st).atomic_exec_registry@.len() {
                    assert(st.atomic_exec_registry@[j] == old(st).atomic_exec_registry@[j]);
                    assert(old(st).exec_ok(old(st).atomic_exec_registry@[j]));
                }
            }
        }
        Ok(LockedOutput { cid })
    }

    /// Takes the submission `params` of the party `caller`, which is named by
    /// its id address in its subnet, and returns the status of the execution
    /// after it.
    pub fn submit_atomic_exec(st: &mut State, caller: &Address, params: SubmitExecParams) -> (r:
        Result<SubmitOutput, ActorError>)
        requires
            old(st).wf(),
        ensures
            match r {
                Ok(out) => {
                    &&& submit_failure(*old(st), caller@, params@) is None
                    &&& out.status == status_after(exec_of(*old(st), params.cid@), params@)
                    &&& submit_applied(*old(st), *final(st), caller@, params@)
                    &&& final(st).wf()
                },
                Err(e) => submit_failure(*old(st), caller@, params@) == Some(e) && *final(st)
                    == *old(st),
            },
    {
        let q = match find(&st.atomic_exec_registry, &params.cid) {
            Some(q) => q,
            None => {
                return Err(ActorError::ExecNotFound);
            },
        };
        proof {
            lemma_position(st.atomic_exec_registry@, params.cid@);
        }
        let ghost e = st.atomic_exec_registry@[q as int].execution;
        assert(st.exec_ok(st.atomic_exec_registry@[q as int]));
        if find(&st.atomic_exec_registry[q].execution.params.inputs, caller).is_none() {
            return Err(ActorError::NotInExec);
        }
        match st.atomic_exec_registry[q].execution.status {
            ExecStatus::Initialized => {},
            _ => {
                return Err(ActorError::ExecFinalized);
            },
        }
        if params.abort {
            match st.check_propagate(&st.atomic_exec_registry[q].execution.params.inputs) {
                Ok(()) => {},
                Err(e) => {
                    return Err(e);
                },
            }
            let none: Vec<u8> = Vec::new();
            st.finalize_exec(q, ExecStatus::Aborted, METHOD_ABORT, &none);
            return Ok(SubmitOutput { status: ExecStatus::Aborted });
        }
        if find(&st.atomic_exec_registry[q].execution.submitted, caller).is_some() {
            return Err(ActorError::AlreadySubmitted);
        }
        let out_cid = params.output.cid();
        if has_conflict(&st.atomic_exec_registry[q].execution.submitted, &out_cid) {
            match st.check_propagate(&st.atomic_exec_registry[q].execution.params.inputs) {
                Ok(()) => {},
                Err(e) => {
                    return Err(e);
                },
            }
            let none: Vec<u8> = Vec::new();
            st.finalize_exec(q, ExecStatus::Aborted, METHOD_ABORT, &none);
            return Ok(SubmitOutput { status: ExecStatus::Aborted });
        }
        let parties = st.atomic_exec_registry[q].execution.params.inputs.len();
        let last = st.atomic_exec_registry[q].execution.submitted.len() + 1 == parties;
        if last {
            match st.check_propagate(&st.atomic_exec_registry[q].execution.params.inputs) {
                Ok(()) => {},
                Err(e) => {
                    return Err(e);
                },
            }
        }
        let entry = Submission { addr: caller.clone(), output: out_cid };
        proof {
            lemma_push_new_key(e.submitted@, entry);
        }
        st.atomic_exec_registry[q].execution.submitted.push(entry);
        if last {
            st.atomic_exec_registry[q].execution.status = ExecStatus::Success;
        }
        proof {
            let added = st.atomic_exec_registry@[q as int];
            assert(added.execution.submitted@.drop_last() =~= e.submitted@);
            assert(st.atomic_exec_registry@ =~= old(st).atomic_exec_registry@.update(
                q as int,
                added,
            ));
            lemma_update_keeps_keys(old(st).atomic_exec_registry@, q as int, added);
            assert forall|i: int| 0 <= i < added.execution.submitted@.len() implies present(
                added.execution.params.inputs@,
                (#[trigger] added.execution.submitted@[i]).addr@,
            ) by {
                if i < e.submitted@.len() {
                    assert(added.execution.submitted@[i] == e.submitted@[i]);
                }
            }
            assert forall|j: int| 0 <= j < st.atomic_exec_registry@.len() implies st.exec_ok(
                #[trigger] st.atomic_exec_registry@[j],
            ) by {
                assert(old(st).exec_ok(old(st).atomic_exec_registry@[j]));
                if j != q {
                    assert(st.atomic_exec_registry@[j] == old(st).atomic_exec_registry@[j]);
                }
            }
        }
        if !last {
            return Ok(SubmitOutput { status: ExecStatus::Initialized });
        }
        let lock = LockParams::new(
            st.atomic_exec_registry[q].execution.params.msgs[0].method,
            bytes_clone(&st.atomic_exec_registry[q].execution.params.msgs[0].params),
        );
        let unlock = UnlockParams::new(lock, params.output).to_bytes();
        assert(unlock@ =~= unlock_params(e, params.output@));
        let ghost marked = *st;
        let inputs = clone_inputs(&st.atomic_exec_registry[q].execution.params.inputs);
        proof {
            lemma_propagate_same(*old(st), marked, e.params.inputs@, inputs@, inputs@.len() as int);
        }
        st.propagate_exec_result(&inputs, METHOD_UNLOCK, &unlock);
        proof {
            let queued = State { atomic_exec_registry: old(st).atomic_exec_registry, ..*st };
            let orig = e.params.inputs@;
            assert forall|c: int| 0 <= c < old(st).subnets@.len() implies child_queued(
                old(st).network_name@,
                #[trigger] old(st).subnets@[c],
                queued.subnets@[c],
                orig,
                METHOD_UNLOCK,
                unlock@,
                orig.len() as int,
            ) by {
                assert(child_queued(
                    marked.network_name@,
                    marked.subnets@[c],
                    st.subnets@[c],
                    inputs@,
                    METHOD_UNLOCK,
                    unlock@,
                    inputs@.len() as int,
                ));
                lemma_queued_same(
                    old(st).network_name@,
                    inputs@,
                    orig,
                    old(st).subnets@[c].id@,
                    METHOD_UNLOCK,
                    unlock@,
                    old(st).subnets@[c].nonce as int,
                    orig.len() as int,
                );
            }
        }
        Ok(SubmitOutput { status: ExecStatus::Success })
    }

    /// Aborts the execution `params.exec_cid` on behalf of the caller, which
    /// must be a party of it in some subnet, and returns the status of the
    /// execution after it.
    pub fn abort_atomic_exec(st: &mut State, inv: &Invocation, params: AbortExecParams) -> (r:
        Result<SubmitOutput, ActorError>)
        requires
            old(st).wf(),
        ensures
            match r {
                Ok(out) => {
                    &&& abort_failure(*old(st), *inv, params.exec_cid@) is None
                    &&& out.status == ExecStatus::Aborted
                    &&& abort_applied(*old(st), *final(st), params.exec_cid@)
                    &&& final(st).wf()
                },
                Err(e) => abort_failure(*old(st), *inv, params.exec_cid@) == Some(e) && *final(st)
                    == *old(st),
            },
    {
        match inv.caller_type {
            ActorType::Account => {},
            ActorType::Multisig => {},
            _ => {
                return Err(ActorError::Forbidden);
            },
        }
        if inv.caller.id().is_err() {
            return Err(ActorError::CallerNotId);
        }
        let q = match find(&st.atomic_exec_registry, &params.exec_cid) {
            Some(q) => q,
            None => {
                return Err(ActorError::ExecNotFound);
            },
        };
        proof {
            lemma_position(st.atomic_exec_registry@, params.exec_cid@);
        }
        if !is_addr_in_exec(&inv.caller, &st.atomic_exec_registry[q].execution.params.inputs) {
            return Err(ActorError::NotInExec);
        }
        match st.atomic_exec_registry[q].execution.status {
            ExecStatus::Initialized => {},
            _ => {
                return Err(ActorError::ExecFinalized);
            },
        }
        match st.check_propagate(&st.atomic_exec_registry[q].execution.params.inputs) {
            Ok(()) => {},
            Err(e) => {
                return Err(e);
            },
        }
        let none: Vec<u8> = Vec::new();
        st.finalize_exec(q, ExecStatus::Aborted, METHOD_ABORT, &none);
        Ok(SubmitOutput { status: ExecStatus::Aborted })
    }
}

} // verus!
