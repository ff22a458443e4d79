//! What holds of the coordinator whatever it is called with.

use crate::actor::{caller_subnet, Invocation};
use crate::apply::{for_coordinator, for_here, msg_applied, outcome_for, ApplyOutcome};
use crate::bottomup::cross_msg;
use crate::checkpoint::{cid_views, Checkpoint};
use crate::child_check::{commit_applied, commit_failure, window_at, window_children};
use crate::commit::kept_metas;
use crate::dispatch::{invoked, Method, MethodParams, Return};
use crate::econ::atto;
use crate::error::ExitCode;
use crate::exec::{ExecStatus, SubmitView};
use crate::keyed::{
    lemma_position, lemma_position_unique, lemma_same_keys_same_position, position, present,
};
use crate::orchestrator::{
    abort_applied, abort_failure, child_queued, exec_of, results_queued, status_after,
    submit_applied, submit_failure,
};
use crate::state::{nonces_dense_upto, topdown_applied, State};
use crate::subnet::{Status, Subnet};
use crate::types::{HCMsgType, StorableMsgView};
use crate::views::views;
use vstd::prelude::*;

verus! {

/// The collateral of the first `n` subnets together.
pub open spec fn total_stake(subnets: Seq<Subnet>, n: int) -> int
    decreases n,
{
    if n <= 0 {
        0
    } else {
        total_stake(subnets, n - 1) + atto(subnets[n - 1].stake)
    }
}

/// The circulating supply of the first `n` subnets together.
pub open spec fn total_supply(subnets: Seq<Subnet>, n: int) -> int
    decreases n,
{
    if n <= 0 {
        0
    } else {
        total_supply(subnets, n - 1) + atto(subnets[n - 1].circ_supply)
    }
}

/// What the coordinator holds in escrow: the collateral of its subnets, and
/// the value that went down into them and has not come back.
pub open spec fn escrow(st: State) -> int {
    total_stake(st.subnets@, st.subnets@.len() as int) + total_supply(
        st.subnets@,
        st.subnets@.len() as int,
    )
}

/// The value that the host is asked to send away.
pub open spec fn sent(r: Return) -> int {
    match r {
        Return::Transfer(send) => atto(send.value),
        Return::Burn(Some(send)) => atto(send.value),
        Return::Applied(out) => match out.forward {
            Some(send) => atto(send.value),
            None => 0,
        },
        _ => 0,
    }
}

/// The value that the host is asked to mint to the coordinator.
pub open spec fn minted(r: Return) -> int {
    match r {
        Return::Applied(out) => match out.mint {
            Some(v) => atto(v),
            None => 0,
        },
        _ => 0,
    }
}

/// Where two lists of subnets differ at most at `i`, their totals differ by
/// what the subnet at `i` differs.
proof fn lemma_totals_differ_at(a: Seq<Subnet>, b: Seq<Subnet>, i: int, n: int)
    requires
        a.len() == b.len(),
        0 <= n <= a.len(),
        0 <= i < a.len(),
        forall|j: int| 0 <= j < a.len() && j != i ==> a[j] == b[j],
    ensures
        total_stake(b, n) - total_stake(a, n) == if i < n {
            atto(b[i].stake) - atto(a[i].stake)
        } else {
            0
        },
        total_supply(b, n) - total_supply(a, n) == if i < n {
            atto(b[i].circ_supply) - atto(a[i].circ_supply)
        } else {
            0
        },
    decreases n,
{
    if n > 0 {
        lemma_totals_differ_at(a, b, i, n - 1);
        if n - 1 != i {
            assert(a[n - 1] == b[n - 1]);
        }
    }
}

/// Lists of subnets that agree on the first `n` subnets have the same totals
/// over them.
proof fn lemma_totals_agree(a: Seq<Subnet>, b: Seq<Subnet>, n: int)
    requires
        0 <= n <= a.len(),
        n <= b.len(),
        forall|j: int| 0 <= j < n ==> atto(a[j].stake) == atto(b[j].stake) && atto(
            a[j].circ_supply,
        ) == atto(b[j].circ_supply),
    ensures
        total_stake(a, n) == total_stake(b, n),
        total_supply(a, n) == total_supply(b, n),
    decreases n,
{
    if n > 0 {
        lemma_totals_agree(a, b, n - 1);
    }
}

/// Taking the subnet at `i` out takes its collateral and supply out of the
/// totals.
proof fn lemma_totals_remove(a: Seq<Subnet>, i: int, n: int)
    requires
        0 <= i < a.len(),
        0 <= n < a.len(),
    ensures
        total_stake(a.remove(i), n) == if n <= i {
            total_stake(a, n)
        } else {
            total_stake(a, n + 1) - atto(a[i].stake)
        },
        total_supply(a.remove(i), n) == if n <= i {
            total_supply(a, n)
        } else {
            total_supply(a, n + 1) - atto(a[i].circ_supply)
        },
    decreases n,
{
    if n > 0 {
        lemma_totals_remove(a, i, n - 1);
        let r = a.remove(i);
        if n - 1 < i {
            assert(r[n - 1] == a[n - 1]);
        } else {
            assert(r[n - 1] == a[n]);
        }
        assert(total_stake(r, n) == total_stake(r, n - 1) + atto(r[n - 1].stake));
        assert(total_stake(a, n) == total_stake(a, n - 1) + atto(a[n - 1].stake));
        assert(total_stake(a, n + 1) == total_stake(a, n) + atto(a[n].stake));
        assert(total_supply(r, n) == total_supply(r, n - 1) + atto(r[n - 1].circ_supply));
        assert(total_supply(a, n) == total_supply(a, n - 1) + atto(a[n - 1].circ_supply));
        assert(total_supply(a, n + 1) == total_supply(a, n) + atto(a[n].circ_supply));
    }
}

/// Committing a top-down message adds its value to the escrow.
pub proof fn lemma_escrow_topdown(before: State, after: State, m: StorableMsgView)
    requires
        topdown_applied(before, after, m),
    ensures
        escrow(after) == escrow(before) + m.value,
{
    let i = position(
        before.subnets@,
        crate::state::next_hop(before.network_name@, m.to.subnet->Some_0),
    );
    lemma_totals_differ_at(before.subnets@, after.subnets@, i, before.subnets@.len() as int);
}

/// Sending the result of an execution to its parties leaves the escrow as it
/// is.
pub proof fn lemma_escrow_results(
    before: State,
    after: State,
    inputs: Seq<crate::exec::ExecInput>,
    method: u64,
    params: Seq<u8>,
    n: int,
)
    requires
        results_queued(before, after, inputs, method, params, n),
    ensures
        escrow(after) == escrow(before),
{
    assert forall|j: int| 0 <= j < before.subnets@.len() implies atto(before.subnets@[j].stake)
        == atto(after.subnets@[j].stake) && atto(before.subnets@[j].circ_supply) == atto(
        after.subnets@[j].circ_supply,
    ) by {
        assert(child_queued(
            before.network_name@,
            before.subnets@[j],
            after.subnets@[j],
            inputs,
            method,
            params,
            n,
        ));
    }
    lemma_totals_agree(before.subnets@, after.subnets@, before.subnets@.len() as int);
}

/// Whether a call keeps the books: a message that is sent to another subnet
/// carries no more than came with the call, and a message that is applied on
/// its way up carries no value.
///
/// A message that is sent with more value than the call brought takes the
/// difference out of what the coordinator holds for others. A message that
/// is applied on its way up is paid from what the coordinator holds, although
/// its value was burnt when the child's checkpoint was committed.
pub open spec fn keeps_books(st: State, inv: Invocation, m: Method, p: MethodParams) -> bool {
    match m {
        Method::SendCross => cross_msg(st, inv, p->SendCross_0.destination@, p->SendCross_0.msg@).value
            <= atto(inv.value_received),
        Method::ApplyMessage => p->ApplyMessage_0@.apply_type(st.network_name@)
            != HCMsgType::BottomUp || p->ApplyMessage_0@.value == 0,
        _ => true,
    }
}

/// Collateral accounting: where the coordinator held at least its escrow
/// before a call, it holds at least its escrow after the call, when the host
/// has minted and sent what the call asked for.
///
/// `inv.current_balance` is what the coordinator holds when the call runs,
/// the value of the call included.
pub proof fn law_collateral_accounting(
    before: State,
    after: State,
    inv: Invocation,
    m: Method,
    p: MethodParams,
    r: Return,
)
    requires
        before.wf(),
        m != Method::Constructor,
        invoked(before, after, inv, m, p, r),
        crate::dispatch::invoke_failure(Some(before), inv, number_of(m), p) is None,
        keeps_books(before, inv, m, p),
        atto(inv.value_received) >= 0,
        escrow(before) + atto(inv.value_received) <= atto(inv.current_balance),
    ensures
        escrow(after) <= atto(inv.current_balance) + minted(r) - sent(r),
{
    let n = before.subnets@.len() as int;
    let shid = caller_subnet(before, inv);
    let i = position(before.subnets@, shid);
    lemma_position(before.subnets@, shid);
    match m {
        Method::Constructor => {},
        Method::Register => {
            assert forall|j: int| 0 <= j < n implies before.subnets@[j] == after.subnets@[j] by {
                assert(after.subnets@.drop_last()[j] == after.subnets@[j]);
            }
            lemma_totals_agree(before.subnets@, after.subnets@, n);
        },
        Method::AddStake => {
            lemma_totals_differ_at(before.subnets@, after.subnets@, i, n);
        },
        Method::ReleaseStake => {
            lemma_totals_differ_at(before.subnets@, after.subnets@, i, n);
        },
        Method::Kill => {
            lemma_totals_remove(before.subnets@, i, n - 1);
            assert(before.subnets@[i].wf(atto(before.min_stake)));
        },
        Method::CommitChildCheckpoint => {
            let metas = p->CommitChildCheckpoint_0.data.cross_msgs@;
            crate::commit::lemma_total_grows(metas, 0, metas.len() as int);
            crate::commit::lemma_delivered_within(
                metas,
                before.network_name@,
                metas.len() as int,
            );
            lemma_totals_differ_at(before.subnets@, after.subnets@, i, n);
        },
        Method::Fund => {
            lemma_escrow_topdown(
                before,
                after,
                crate::actor::fund_msg(
                    p->Fund_0@,
                    inv.sig_addr->Some_0@,
                    atto(inv.value_received),
                ),
            );
        },
        Method::Release => {},
        Method::SendCross => {
            let msg = cross_msg(before, inv, p->SendCross_0.destination@, p->SendCross_0.msg@);
            if msg.hc_type() == HCMsgType::TopDown {
                lemma_escrow_topdown(before, after, msg);
            }
        },
        Method::ApplyMessage => {
            lemma_books_apply(before, after, inv, p->ApplyMessage_0@, r->Applied_0);
        },
        Method::InitAtomicExec => {},
        Method::AbortAtomicExec => {
            let e = exec_of(before, p->AbortAtomicExec_0.exec_cid@);
            let queued = State { atomic_exec_registry: before.atomic_exec_registry, ..after };
            lemma_escrow_results(
                before,
                queued,
                e.params.inputs@,
                crate::atomic::METHOD_ABORT,
                Seq::<u8>::empty(),
                e.params.inputs@.len() as int,
            );
        },
    }
}

/// Applying a message keeps the books, where the message carries no value on
/// its way up.
proof fn lemma_books_apply(
    before: State,
    after: State,
    inv: Invocation,
    msg: StorableMsgView,
    out: ApplyOutcome,
)
    requires
        before.wf(),
        crate::apply::apply_failure(before, inv, msg) is None,
        msg_applied(before, after, msg),
        outcome_for(before, out, msg),
        msg.apply_type(before.network_name@) != HCMsgType::BottomUp || msg.value == 0,
        atto(inv.value_received) >= 0,
        escrow(before) + atto(inv.value_received) <= atto(inv.current_balance),
    ensures
        escrow(after) <= atto(inv.current_balance) + minted(Return::Applied(out)) - sent(
            Return::Applied(out),
        ),
{
    let rest = State {
        applied_bottomup_nonce: before.applied_bottomup_nonce,
        applied_topdown_nonce: before.applied_topdown_nonce,
        ..after
    };
    assert(rest.subnets == after.subnets);
    if !for_here(before, msg) {
        lemma_escrow_topdown(before, rest, msg);
    } else if for_coordinator(msg) {
        lemma_escrow_submit(
            before,
            rest,
            msg.from,
            crate::submit_codec::parse_submit(msg.params)->Some_0,
        );
    }
}

/// The number of a method.
pub open spec fn number_of(m: Method) -> u64 {
    match m {
        Method::Constructor => 1,
        Method::Register => 2,
        Method::AddStake => 3,
        Method::ReleaseStake => 4,
        Method::Kill => 5,
        Method::CommitChildCheckpoint => 6,
        Method::Fund => 7,
        Method::Release => 8,
        Method::SendCross => 9,
        Method::ApplyMessage => 10,
        Method::InitAtomicExec => 11,
        Method::AbortAtomicExec => 12,
    }
}

/// A submission leaves the escrow as it is.
pub proof fn lemma_escrow_submit(before: State, after: State, caller: crate::address::AddressView, p: SubmitView)
    requires
        submit_applied(before, after, caller, p),
    ensures
        escrow(after) == escrow(before),
{
    let q = position(before.atomic_exec_registry@, p.cid);
    let e = before.atomic_exec_registry@[q].execution;
    let queued = State { atomic_exec_registry: before.atomic_exec_registry, ..after };
    match status_after(e, p) {
        ExecStatus::Initialized => {},
        ExecStatus::Aborted => {
            lemma_escrow_results(
                before,
                queued,
                e.params.inputs@,
                crate::atomic::METHOD_ABORT,
                Seq::<u8>::empty(),
                e.params.inputs@.len() as int,
            );
        },
        ExecStatus::Success => {
            lemma_escrow_results(
                before,
                queued,
                e.params.inputs@,
                crate::atomic::METHOD_UNLOCK,
                crate::orchestrator::unlock_params(e, p.output),
                e.params.inputs@.len() as int,
            );
        },
    }
}

/// A registered subnet is active exactly when its collateral reaches the
/// minimum stake.
pub proof fn law_active_iff_staked(st: State, i: int)
    requires
        st.wf(),
        0 <= i < st.subnets@.len(),
    ensures
        st.subnets@[i].status == Status::Active <==> atto(st.subnets@[i].stake) >= atto(
            st.min_stake,
        ),
        st.subnets@[i].status != Status::Killed,
{
    assert(st.subnets@[i].wf(atto(st.min_stake)));
}

/// The top-down messages of a subnet carry the nonces from 0 on, one each, in
/// order, and the subnet's nonce is the next.
pub proof fn law_topdown_nonces_dense(st: State, i: int, k: int)
    requires
        st.wf(),
        0 <= i < st.subnets@.len(),
        0 <= k < st.subnets@[i].top_down_msgs@.len(),
    ensures
        st.subnets@[i].top_down_msgs@[k].nonce == k,
        st.subnets@[i].top_down_msgs@.len() == st.subnets@[i].nonce,
{
    assert(st.subnets@[i].wf(atto(st.min_stake)));
}

/// The bottom-up metas carry strictly growing nonces below the state's nonce.
pub proof fn law_bottomup_nonces_grow(st: State, i: int, j: int)
    requires
        st.wf(),
        0 <= i < j < st.bottomup_msg_meta@.len(),
    ensures
        st.bottomup_msg_meta@[i].nonce < st.bottomup_msg_meta@[j].nonce < st.nonce,
{
}

/// Whether a call draws on the state's nonce for something else than a
/// bottom-up meta: a release, or a message that is sent upward.
pub open spec fn draws_nonce(st: State, inv: Invocation, m: Method, p: MethodParams) -> bool {
    match m {
        Method::Release => true,
        Method::SendCross => cross_msg(
            st,
            inv,
            p->SendCross_0.destination@,
            p->SendCross_0.msg@,
        ).hc_type() != HCMsgType::TopDown,
        _ => false,
    }
}

/// Where the bottom-up metas hold one meta for each nonce below the state's
/// nonce, in order, they still do after any call that does not draw on the
/// nonce for something else.
///
/// A release takes a nonce for its message, so that no meta will carry that
/// nonce.
pub proof fn law_bottomup_nonces_dense(
    before: State,
    after: State,
    inv: Invocation,
    m: Method,
    p: MethodParams,
    r: Return,
)
    requires
        before.wf(),
        m != Method::Constructor,
        invoked(before, after, inv, m, p, r),
        !draws_nonce(before, inv, m, p),
        nonces_dense_upto(before.bottomup_msg_meta@, before.nonce),
    ensures
        nonces_dense_upto(after.bottomup_msg_meta@, after.nonce),
{
    match m {
        Method::CommitChildCheckpoint => {
            let metas = p->CommitChildCheckpoint_0.data.cross_msgs@;
            let kept = kept_metas(
                metas,
                before.network_name@,
                before.nonce as int,
                metas.len() as int,
            );
            lemma_kept_nonces(metas, before.network_name@, before.nonce as int, metas.len() as int);
            let old_list = before.bottomup_msg_meta@;
            let new_list = after.bottomup_msg_meta@;
            assert(views(new_list).len() == new_list.len());
            assert(views(old_list).len() == old_list.len());
            assert forall|k: int| 0 <= k < new_list.len() implies (#[trigger] new_list[k]).nonce
                == k by {
                assert(views(new_list)[k] == new_list[k]@);
                if k < old_list.len() {
                    assert(views(old_list)[k] == old_list[k]@);
                    assert(old_list[k].nonce == k);
                } else {
                    assert(views(new_list)[k] == kept[k - old_list.len()]);
                }
            }
        },
        Method::ApplyMessage => {
            let msg = p->ApplyMessage_0@;
            let rest = State {
                applied_bottomup_nonce: before.applied_bottomup_nonce,
                applied_topdown_nonce: before.applied_topdown_nonce,
                ..after
            };
            assert(rest.bottomup_msg_meta == after.bottomup_msg_meta);
            assert(rest.nonce == after.nonce);
        },
        _ => {},
    }
}

/// The metas that are kept carry the nonces from `nonce0` on, in order.
proof fn lemma_kept_nonces(
    metas: Seq<crate::checkpoint::CrossMsgMeta>,
    net: Seq<u64>,
    nonce0: int,
    n: int,
)
    requires
        0 <= nonce0,
        nonce0 + kept_metas(metas, net, nonce0, n).len() <= u64::MAX + 1,
    ensures
        forall|k: int|
            0 <= k < kept_metas(metas, net, nonce0, n).len() ==> (#[trigger] kept_metas(
                metas,
                net,
                nonce0,
                n,
            )[k]).nonce == nonce0 + k,
    decreases n,
{
    if n > 0 {
        crate::commit::lemma_kept_grows(metas, net, nonce0, n - 1, n);
        lemma_kept_nonces(metas, net, nonce0, n - 1);
        let before = kept_metas(metas, net, nonce0, n - 1);
        let now = kept_metas(metas, net, nonce0, n);
        assert forall|k: int| 0 <= k < now.len() implies (#[trigger] now[k]).nonce == nonce0
            + k by {
            if k < before.len() {
                assert(now[k] == before[k]);
            }
        }
    }
}

/// The nonce of the next top-down message to apply never goes back.
pub proof fn law_applied_topdown_nonce_grows(
    before: State,
    after: State,
    inv: Invocation,
    m: Method,
    p: MethodParams,
    r: Return,
)
    requires
        m != Method::Constructor,
        invoked(before, after, inv, m, p, r),
    ensures
        after.applied_topdown_nonce >= before.applied_topdown_nonce,
{
}

/// The checkpoint that a child has committed cannot be committed again in
/// the same window: the second commit fails with an illegal argument.
///
/// In another window the second commit fails in the same way unless the
/// checkpoint names itself as its predecessor, which no checkpoint does whose
/// identifier is a hash of its content.
pub proof fn law_commit_twice_fails(
    before: State,
    after: State,
    inv: Invocation,
    again: Invocation,
    commit: Checkpoint,
)
    requires
        before.wf(),
        after.wf(),
        commit_failure(before, inv, commit) is None,
        commit_applied(before, after, inv, commit),
        again.caller@ == inv.caller@,
        again.caller_type == inv.caller_type,
        again.curr_epoch >= 0,
        window_at(after, again) == window_at(before, inv) || (window_at(after, again) <= i64::MAX
            && commit.data.prev_check@ != commit.spec_cid()),
    ensures
        commit_failure(after, again, commit) is Some,
        commit_failure(after, again, commit)->Some_0.spec_exit_code()
            == ExitCode::UsrIllegalArgument,
{
    let shid = caller_subnet(before, inv);
    let i = position(before.subnets@, shid);
    let win = window_at(before, inv) as i64;
    lemma_position(before.subnets@, shid);
    assert(caller_subnet(after, again) == shid);
    assert forall|j: int| 0 <= j < before.subnets@.len() implies (
    #[trigger] before.subnets@[j]).id@ == (#[trigger] after.subnets@[j]).id@ by {
        if j != i {
            assert(after.subnets@[j] == before.subnets@[j]);
        }
    }
    lemma_same_keys_same_position(before.subnets@, after.subnets@, shid, 0);
    assert(position(after.subnets@, shid) == i);
    assert(after.subnets@[i].prev_checkpoint == Some(commit));
    if commit.data.prev_check@ == commit.spec_cid() {
        let w = position(after.checkpoints@, win);
        lemma_position(after.checkpoints@, win);
        let children = after.checkpoints@[w].data.children@;
        assert(children == window_children(after, win));
        let source = commit.data.source@;
        let earlier = window_children(before, win);
        lemma_position(earlier, source);
        assert(after.checkpoints@[w].wf());
        crate::keyed::lemma_sorted_distinct(children);
        let c = if present(earlier, source) {
            position(earlier, source)
        } else {
            crate::keyed::rank(earlier, source)
        };
        crate::keyed::lemma_rank_from(earlier, source, 0);
        assert(0 <= c < children.len());
        assert(children[c].source@ == source);
        lemma_position_unique(children, source, c);
        let held = cid_views(children[c].checks@);
        assert(held[held.len() - 1] == commit.spec_cid());
        assert(held.contains(commit.spec_cid()));
    }
}

/// A party that has submitted an output cannot submit another: the second
/// submission fails. After a submission that ended the execution every
/// submission fails.
///
/// A party that has submitted may still abort while the execution waits.
pub proof fn law_submit_twice_fails(
    before: State,
    after: State,
    caller: crate::address::AddressView,
    p: SubmitView,
    again: SubmitView,
)
    requires
        before.wf(),
        submit_failure(before, caller, p) is None,
        submit_applied(before, after, caller, p),
        again.cid == p.cid,
        !again.abort || status_after(exec_of(before, p.cid), p) != ExecStatus::Initialized,
    ensures
        submit_failure(after, caller, again) is Some,
{
    let q = position(before.atomic_exec_registry@, p.cid);
    lemma_position(before.atomic_exec_registry@, p.cid);
    assert forall|j: int| 0 <= j < before.atomic_exec_registry@.len() implies (
    #[trigger] before.atomic_exec_registry@[j]).cid@ == (
    #[trigger] after.atomic_exec_registry@[j]).cid@ by {
        if j != q {
            assert(after.atomic_exec_registry@[j] == before.atomic_exec_registry@[j]);
        }
    }
    lemma_same_keys_same_position(
        before.atomic_exec_registry@,
        after.atomic_exec_registry@,
        p.cid,
        0,
    );
    let e = before.atomic_exec_registry@[q].execution;
    let e2 = after.atomic_exec_registry@[q].execution;
    if status_after(e, p) == ExecStatus::Initialized {
        let last = e2.submitted@.len() - 1;
        assert(e2.submitted@[last].addr@ == caller);
        lemma_position(e2.submitted@, caller);
    }
}

/// An execution that was aborted cannot be aborted again.
pub proof fn law_abort_aborted_fails(st: State, inv: Invocation, cid: Seq<u8>)
    requires
        present(st.atomic_exec_registry@, cid) ==> exec_of(st, cid).status == ExecStatus::Aborted,
    ensures
        abort_failure(st, inv, cid) is Some,
{
}

/// After an execution was aborted, to abort it again fails.
pub proof fn law_abort_twice_fails(before: State, after: State, inv: Invocation, cid: Seq<u8>)
    requires
        before.wf(),
        abort_failure(before, inv, cid) is None,
        abort_applied(before, after, cid),
    ensures
        abort_failure(after, inv, cid) is Some,
{
    let q = position(before.atomic_exec_registry@, cid);
    lemma_position(before.atomic_exec_registry@, cid);
    assert forall|j: int| 0 <= j < before.atomic_exec_registry@.len() implies (
    #[trigger] before.atomic_exec_registry@[j]).cid@ == (
    #[trigger] after.atomic_exec_registry@[j]).cid@ by {
        if j != q {
            assert(after.atomic_exec_registry@[j] == before.atomic_exec_registry@[j]);
        }
    }
    lemma_same_keys_same_position(before.atomic_exec_registry@, after.atomic_exec_registry@, cid, 0);
}

/// The direction in which a message is applied depends on the subnets of its
/// two ends alone.
pub proof fn law_apply_type_by_subnets(a: StorableMsgView, b: StorableMsgView, curr: Seq<u64>)
    requires
        a.from.subnet == b.from.subnet,
        a.to.subnet == b.to.subnet,
    ensures
        a.apply_type(curr) == b.apply_type(curr),
        a.hc_type() == b.hc_type(),
{
}

} // verus!
