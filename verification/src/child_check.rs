//! Committing the checkpoint of a child.

use crate::actor::{
    caller_subnet, is_transfer, raw_id, subnet_caller_failure, transfer, Actor, ActorType,
    Invocation, Send,
};
use crate::address::{Address, AddressView, BURNT_FUNDS_ACTOR_ID};
use crate::checkpoint::{
    child_check_added, cid_views, contains_cid, window_epoch, window_of, ChainEpoch, Checkpoint,
    ChildCheck, CrossMsgMeta,
};
use crate::commit::{
    all_nonnegative, delivered_value, kept_metas, route_total, route_value, routed, total_value,
    Route,
};
use crate::econ::{
    atto, token_add, token_clone, token_is_positive, token_lt, token_sub, token_zero,
};
use crate::error::ActorError;
use crate::keyed::{
    find, lemma_position, lemma_push_new_key, lemma_update_keeps_keys, position, present,
};
use crate::state::State;
use crate::subnet::Status;
use crate::subnet_id::SubnetID;
use crate::views::views;
use fvm_shared::econ::TokenAmount;
use vstd::prelude::*;

verus! {

/// The metas of the window checkpoint for the epoch `win`, or none where
/// there is no such checkpoint yet.
pub open spec fn window_metas(st: State, win: ChainEpoch) -> Seq<CrossMsgMeta> {
    if present(st.checkpoints@, win) {
        st.checkpoints@[position(st.checkpoints@, win)].data.cross_msgs@
    } else {
        Seq::<CrossMsgMeta>::empty()
    }
}

/// The children of the window checkpoint for the epoch `win`, or none where
/// there is no such checkpoint yet.
pub open spec fn window_children(st: State, win: ChainEpoch) -> Seq<ChildCheck> {
    if present(st.checkpoints@, win) {
        st.checkpoints@[position(st.checkpoints@, win)].data.children@
    } else {
        Seq::<ChildCheck>::empty()
    }
}

/// The epoch of the window that is open when the call runs.
pub open spec fn window_at(st: State, inv: Invocation) -> int {
    window_of(inv.curr_epoch as int, st.check_period as int)
}

/// The first reason to refuse the checkpoint of a child, if there is one.
pub open spec fn commit_failure(st: State, inv: Invocation, commit: Checkpoint) -> Option<
    ActorError,
> {
    let shid = caller_subnet(st, inv);
    let sub = st.subnets@[position(st.subnets@, shid)];
    let win = window_at(st, inv);
    let metas = commit.data.cross_msgs@;
    if subnet_caller_failure(inv) is Some {
        subnet_caller_failure(inv)
    } else if subnet_actor_of(commit.data.source@) != raw_id(inv.caller@) {
        Some(ActorError::WrongSource)
    } else if !present(st.subnets@, shid) {
        Some(ActorError::SubnetNotRegistered)
    } else if sub.status != Status::Active {
        Some(ActorError::SubnetInactive)
    } else if inv.curr_epoch < 0 || win > i64::MAX {
        Some(ActorError::InvalidEpoch)
    } else if sub.prev_checkpoint is Some && sub.prev_checkpoint->Some_0.data.epoch
        > commit.data.epoch {
        Some(ActorError::CheckpointInPast)
    } else if sub.prev_checkpoint is Some && commit.data.prev_check@
        != sub.prev_checkpoint->Some_0.spec_cid() {
        Some(ActorError::PrevCheckMismatch)
    } else if cids_of_child(window_children(st, win as i64), commit.data.source@).contains(
        commit.spec_cid(),
    ) {
        Some(ActorError::DuplicateCheckpoint)
    } else if !all_nonnegative(metas) {
        Some(ActorError::NegativeAmount)
    } else if total_value(metas, metas.len() as int) > atto(sub.circ_supply) {
        Some(ActorError::SupplyExceeded)
    } else if st.nonce + kept_metas(metas, st.network_name@, st.nonce as int, metas.len() as int).len()
        > u64::MAX {
        Some(ActorError::NonceOverflow)
    } else {
        None
    }
}

/// The actor id of the subnet actor of a subnet; 0 for the root.
pub open spec fn subnet_actor_of(id: Seq<u64>) -> u64 {
    if id.len() == 0 {
        0
    } else {
        id.last()
    }
}

/// The checkpoints that the child `source` has committed, by a list of
/// children.
pub open spec fn cids_of_child(children: Seq<ChildCheck>, source: Seq<u64>) -> Seq<Seq<u8>> {
    if present(children, source) {
        cid_views(children[position(children, source)].checks@)
    } else {
        Seq::<Seq<u8>>::empty()
    }
}

/// How the state changes when the checkpoint `commit` of the caller's subnet
/// is committed.
///
/// The child's circulating supply shrinks by the total value of the metas, and
/// the checkpoint becomes the child's last. The metas for this network are
/// kept under the next nonces. The window checkpoint of the call's epoch,
/// which is made if it was not there, records the checkpoint for the child and
/// carries the other metas under their routes, filed one after the other as
/// `filed_upto` says. Nothing else changes.
pub open spec fn commit_applied(before: State, after: State, inv: Invocation, commit: Checkpoint) -> bool {
    let i = position(before.subnets@, caller_subnet(before, inv));
    let win = window_at(before, inv) as i64;
    let w = position(after.checkpoints@, win);
    let metas = commit.data.cross_msgs@;
    let net = before.network_name@;
    let kept = kept_metas(metas, net, before.nonce as int, metas.len() as int);
    let ch = after.checkpoints@[w];
    &&& after.subnets@.len() == before.subnets@.len()
    &&& forall|j: int|
        0 <= j < before.subnets@.len() && j != i ==> after.subnets@[j] == before.subnets@[j]
    &&& atto(after.subnets@[i].circ_supply) == atto(before.subnets@[i].circ_supply) - total_value(
        metas,
        metas.len() as int,
    )
    &&& after.subnets@[i].prev_checkpoint == Some(commit)
    &&& after.subnets@[i].id == before.subnets@[i].id
    &&& after.subnets@[i].stake == before.subnets@[i].stake
    &&& after.subnets@[i].status == before.subnets@[i].status
    &&& after.subnets@[i].nonce == before.subnets@[i].nonce
    &&& after.subnets@[i].top_down_msgs == before.subnets@[i].top_down_msgs
    &&& after.nonce == before.nonce + kept.len()
    &&& views(after.bottomup_msg_meta@) == views(before.bottomup_msg_meta@) + kept
    &&& present(after.checkpoints@, win)
    &&& if present(before.checkpoints@, win) {
        &&& w == position(before.checkpoints@, win)
        &&& after.checkpoints@.len() == before.checkpoints@.len()
        &&& forall|j: int|
            0 <= j < before.checkpoints@.len() && j != w ==> after.checkpoints@[j]
                == before.checkpoints@[j]
        &&& ch.data.source == before.checkpoints@[w].data.source
        &&& ch.data.prev_check == before.checkpoints@[w].data.prev_check
    } else {
        &&& after.checkpoints@.len() == before.checkpoints@.len() + 1
        &&& after.checkpoints@.drop_last() == before.checkpoints@
        &&& w == before.checkpoints@.len()
        &&& ch.data.source@ == net
        &&& ch.data.prev_check@.len() == 0
    }
    &&& ch.data.epoch == win
    &&& child_check_added(
        window_children(before, win),
        ch.data.children@,
        commit.data.source@,
        commit.spec_cid(),
    )
    &&& forall|k: Route|
        (#[trigger] present(ch.data.cross_msgs@, k) <==> present(window_metas(before, win), k)
            || routed(metas, net, k, metas.len() as int))
    &&& forall|k: Route|
        #[trigger] route_value(ch.data.cross_msgs@, k) == route_value(
            window_metas(before, win),
            k,
        ) + route_total(metas, net, k, metas.len() as int)
    &&& crate::commit::filed_upto(
        window_metas(before, win),
        before.check_msg_registry@,
        ch.data.cross_msgs@,
        after.check_msg_registry@,
        net,
        metas,
        metas.len() as int,
    )
    &&& forall|c: Seq<u8>|
        present(before.check_msg_registry@, c) ==> present(after.check_msg_registry@, c)
    &&& after == (State {
        subnets: after.subnets,
        nonce: after.nonce,
        bottomup_msg_meta: after.bottomup_msg_meta,
        checkpoints: after.checkpoints,
        check_msg_registry: after.check_msg_registry,
        ..before
    })
}

/// What was found when a child's checkpoint was checked: where the child
/// stands in the registry, the epoch of the open window, the total value of
/// the checkpoint's metas, and the value to burn.
pub struct CommitPlan {
    pub subnet: usize,
    pub window: ChainEpoch,
    pub total: TokenAmount,
    pub burn: TokenAmount,
}

/// The total value of the metas, the value of those of them that are for the
/// network `net`, and their number; `None` where a meta carries a negative
/// value.
fn sum_metas(metas: &Vec<CrossMsgMeta>, net: &SubnetID, nonce: u64) -> (r: Option<
    (TokenAmount, TokenAmount, u64),
>)
    ensures
        match r {
            Some((total, delivered, count)) => {
                &&& all_nonnegative(metas@)
                &&& atto(total) == total_value(metas@, metas@.len() as int)
                &&& atto(delivered) == delivered_value(metas@, net@, metas@.len() as int)
                &&& count == kept_metas(metas@, net@, nonce as int, metas@.len() as int).len()
            },
            None => !all_nonnegative(metas@),
        },
{
    let n = metas.len();
    let zero = token_zero();
    let mut total = token_zero();
    let mut delivered = token_zero();
    let mut count: u64 = 0;
    let mut j: usize = 0;
    while j < n
        invariant
            0 <= j <= n,
            n == metas@.len(),
            atto(zero) == 0,
            forall|k: int| 0 <= k < j ==> atto((#[trigger] metas@[k]).value) >= 0,
            atto(total) == total_value(metas@, j as int),
            atto(delivered) == delivered_value(metas@, net@, j as int),
            count == kept_metas(metas@, net@, nonce as int, j as int).len(),
            count <= j,
        decreases n - j,
    {
        let mm = &metas[j];
        if token_lt(&mm.value, &zero) {
            assert(atto(metas@[j as int].value) < 0);
            return None;
        }
        total = token_add(&total, &mm.value);
        if mm.to == *net {
            delivered = token_add(&delivered, &mm.value);
            count = count + 1;
        }
        j += 1;
    }
    Some((total, delivered, count))
}

impl State {
    /// Checks whether the checkpoint `commit` of the caller's subnet can be
    /// committed.
    pub fn check_commit(&self, inv: &Invocation, commit: &Checkpoint) -> (r: Result<
        CommitPlan,
        ActorError,
    >)
        requires
            self.wf(),
        ensures
            match r {
                Ok(plan) => {
                    &&& commit_failure(*self, *inv, *commit) is None
                    &&& plan.subnet == position(self.subnets@, caller_subnet(*self, *inv))
                    &&& plan.window == window_at(*self, *inv)
                    &&& atto(plan.total) == total_value(
                        commit.data.cross_msgs@,
                        commit.data.cross_msgs@.len() as int,
                    )
                    &&& atto(plan.burn) == delivered_value(
                        commit.data.cross_msgs@,
                        self.network_name@,
                        commit.data.cross_msgs@.len() as int,
                    )
                },
                Err(e) => commit_failure(*self, *inv, *commit) == Some(e),
            },
    {
        let shid = match inv.caller_type {
            ActorType::Subnet => match inv.caller.id() {
                Ok(id) => {
                    if commit.data.source.subnet_actor_id() != id {
                        return Err(ActorError::WrongSource);
                    }
                    SubnetID::new_child(&self.network_name, id)
                },
                Err(_) => {
                    return Err(ActorError::CallerNotId);
                },
            },
            _ => {
                return Err(ActorError::Forbidden);
            },
        };
        let i = match find(&self.subnets, &shid) {
            Some(i) => i,
            None => {
                return Err(ActorError::SubnetNotRegistered);
            },
        };
        proof {
            lemma_position(self.subnets@, shid@);
        }
        let sub = &self.subnets[i];
        match sub.status {
            Status::Active => {},
            _ => {
                return Err(ActorError::SubnetInactive);
            },
        }
        if inv.curr_epoch < 0 {
            return Err(ActorError::InvalidEpoch);
        }
        let win = match window_epoch(inv.curr_epoch, self.check_period) {
            Some(e) => e,
            None => {
                return Err(ActorError::InvalidEpoch);
            },
        };
        match &sub.prev_checkpoint {
            Some(prev) => {
                if prev.data.epoch > commit.data.epoch {
                    return Err(ActorError::CheckpointInPast);
                }
                let prev_cid = prev.cid();
                if !(commit.data.prev_check == prev_cid) {
                    return Err(ActorError::PrevCheckMismatch);
                }
            },
            None => {},
        }
        match find(&self.checkpoints, &win) {
            Some(w) => {
                proof {
                    lemma_position(self.checkpoints@, win);
                }
                let children = &self.checkpoints[w].data.children;
                match find(children, &commit.data.source) {
                    Some(c) => {
                        let cid = commit.cid();
                        if contains_cid(&children[c].checks, &cid) {
                            return Err(ActorError::DuplicateCheckpoint);
                        }
                    },
                    None => {},
                }
            },
            None => {},
        }
        let (total, burn, count) = match sum_metas(&commit.data.cross_msgs, &self.network_name, self.nonce) {
            Some(found) => found,
            None => {
                return Err(ActorError::NegativeAmount);
            },
        };
        if token_lt(&sub.circ_supply, &total) {
            return Err(ActorError::SupplyExceeded);
        }
        if count > u64::MAX - self.nonce {
            return Err(ActorError::NonceOverflow);
        }
        Ok(CommitPlan { subnet: i, window: win, total, burn })
    }

    /// The place of the window checkpoint for the epoch `win`, which is made
    /// if it is not there.
    pub fn open_window(&mut self, win: ChainEpoch) -> (w: usize)
        requires
            old(self).wf(),
            win >= 0,
            win as int % old(self).check_period as int == 0,
        ensures
            final(self).wf(),
            w == position(final(self).checkpoints@, win),
            present(final(self).checkpoints@, win),
            present(old(self).checkpoints@, win) ==> *final(self) == *old(self),
            !present(old(self).checkpoints@, win) ==> {
                &&& final(self).checkpoints@.len() == old(self).checkpoints@.len() + 1
                &&& final(self).checkpoints@.drop_last() == old(self).checkpoints@
                &&& w == old(self).checkpoints@.len()
                &&& final(self).checkpoints@[w as int].data.source@ == old(self).network_name@
                &&& final(self).checkpoints@[w as int].data.epoch == win
                &&& final(self).checkpoints@[w as int].data.prev_check@.len() == 0
                &&& final(self).checkpoints@[w as int].data.children@.len() == 0
                &&& final(self).checkpoints@[w as int].data.cross_msgs@.len() == 0
                &&& *final(self) == (State { checkpoints: final(self).checkpoints, ..*old(self) })
            },
    {
        proof {
            lemma_position(self.checkpoints@, win);
        }
        match find(&self.checkpoints, &win) {
            Some(w) => w,
            None => {
                let ch = Checkpoint::new(self.network_name.clone(), win);
                proof {
                    lemma_push_new_key(self.checkpoints@, ch);
                }
                self.checkpoints.push(ch);
                proof {
                    assert(self.checkpoints@.drop_last() =~= old(self).checkpoints@);
                    assert forall|j: int| 0 <= j < self.checkpoints@.len() implies self.window_ok(
                        #[trigger] self.checkpoints@[j],
                    ) by {
                        if j < old(self).checkpoints@.len() {
                            assert(self.checkpoints@[j] == old(self).checkpoints@[j]);
                            assert(old(self).window_ok(old(self).checkpoints@[j]));
                        }
                    }
                }
                self.checkpoints.len() - 1
            },
        }
    }
}

/// How the state changes when the window checkpoint at `w` records the
/// checkpoint `cid` of the child `source`: the list of its children changes as
/// `child_check_added` says, and nothing else changes.
pub open spec fn child_recorded(
    before: State,
    after: State,
    w: int,
    source: Seq<u64>,
    cid: Seq<u8>,
) -> bool {
    &&& after.checkpoints@.len() == before.checkpoints@.len()
    &&& forall|j: int|
        0 <= j < before.checkpoints@.len() && j != w ==> after.checkpoints@[j]
            == before.checkpoints@[j]
    &&& after.checkpoints@[w].data.source == before.checkpoints@[w].data.source
    &&& after.checkpoints@[w].data.epoch == before.checkpoints@[w].data.epoch
    &&& after.checkpoints@[w].data.prev_check == before.checkpoints@[w].data.prev_check
    &&& after.checkpoints@[w].data.cross_msgs == before.checkpoints@[w].data.cross_msgs
    &&& child_check_added(
        before.checkpoints@[w].data.children@,
        after.checkpoints@[w].data.children@,
        source,
        cid,
    )
    &&& forall|e: ChainEpoch|
        position(after.checkpoints@, e) == position(before.checkpoints@, e)
    &&& after == (State { checkpoints: after.checkpoints, ..before })
}

/// How the state changes when the child at `i` has committed `commit`, whose
/// metas carry `total`: the child's circulating supply shrinks by `total`,
/// the checkpoint becomes its last, and nothing else changes.
pub open spec fn child_settled(
    before: State,
    after: State,
    i: int,
    total: int,
    commit: Checkpoint,
) -> bool {
    &&& after.subnets@.len() == before.subnets@.len()
    &&& forall|j: int|
        0 <= j < before.subnets@.len() && j != i ==> after.subnets@[j] == before.subnets@[j]
    &&& atto(after.subnets@[i].circ_supply) == atto(before.subnets@[i].circ_supply) - total
    &&& after.subnets@[i].prev_checkpoint == Some(commit)
    &&& after.subnets@[i].id == before.subnets@[i].id
    &&& after.subnets@[i].stake == before.subnets@[i].stake
    &&& after.subnets@[i].status == before.subnets@[i].status
    &&& after.subnets@[i].nonce == before.subnets@[i].nonce
    &&& after.subnets@[i].top_down_msgs == before.subnets@[i].top_down_msgs
    &&& after == (State { subnets: after.subnets, ..before })
}

impl State {
    /// Records in the window checkpoint at `w` that the child that made
    /// `commit` has committed it.
    pub fn record_child(&mut self, w: usize, commit: &Checkpoint)
        requires
            old(self).wf(),
            w < old(self).checkpoints@.len(),
            !old(self).checkpoints@[w as int].has_child_check(
                commit.data.source@,
                commit.spec_cid(),
            ),
        ensures
            final(self).wf(),
            child_recorded(
                *old(self),
                *final(self),
                w as int,
                commit.data.source@,
                commit.spec_cid(),
            ),
    {
        let added = self.checkpoints[w].add_child_check(commit);
        assert(added is Ok);
        proof {
            let ch = self.checkpoints@[w as int];
            assert(self.checkpoints@ =~= old(self).checkpoints@.update(w as int, ch));
            lemma_update_keeps_keys(old(self).checkpoints@, w as int, ch);
            assert forall|j: int| 0 <= j < self.checkpoints@.len() implies self.window_ok(
                #[trigger] self.checkpoints@[j],
            ) by {
                assert(old(self).window_ok(old(self).checkpoints@[j]));
                if j != w {
                    assert(self.checkpoints@[j] == old(self).checkpoints@[j]);
                }
            }
        }
    }

    /// Takes `total` out of the circulating supply of the child at `i`, and
    /// makes `commit` its last checkpoint.
    pub fn settle_child(&mut self, i: usize, total: &TokenAmount, commit: Checkpoint)
        requires
            old(self).wf(),
            i < old(self).subnets@.len(),
            atto(*total) <= atto(old(self).subnets@[i as int].circ_supply),
        ensures
            final(self).wf(),
            child_settled(*old(self), *final(self), i as int, atto(*total), commit),
    {
        self.subnets[i].circ_supply = token_sub(&self.subnets[i].circ_supply, total);
        self.subnets[i].prev_checkpoint = Some(commit);
        proof {
            let sub = self.subnets@[i as int];
            assert(self.subnets@ =~= old(self).subnets@.update(i as int, sub));
            lemma_update_keeps_keys(old(self).subnets@, i as int, sub);
            assert forall|j: int| 0 <= j < self.subnets@.len() implies self.subnet_ok(
                #[trigger] self.subnets@[j],
            ) by {
                assert(old(self).subnet_ok(old(self).subnets@[j]));
                if j != i {
                    assert(self.subnets@[j] == old(self).subnets@[j]);
                }
            }
        }
    }
}

/// The steps of a commit, one after the other, change the state as
/// `commit_applied` says.
proof fn lemma_commit_steps(
    s0: State,
    s1: State,
    s2: State,
    s3: State,
    s4: State,
    inv: Invocation,
    commit: Checkpoint,
    w: int,
)
    requires
        s0.wf(),
        commit_failure(s0, inv, commit) is None,
        w == position(s1.checkpoints@, window_at(s0, inv) as i64),
        present(s1.checkpoints@, window_at(s0, inv) as i64),
        present(s0.checkpoints@, window_at(s0, inv) as i64) ==> s1 == s0,
        !present(s0.checkpoints@, window_at(s0, inv) as i64) ==> {
            &&& s1.checkpoints@.len() == s0.checkpoints@.len() + 1
            &&& s1.checkpoints@.drop_last() == s0.checkpoints@
            &&& w == s0.checkpoints@.len()
            &&& s1.checkpoints@[w].data.source@ == s0.network_name@
            &&& s1.checkpoints@[w].data.epoch == window_at(s0, inv) as i64
            &&& s1.checkpoints@[w].data.prev_check@.len() == 0
            &&& s1.checkpoints@[w].data.children@.len() == 0
            &&& s1.checkpoints@[w].data.cross_msgs@.len() == 0
            &&& s1 == (State { checkpoints: s1.checkpoints, ..s0 })
        },
        crate::commit::metas_applied(s1, s2, w, commit.data.cross_msgs@),
        child_recorded(s2, s3, w, commit.data.source@, commit.spec_cid()),
        child_settled(
            s3,
            s4,
            position(s0.subnets@, caller_subnet(s0, inv)),
            total_value(commit.data.cross_msgs@, commit.data.cross_msgs@.len() as int),
            commit,
        ),
    ensures
        commit_applied(s0, s4, inv, commit),
{
    let win = window_at(s0, inv) as i64;
    let metas = commit.data.cross_msgs@;
    let net = s0.network_name@;
    lemma_position(s0.checkpoints@, win);
    lemma_position(s1.checkpoints@, win);
    assert(s1.checkpoints@[w].data.epoch == win);
    assert(position(s4.checkpoints@, win) == w);
    assert(s1.checkpoints@[w].data.children@ =~= window_children(s0, win));
    assert(s1.checkpoints@[w].data.cross_msgs@ =~= window_metas(s0, win));
    let ch = s4.checkpoints@[w];
    assert(ch.data.cross_msgs@ == s2.checkpoints@[w].data.cross_msgs@);
    assert forall|k: Route|
        (#[trigger] present(ch.data.cross_msgs@, k) <==> present(window_metas(s0, win), k)
            || routed(metas, net, k, metas.len() as int)) by {
        assert(present(s2.checkpoints@[w].data.cross_msgs@, k) <==> present(
            s1.checkpoints@[w].data.cross_msgs@,
            k,
        ) || routed(metas, net, k, metas.len() as int));
    }
    assert forall|k: Route|
        #[trigger] route_value(ch.data.cross_msgs@, k) == route_value(window_metas(s0, win), k)
            + route_total(metas, net, k, metas.len() as int) by {
        assert(route_value(s2.checkpoints@[w].data.cross_msgs@, k) == route_value(
            s1.checkpoints@[w].data.cross_msgs@,
            k,
        ) + route_total(metas, net, k, metas.len() as int));
    }
    if present(s0.checkpoints@, win) {
        assert forall|j: int| 0 <= j < s0.checkpoints@.len() && j != w implies s4.checkpoints@[j]
            == s0.checkpoints@[j] by {
            assert(s2.checkpoints@[j] == s1.checkpoints@[j]);
            assert(s3.checkpoints@[j] == s2.checkpoints@[j]);
        }
    } else {
        assert(s4.checkpoints@.drop_last() =~= s0.checkpoints@) by {
            assert forall|j: int| 0 <= j < s0.checkpoints@.len() implies s4.checkpoints@[j]
                == s0.checkpoints@[j] by {
                assert(s1.checkpoints@[j] == s1.checkpoints@.drop_last()[j]);
                assert(s2.checkpoints@[j] == s1.checkpoints@[j]);
                assert(s3.checkpoints@[j] == s2.checkpoints@[j]);
            }
        }
    }
}

impl Actor {
    /// Commits the checkpoint `params` of the caller's subnet, and returns
    /// the transfer to the burn sink of the value that the checkpoint's metas
    /// bring to this network, where they bring any.
    pub fn commit_child_check(st: &mut State, inv: &Invocation, params: Checkpoint) -> (r: Result<
        Option<Send>,
        ActorError,
    >)
        requires
            old(st).wf(),
        ensures
            match r {
                Ok(burn) => {
                    &&& commit_failure(*old(st), *inv, params) is None
                    &&& commit_applied(*old(st), *final(st), *inv, params)
                    &&& match burn {
                        Some(send) => is_transfer(
                            send,
                            AddressView::id(BURNT_FUNDS_ACTOR_ID),
                            delivered_value(
                                params.data.cross_msgs@,
                                old(st).network_name@,
                                params.data.cross_msgs@.len() as int,
                            ),
                        ) && atto(send.value) > 0,
                        None => delivered_value(
                            params.data.cross_msgs@,
                            old(st).network_name@,
                            params.data.cross_msgs@.len() as int,
                        ) == 0,
                    }
                    &&& final(st).wf()
                },
                Err(e) => commit_failure(*old(st), *inv, params) == Some(e) && *final(st) == *old(
                    st,
                ),
            },
    {
        let plan = match st.check_commit(inv, &params) {
            Ok(p) => p,
            Err(e) => {
                return Err(e);
            },
        };
        let ghost win = plan.window;
        proof {
            crate::checkpoint::law_window_is_next_multiple(
                inv.curr_epoch as int,
                st.check_period as int,
            );
        }
        let w = st.open_window(plan.window);
        let ghost s1 = *st;
        proof {
            lemma_position(old(st).checkpoints@, win);
            lemma_position(s1.checkpoints@, win);
        }
        st.apply_check_msgs(w, &params);
        let ghost s2 = *st;
        proof {
            assert(s2.checkpoints@[w as int].data.children@ =~= window_children(*old(st), win));
        }
        st.record_child(w, &params);
        let ghost s3 = *st;
        proof {
            crate::commit::lemma_delivered_within(
                params.data.cross_msgs@,
                old(st).network_name@,
                params.data.cross_msgs@.len() as int,
            );
        }
        let burn = if token_is_positive(&plan.burn) {
            Some(transfer(&Address::new_id(BURNT_FUNDS_ACTOR_ID), token_clone(&plan.burn)))
        } else {
            None
        };
        st.settle_child(plan.subnet, &plan.total, params);
        proof {
            lemma_commit_steps(*old(st), s1, s2, s3, *st, *inv, params, w as int);
        }
        Ok(burn)
    }
}

} // verus!
