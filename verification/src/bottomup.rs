//! Messages on their way up: how the coordinator files them in the window
//! checkpoint, and the methods that send them.

use crate::actor::{is_transfer, signable, transfer, Actor, ActorType, Invocation, Send};
use crate::address::{Address, AddressError, AddressView, BURNT_FUNDS_ACTOR_ID};
use crate::checkpoint::{window_epoch, ChainEpoch, CrossMsgMeta};
use crate::child_check::window_metas;
use crate::commit::{content_of, msgs_before, clone_metas, clone_msgs, content_before, put_msgmeta, registry_kept, Route};
use crate::cross::CrossMsgs;
use crate::econ::{atto, token_add, token_clone, token_is_positive, token_lt, token_zero};
use crate::error::ActorError;
use crate::keyed::{
    distinct, find, find_rank, lemma_insert_new_key, lemma_insert_sorted, lemma_position,
    lemma_sorted_distinct, lemma_update_keeps_keys, lemma_update_sorted, position, present,
    sorted, Keyed,
};
use crate::state::{registry_sound, topdown_applied, MsgsEntry, State};
use crate::subnet_id::SubnetID;
use crate::types::{HCMsgType, StorableMsg, StorableMsgView, METHOD_SEND};
use crate::views::views;
use vstd::prelude::*;

verus! {

/// The route of a message in transit: the subnets of its two ends.
pub open spec fn msg_route(m: StorableMsgView) -> Route {
    (m.from.subnet->Some_0, m.to.subnet->Some_0)
}

/// How the metas of a window checkpoint and the registry change when the
/// message `m` is filed.
///
/// The meta of the message's route carries the value of the message more than
/// before, and names a content in the registry that holds the messages filed
/// before and `m` behind them, and the metas filed before. A route that had
/// no meta gets one at its place. Every other route keeps its meta.
pub open spec fn msg_filed(
    before: Seq<CrossMsgMeta>,
    after: Seq<CrossMsgMeta>,
    registry_before: Seq<MsgsEntry>,
    registry_after: Seq<MsgsEntry>,
    m: StorableMsgView,
) -> bool {
    let k = msg_route(m);
    let e = after[position(after, k)];
    let content = registry_after[position(registry_after, e.msgs_cid@)].msgs;
    &&& present(after, k)
    &&& e.from@ == k.0 && e.to@ == k.1
    &&& forall|k2: Route|
        k2 != k ==> (present(after, k2) <==> present(before, k2)) && (present(before, k2)
            ==> after[position(after, k2)] == before[position(before, k2)])
    &&& present(registry_after, e.msgs_cid@)
    &&& e.msgs_cid@ == content.spec_cid()
    &&& if present(before, k) {
        let b = before[position(before, k)];
        &&& atto(e.value) == atto(b.value) + m.value
        &&& e.nonce == b.nonce
        &&& views(content.msgs@) == msgs_before(registry_before, b).push(m)
        &&& views(content.metas@) == content_before(registry_before, b)
    } else {
        &&& atto(e.value) == m.value
        &&& e.nonce == 0
        &&& views(content.msgs@) == seq![m]
        &&& content.metas@.len() == 0
    }
}

/// Files the message `msg`, which is in transit, among the metas of a window
/// checkpoint.
pub fn file_msg(metas: &mut Vec<CrossMsgMeta>, registry: &mut Vec<MsgsEntry>, msg: &StorableMsg)
    requires
        sorted(old(metas)@),
        distinct(old(registry)@),
        registry_sound(old(registry)@),
        msg@.in_transit(),
    ensures
        sorted(final(metas)@),
        distinct(final(registry)@),
        registry_sound(final(registry)@),
        registry_kept(
            old(registry)@,
            final(registry)@,
            final(metas)@[position(final(metas)@, msg_route(msg@))].msgs_cid@,
        ),
        msg_filed(old(metas)@, final(metas)@, old(registry)@, final(registry)@, msg@),
{
    let sfrom = match &msg.from.subnet {
        Some(s) => s.clone(),
        None => SubnetID::root(),
    };
    let sto = match &msg.to.subnet {
        Some(s) => s.clone(),
        None => SubnetID::root(),
    };
    let key = (sfrom, sto);
    let ghost k = msg_route(msg@);
    proof {
        lemma_position(metas@, k);
        lemma_sorted_distinct(metas@);
    }
    match find(metas, &key) {
        Some(p) => {
            let mut content = content_of(registry, &metas[p]);
            content.add_msg(msg);
            let cid = put_msgmeta(registry, content);
            let value = token_add(&metas[p].value, &msg.value);
            metas[p].msgs_cid = cid;
            metas[p].value = value;
            proof {
                let e = metas@[p as int];
                assert(metas@ =~= old(metas)@.update(p as int, e));
                lemma_update_sorted(old(metas)@, p as int, e);
                lemma_update_keeps_keys(old(metas)@, p as int, e);
                lemma_position(registry@, cid@);
                assert forall|k2: Route| k2 != k implies (present(metas@, k2) <==> present(
                    old(metas)@,
                    k2,
                )) && (present(old(metas)@, k2) ==> metas@[position(metas@, k2)] == old(
                    metas,
                )@[position(old(metas)@, k2)]) by {
                    lemma_position(old(metas)@, k2);
                }
            }
        },
        None => {
            let mut content = CrossMsgs::new();
            content.add_msg(msg);
            assert(views(content.msgs@) =~= seq![msg@]);
            let cid = put_msgmeta(registry, content);
            let meta = CrossMsgMeta {
                from: key.0,
                to: key.1,
                msgs_cid: cid,
                nonce: 0,
                value: token_clone(&msg.value),
            };
            let key2 = (meta.from.clone(), meta.to.clone());
            let at = find_rank(metas, &key2);
            proof {
                assert(meta.key() == k);
                lemma_insert_sorted(metas@, meta);
                lemma_insert_new_key(metas@, at as int, meta);
                lemma_position(registry@, cid@);
            }
            metas.insert(at, meta);
            proof {
                assert(metas@[at as int] == meta);
                assert(position(metas@, k) == at);
            }
        },
    }
}

/// The first reason for which a message cannot be filed in the window
/// checkpoint of the epoch `epoch`, if there is one.
pub open spec fn bottomup_failure(st: State, epoch: ChainEpoch, m: StorableMsgView) -> Option<
    ActorError,
> {
    if !m.in_transit() {
        Some(ActorError::InvalidAddress)
    } else if m.value < 0 {
        Some(ActorError::NegativeAmount)
    } else if epoch < 0 || crate::checkpoint::window_of(epoch as int, st.check_period as int)
        > i64::MAX {
        Some(ActorError::InvalidEpoch)
    } else if st.nonce == u64::MAX {
        Some(ActorError::NonceOverflow)
    } else {
        None
    }
}

/// How the state changes when the message `m` is committed on its way up in
/// the epoch `epoch`.
///
/// The window checkpoint of the epoch, which is made if it was not there,
/// files the message as `msg_filed` says, and the state's nonce grows by one.
/// Contents that the registry held have an entry still. Nothing else changes.
pub open spec fn bottomup_applied(before: State, after: State, epoch: ChainEpoch, m: StorableMsgView) -> bool {
    let win = crate::checkpoint::window_of(epoch as int, before.check_period as int) as i64;
    let w = position(after.checkpoints@, win);
    let ch = after.checkpoints@[w];
    &&& after.nonce == before.nonce + 1
    &&& present(after.checkpoints@, win)
    &&& if present(before.checkpoints@, win) {
        &&& w == position(before.checkpoints@, win)
        &&& after.checkpoints@.len() == before.checkpoints@.len()
        &&& forall|j: int|
            0 <= j < before.checkpoints@.len() && j != w ==> after.checkpoints@[j]
                == before.checkpoints@[j]
        &&& ch.data.source == before.checkpoints@[w].data.source
        &&& ch.data.prev_check == before.checkpoints@[w].data.prev_check
        &&& ch.data.children == before.checkpoints@[w].data.children
    } else {
        &&& after.checkpoints@.len() == before.checkpoints@.len() + 1
        &&& after.checkpoints@.drop_last() == before.checkpoints@
        &&& w == before.checkpoints@.len()
        &&& ch.data.source@ == before.network_name@
        &&& ch.data.prev_check@.len() == 0
        &&& ch.data.children@.len() == 0
    }
    &&& ch.data.epoch == win
    &&& msg_filed(
        window_metas(before, win),
        ch.data.cross_msgs@,
        before.check_msg_registry@,
        after.check_msg_registry@,
        m,
    )
    &&& forall|c: Seq<u8>|
        present(before.check_msg_registry@, c) ==> present(after.check_msg_registry@, c)
    &&& after == (State {
        nonce: after.nonce,
        checkpoints: after.checkpoints,
        check_msg_registry: after.check_msg_registry,
        ..before
    })
}

/// The message that releases `value` from the network `net` to `sig` in its
/// parent, under the nonce `nonce`.
pub open spec fn release_msg(net: Seq<u64>, sig: AddressView, value: int, nonce: u64) -> StorableMsgView {
    StorableMsgView {
        from: AddressView::id(BURNT_FUNDS_ACTOR_ID).within(net),
        to: sig.within(net.drop_last()),
        method: METHOD_SEND,
        params: Seq::<u8>::empty(),
        value,
        nonce,
    }
}

/// The first reason to refuse a release, if there is one.
pub open spec fn release_failure(st: State, inv: Invocation) -> Option<ActorError> {
    if !signable(inv.caller_type) {
        Some(ActorError::Forbidden)
    } else if atto(inv.value_received) <= 0 {
        Some(ActorError::NoValue)
    } else if inv.sig_addr is None {
        Some(ActorError::UnresolvedCaller)
    } else if st.network_name@.len() == 0 {
        Some(ActorError::NoRoute)
    } else if inv.sig_addr->Some_0@.is_hierarchical() {
        Some(ActorError::InvalidAddress)
    } else {
        bottomup_failure(
            st,
            inv.curr_epoch,
            release_msg(
                st.network_name@,
                inv.sig_addr->Some_0@,
                atto(inv.value_received),
                st.nonce,
            ),
        )
    }
}

/// The parameters of the method that sends a message to another subnet.
#[derive(Debug)]
pub struct CrossMsgParams {
    /// The message, with raw addresses.
    pub msg: StorableMsg,
    /// The subnet of the message's destination.
    pub destination: SubnetID,
}

/// The message that leaves the network when the caller sends `msg` to the
/// subnet `dest`: it comes from the caller's key address in this network and
/// goes to the message's destination in `dest`.
pub open spec fn cross_msg(st: State, inv: Invocation, dest: Seq<u64>, msg: StorableMsgView) -> StorableMsgView {
    StorableMsgView {
        from: inv.sig_addr->Some_0@.within(st.network_name@),
        to: msg.to.within(dest),
        ..msg
    }
}

/// The first reason to refuse to send a message to another subnet, if there
/// is one.
pub open spec fn send_cross_failure(
    st: State,
    inv: Invocation,
    dest: Seq<u64>,
    msg: StorableMsgView,
) -> Option<ActorError> {
    if !signable(inv.caller_type) {
        Some(ActorError::Forbidden)
    } else if inv.sig_addr is None {
        Some(ActorError::UnresolvedCaller)
    } else if dest == st.network_name@ {
        Some(ActorError::DestinationIsSelf)
    } else if msg.to.is_hierarchical() || inv.sig_addr->Some_0@.is_hierarchical() {
        Some(ActorError::InvalidAddress)
    } else if cross_msg(st, inv, dest, msg).hc_type() == HCMsgType::TopDown {
        st.topdown_failure(cross_msg(st, inv, dest, msg))
    } else {
        bottomup_failure(st, inv.curr_epoch, cross_msg(st, inv, dest, msg).with_nonce(st.nonce))
    }
}

impl State {
    /// Commits a message on its way up: it is filed in the window checkpoint
    /// of the epoch `epoch`, and the state's nonce grows by one. A message
    /// that cannot be committed changes nothing.
    pub fn commit_bottomup_msg(&mut self, msg: &StorableMsg, epoch: ChainEpoch) -> (r: Result<
        (),
        ActorError,
    >)
        requires
            old(self).wf(),
        ensures
            match r {
                Ok(()) => {
                    &&& bottomup_failure(*old(self), epoch, msg@) is None
                    &&& bottomup_applied(*old(self), *final(self), epoch, msg@)
                    &&& final(self).wf()
                },
                Err(e) => bottomup_failure(*old(self), epoch, msg@) == Some(e) && *final(self)
                    == *old(self),
            },
    {
        if msg.from.subnet.is_none() || msg.to.subnet.is_none() {
            return Err(ActorError::InvalidAddress);
        }
        let zero = token_zero();
        if token_lt(&msg.value, &zero) {
            return Err(ActorError::NegativeAmount);
        }
        if epoch < 0 {
            return Err(ActorError::InvalidEpoch);
        }
        let win = match window_epoch(epoch, self.check_period) {
            Some(e) => e,
            None => {
                return Err(ActorError::InvalidEpoch);
            },
        };
        if self.nonce == u64::MAX {
            return Err(ActorError::NonceOverflow);
        }
        proof {
            lemma_position(self.checkpoints@, win);
            crate::checkpoint::law_window_is_next_multiple(epoch as int, self.check_period as int);
        }
        let w = self.open_window(win);
        let ghost opened = *self;
        proof {
            lemma_position(opened.checkpoints@, win);
            assert(opened.checkpoints@[w as int].data.cross_msgs@ =~= window_metas(
                *old(self),
                win,
            ));
        }
        file_msg(&mut self.checkpoints[w].data.cross_msgs, &mut self.check_msg_registry, msg);
        self.nonce = self.nonce + 1;
        proof {
            let ch = self.checkpoints@[w as int];
            assert(self.checkpoints@ =~= opened.checkpoints@.update(w as int, ch));
            lemma_update_keeps_keys(opened.checkpoints@, w as int, ch);
            assert forall|j: int| 0 <= j < self.checkpoints@.len() implies self.window_ok(
                #[trigger] self.checkpoints@[j],
            ) by {
                assert(opened.window_ok(opened.checkpoints@[j]));
                if j != w {
                    assert(self.checkpoints@[j] == opened.checkpoints@[j]);
                }
            }
            assert forall|i: int| 0 <= i < self.bottomup_msg_meta@.len() implies (
            #[trigger] self.bottomup_msg_meta@[i]).nonce < self.nonce by {
                assert(old(self).bottomup_msg_meta@[i].nonce < old(self).nonce);
            }
            if !present(old(self).checkpoints@, win) {
                assert(self.checkpoints@.drop_last() =~= old(self).checkpoints@) by {
                    assert forall|j: int| 0 <= j < old(self).checkpoints@.len() implies (
                    #[trigger] self.checkpoints@[j]) == old(self).checkpoints@[j] by {
                        assert(opened.checkpoints@[j] == opened.checkpoints@.drop_last()[j]);
                    }
                }
            }
        }
        Ok(())
    }
}

impl Actor {
    /// Releases the value of the call to the caller's address in the parent
    /// network: a release message is committed on its way up, and the
    /// transfer of the value to the burn sink is returned.
    pub fn release(st: &mut State, inv: &Invocation) -> (r: Result<Send, ActorError>)
        requires
            old(st).wf(),
        ensures
            match r {
                Ok(burn) => {
                    &&& release_failure(*old(st), *inv) is None
                    &&& bottomup_applied(
                        *old(st),
                        *final(st),
                        inv.curr_epoch,
                        release_msg(
                            old(st).network_name@,
                            inv.sig_addr->Some_0@,
                            atto(inv.value_received),
                            old(st).nonce,
                        ),
                    )
                    &&& is_transfer(
                        burn,
                        AddressView::id(BURNT_FUNDS_ACTOR_ID),
                        atto(inv.value_received),
                    )
                    &&& final(st).wf()
                },
                Err(e) => release_failure(*old(st), *inv) == Some(e) && *final(st) == *old(st),
            },
    {
        match inv.caller_type {
            ActorType::Account => {},
            ActorType::Multisig => {},
            _ => {
                return Err(ActorError::Forbidden);
            },
        }
        if !token_is_positive(&inv.value_received) {
            return Err(ActorError::NoValue);
        }
        let sig_addr = match &inv.sig_addr {
            Some(a) => a,
            None => {
                return Err(ActorError::UnresolvedCaller);
            },
        };
        let msg = match StorableMsg::new_release_msg(
            &st.network_name,
            sig_addr,
            token_clone(&inv.value_received),
            st.nonce,
        ) {
            Ok(m) => m,
            Err(AddressError::NoParent) => {
                return Err(ActorError::NoRoute);
            },
            Err(_) => {
                return Err(ActorError::InvalidAddress);
            },
        };
        match st.commit_bottomup_msg(&msg, inv.curr_epoch) {
            Ok(()) => Ok(
                transfer(&Address::new_id(BURNT_FUNDS_ACTOR_ID), token_clone(&inv.value_received)),
            ),
            Err(e) => Err(e),
        }
    }

    /// Sends the message `params.msg` to the subnet `params.destination`.
    /// A message that goes down is committed to the child through which it
    /// goes. A message that goes up is committed to the window checkpoint
    /// under the state's nonce, and the transfer of its value to the burn sink
    /// is returned, where it has any.
    pub fn send_cross(st: &mut State, inv: &Invocation, params: CrossMsgParams) -> (r: Result<
        Option<Send>,
        ActorError,
    >)
        requires
            old(st).wf(),
        ensures
            match r {
                Ok(burn) => {
                    let m = cross_msg(*old(st), *inv, params.destination@, params.msg@);
                    &&& send_cross_failure(*old(st), *inv, params.destination@, params.msg@) is None
                    &&& if m.hc_type() == HCMsgType::TopDown {
                        topdown_applied(*old(st), *final(st), m) && burn is None
                    } else {
                        &&& bottomup_applied(
                            *old(st),
                            *final(st),
                            inv.curr_epoch,
                            m.with_nonce(old(st).nonce),
                        )
                        &&& match burn {
                            Some(send) => m.value > 0 && is_transfer(
                                send,
                                AddressView::id(BURNT_FUNDS_ACTOR_ID),
                                m.value,
                            ),
                            None => m.value == 0,
                        }
                    }
                    &&& final(st).wf()
                },
                Err(e) => send_cross_failure(*old(st), *inv, params.destination@, params.msg@)
                    == Some(e) && *final(st) == *old(st),
            },
    {
        match inv.caller_type {
            ActorType::Account => {},
            ActorType::Multisig => {},
            _ => {
                return Err(ActorError::Forbidden);
            },
        }
        let sig_addr = match &inv.sig_addr {
            Some(a) => a,
            None => {
                return Err(ActorError::UnresolvedCaller);
            },
        };
        if params.destination == st.network_name {
            return Err(ActorError::DestinationIsSelf);
        }
        let mut msg = params.msg;
        let to = match Address::new_hierarchical(&params.destination, &msg.to) {
            Ok(a) => a,
            Err(_) => {
                return Err(ActorError::InvalidAddress);
            },
        };
        let from = match Address::new_hierarchical(&st.network_name, sig_addr) {
            Ok(a) => a,
            Err(_) => {
                return Err(ActorError::InvalidAddress);
            },
        };
        msg.to = to;
        msg.from = from;
        let tp = match msg.hc_type() {
            Ok(t) => t,
            Err(_) => {
                return Err(ActorError::InvalidAddress);
            },
        };
        match tp {
            HCMsgType::BottomUp => {
                msg.nonce = st.nonce;
                match st.commit_bottomup_msg(&msg, inv.curr_epoch) {
                    Ok(()) => {},
                    Err(e) => {
                        return Err(e);
                    },
                }
                if token_is_positive(&msg.value) {
                    Ok(Some(transfer(&Address::new_id(BURNT_FUNDS_ACTOR_ID), msg.value)))
                } else {
                    Ok(None)
                }
            },
            _ => match st.commit_topdown_msg(&msg) {
                Ok(()) => Ok(None),
                Err(e) => Err(e),
            },
        }
    }
}

} // verus!
