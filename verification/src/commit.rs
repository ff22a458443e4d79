//! Committing the checkpoint of a child: the steps on the state.

use crate::checkpoint::{Checkpoint, CrossMsgMeta, CrossMsgMetaView};
use crate::cross::{merge_metas, CrossMsgs};
use crate::econ::{atto, token_add, token_clone};
use crate::error::ActorError;
use crate::hash::Cid;
use crate::keyed::{
    distinct, find, find_rank, lemma_insert_new_key, lemma_insert_sorted, lemma_position,
    lemma_sorted_distinct, lemma_update_keeps_keys, lemma_update_sorted, position, present,
    sorted, Keyed,
};
use crate::state::{nonces_increasing, registry_sound, MsgsEntry, State};
use crate::subnet_id::{is_prefix, SubnetID};
use crate::views::{lemma_views_push, views};
use crate::types::StorableMsgView;
use vstd::prelude::*;

verus! {

/// The source and destination under which a meta is filed.
pub type Route = (Seq<u64>, Seq<u64>);

/// The route under which the network `net` files a meta that a child sent to
/// another subnet: a meta for a subnet below the network goes on in the
/// network's own name, any other keeps the source it came with.
pub open spec fn route_of(net: Seq<u64>, m: CrossMsgMetaView) -> Route {
    if is_prefix(net, m.to) {
        (net, m.to)
    } else {
        (m.from, m.to)
    }
}

/// The metas behind the meta `e` of a window checkpoint before more are
/// added: the content that the registry holds under its identifier, or, for a
/// meta that was filed as it came, that meta alone.
pub open spec fn content_before(registry: Seq<MsgsEntry>, e: CrossMsgMeta) -> Seq<
    CrossMsgMetaView,
> {
    if present(registry, e.msgs_cid@) {
        views(registry[position(registry, e.msgs_cid@)].msgs.metas@)
    } else {
        seq![e@]
    }
}

/// The messages behind the meta `e` of a window checkpoint before more are
/// added: those of the content that the registry holds under its identifier,
/// or none.
pub open spec fn msgs_before(registry: Seq<MsgsEntry>, e: CrossMsgMeta) -> Seq<StorableMsgView> {
    if present(registry, e.msgs_cid@) {
        views(registry[position(registry, e.msgs_cid@)].msgs.msgs@)
    } else {
        Seq::<StorableMsgView>::empty()
    }
}

/// How the metas of a window checkpoint and the registry change when the meta
/// `m` of a child is filed under the route `k`.
///
/// A first meta for a subnet above or beside the network is filed as it came.
/// Otherwise the route's meta carries the sum of the values, and names a
/// content in the registry that holds the metas filed before and `m`, each
/// once. Every other route keeps its meta.
pub open spec fn meta_filed(
    before: Seq<CrossMsgMeta>,
    after: Seq<CrossMsgMeta>,
    registry_before: Seq<MsgsEntry>,
    registry_after: Seq<MsgsEntry>,
    net: Seq<u64>,
    m: CrossMsgMetaView,
) -> bool {
    let k = route_of(net, m);
    let e = after[position(after, k)];
    &&& present(after, k)
    &&& e.from@ == k.0 && e.to@ == k.1
    &&& forall|k2: Route|
        k2 != k ==> (present(after, k2) <==> present(before, k2)) && (present(before, k2)
            ==> after[position(after, k2)] == before[position(before, k2)])
    &&& if present(before, k) {
        let b = before[position(before, k)];
        &&& atto(e.value) == atto(b.value) + m.value
        &&& e.nonce == b.nonce
        &&& present(registry_after, e.msgs_cid@)
        &&& views(registry_after[position(registry_after, e.msgs_cid@)].msgs.metas@)
            == merge_metas(content_before(registry_before, b), seq![m])
        &&& views(registry_after[position(registry_after, e.msgs_cid@)].msgs.msgs@)
            == msgs_before(registry_before, b)
        &&& e.msgs_cid@ == registry_after[position(registry_after, e.msgs_cid@)].msgs.spec_cid()
    } else if is_prefix(net, m.to) {
        &&& atto(e.value) == m.value
        &&& e.nonce == 0
        &&& present(registry_after, e.msgs_cid@)
        &&& views(registry_after[position(registry_after, e.msgs_cid@)].msgs.metas@) == seq![m]
        &&& registry_after[position(registry_after, e.msgs_cid@)].msgs.msgs@.len() == 0
        &&& e.msgs_cid@ == registry_after[position(registry_after, e.msgs_cid@)].msgs.spec_cid()
    } else {
        e@ == m
    }
}

/// A copy of the metas of a content.
pub(crate) fn clone_metas(metas: &Vec<CrossMsgMeta>) -> (r: Vec<CrossMsgMeta>)
    ensures
        views(r@) == views(metas@),
{
    let mut out: Vec<CrossMsgMeta> = Vec::new();
    let mut i: usize = 0;
    assert(views(out@) =~= views(metas@).take(0));
    while i < metas.len()
        invariant
            0 <= i <= metas.len(),
            views(out@) == views(metas@).take(i as int),
        decreases metas.len() - i,
    {
        let m = metas[i].clone();
        proof {
            lemma_views_push(out@, m);
            assert(views(metas@).take(i as int).push(m@) =~= views(metas@).take(i as int + 1));
        }
        out.push(m);
        i += 1;
    }
    assert(views(metas@).take(metas.len() as int) =~= views(metas@));
    out
}

/// A copy of the messages of a content.
pub(crate) fn clone_msgs(msgs: &Vec<crate::types::StorableMsg>) -> (r: Vec<crate::types::StorableMsg>)
    ensures
        views(r@) == views(msgs@),
{
    let mut out: Vec<crate::types::StorableMsg> = Vec::new();
    let mut i: usize = 0;
    assert(views(out@) =~= views(msgs@).take(0));
    while i < msgs.len()
        invariant
            0 <= i <= msgs.len(),
            views(out@) == views(msgs@).take(i as int),
        decreases msgs.len() - i,
    {
        let m = msgs[i].clone();
        proof {
            lemma_views_push(out@, m);
            assert(views(msgs@).take(i as int).push(m@) =~= views(msgs@).take(i as int + 1));
        }
        out.push(m);
        i += 1;
    }
    assert(views(msgs@).take(msgs.len() as int) =~= views(msgs@));
    out
}

/// Whether every identifier of `before` still has a content in `after`, and
/// every identifier but `except` the content that it had.
pub open spec fn registry_kept(before: Seq<MsgsEntry>, after: Seq<MsgsEntry>, except: Seq<u8>) -> bool {
    forall|c: Seq<u8>|
        present(before, c) ==> present(after, c) && (c != except ==> after[position(after, c)]
            == before[position(before, c)])
}

/// Keeps a content in the registry under its identifier, which is returned.
/// What the registry held under that identifier is replaced.
pub fn put_msgmeta(registry: &mut Vec<MsgsEntry>, content: CrossMsgs) -> (r: Cid)
    requires
        distinct(old(registry)@),
        registry_sound(old(registry)@),
    ensures
        r@ == content.spec_cid(),
        distinct(final(registry)@),
        registry_sound(final(registry)@),
        present(final(registry)@, r@),
        final(registry)@[position(final(registry)@, r@)].msgs == content,
        registry_kept(old(registry)@, final(registry)@, r@),
        forall|c: Seq<u8>| c != r@ && present(final(registry)@, c) ==> present(old(registry)@, c),
{
    let cid = content.cid();
    proof {
        lemma_position(registry@, cid@);
    }
    match find(registry, &cid) {
        Some(q) => {
            registry[q].msgs = content;
            proof {
                let e = registry@[q as int];
                assert(registry@ =~= old(registry)@.update(q as int, e));
                lemma_update_keeps_keys(old(registry)@, q as int, e);
                assert forall|i: int| 0 <= i < registry@.len() implies (
                #[trigger] registry@[i]).cid@ == registry@[i].msgs.spec_cid() by {
                    if i != q {
                        assert(registry@[i] == old(registry)@[i]);
                    }
                }
                assert forall|c: Seq<u8>| present(old(registry)@, c) implies present(registry@, c)
                    && (c != cid@ ==> registry@[position(registry@, c)] == old(
                    registry,
                )@[position(old(registry)@, c)]) by {
                    lemma_position(old(registry)@, c);
                }
            }
        },
        None => {
            let entry = MsgsEntry { cid: cid.clone(), msgs: content };
            proof {
                lemma_insert_new_key(registry@, registry@.len() as int, entry);
                assert(registry@.insert(registry@.len() as int, entry) =~= registry@.push(entry));
            }
            registry.push(entry);
            proof {
                assert forall|i: int| 0 <= i < registry@.len() implies (
                #[trigger] registry@[i]).cid@ == registry@[i].msgs.spec_cid() by {
                    if i < old(registry)@.len() {
                        assert(registry@[i] == old(registry)@[i]);
                    }
                }
            }
        },
    }
    cid
}

/// The content behind the meta `e`, to add to.
pub(crate) fn content_of(registry: &Vec<MsgsEntry>, e: &CrossMsgMeta) -> (r: CrossMsgs)
    ensures
        views(r.metas@) == content_before(registry@, *e),
        views(r.msgs@) == msgs_before(registry@, *e),
{
    match find(registry, &e.msgs_cid) {
        Some(q) => CrossMsgs {
            msgs: clone_msgs(&registry[q].msgs.msgs),
            metas: clone_metas(&registry[q].msgs.metas),
        },
        None => {
            let mut c = CrossMsgs::new();
            c.metas.push(e.clone());
            assert(views(c.metas@) =~= seq![e@]);
            assert(views(c.msgs@) =~= Seq::<StorableMsgView>::empty());
            c
        },
    }
}

/// Adds the meta `mm` to the meta at `p`, which has the route of `mm`.
fn file_existing(
    metas: &mut Vec<CrossMsgMeta>,
    registry: &mut Vec<MsgsEntry>,
    p: usize,
    mm: &CrossMsgMeta,
)
    requires
        sorted(old(metas)@),
        distinct(old(registry)@),
        registry_sound(old(registry)@),
        p < old(metas)@.len(),
    ensures
        sorted(final(metas)@),
        distinct(final(registry)@),
        registry_sound(final(registry)@),
        registry_kept(old(registry)@, final(registry)@, final(metas)@[p as int].msgs_cid@),
        final(metas)@.len() == old(metas)@.len(),
        forall|j: int| 0 <= j < old(metas)@.len() && j != p ==> final(metas)@[j] == old(metas)@[j],
        forall|k2: Route| position(final(metas)@, k2) == position(old(metas)@, k2),
        final(metas)@[p as int].from == old(metas)@[p as int].from,
        final(metas)@[p as int].to == old(metas)@[p as int].to,
        final(metas)@[p as int].nonce == old(metas)@[p as int].nonce,
        atto(final(metas)@[p as int].value) == atto(old(metas)@[p as int].value) + atto(mm.value),
        present(final(registry)@, final(metas)@[p as int].msgs_cid@),
        views(
            final(registry)@[position(
                final(registry)@,
                final(metas)@[p as int].msgs_cid@,
            )].msgs.metas@,
        ) == merge_metas(content_before(old(registry)@, old(metas)@[p as int]), seq![mm@]),
        views(
            final(registry)@[position(
                final(registry)@,
                final(metas)@[p as int].msgs_cid@,
            )].msgs.msgs@,
        ) == msgs_before(old(registry)@, old(metas)@[p as int]),
        final(metas)@[p as int].msgs_cid@ == final(registry)@[position(
            final(registry)@,
            final(metas)@[p as int].msgs_cid@,
        )].msgs.spec_cid(),
{
    let mut one: Vec<CrossMsgMeta> = Vec::new();
    one.push(mm.clone());
    assert(views(one@) =~= seq![mm@]);
    let mut content = content_of(registry, &metas[p]);
    content.add_metas(&one);
    let cid = put_msgmeta(registry, content);
    let value = token_add(&metas[p].value, &mm.value);
    metas[p].msgs_cid = cid;
    metas[p].value = value;
    proof {
        let e = metas@[p as int];
        assert(metas@ =~= old(metas)@.update(p as int, e));
        lemma_update_sorted(old(metas)@, p as int, e);
        lemma_update_keeps_keys(old(metas)@, p as int, e);
    }
}

/// Files the meta `mm`, whose route has no meta yet, at the route's place.
fn file_new(
    metas: &mut Vec<CrossMsgMeta>,
    registry: &mut Vec<MsgsEntry>,
    net: &SubnetID,
    mm: &CrossMsgMeta,
)
    requires
        sorted(old(metas)@),
        distinct(old(registry)@),
        registry_sound(old(registry)@),
        !present(old(metas)@, route_of(net@, mm@)),
    ensures
        sorted(final(metas)@),
        distinct(final(registry)@),
        registry_sound(final(registry)@),
        registry_kept(
            old(registry)@,
            final(registry)@,
            final(metas)@[position(final(metas)@, route_of(net@, mm@))].msgs_cid@,
        ),
        meta_filed(
            old(metas)@,
            final(metas)@,
            old(registry)@,
            final(registry)@,
            net@,
            mm@,
        ),
{
    let below = net.is_ancestor_or_same(&mm.to);
    let ghost k = route_of(net@, mm@);
    let meta = if below {
        let mut content = CrossMsgs::new();
        content.metas.push(mm.clone());
        assert(views(content.metas@) =~= seq![mm@]);
        let cid = put_msgmeta(registry, content);
        CrossMsgMeta {
            from: net.clone(),
            to: mm.to.clone(),
            msgs_cid: cid,
            nonce: 0,
            value: token_clone(&mm.value),
        }
    } else {
        mm.clone()
    };
    let key = (meta.from.clone(), meta.to.clone());
    let at = find_rank(metas, &key);
    proof {
        assert(meta.key() == k);
        lemma_sorted_distinct(metas@);
        lemma_insert_sorted(metas@, meta);
        lemma_insert_new_key(metas@, at as int, meta);
    }
    metas.insert(at, meta);
    proof {
        assert(metas@[at as int] == meta);
        assert(position(metas@, k) == at);
    }
}

/// Files the meta `mm`, which a child sent to another subnet, among the metas
/// of a window checkpoint of the network `net`.
pub fn file_meta(
    metas: &mut Vec<CrossMsgMeta>,
    registry: &mut Vec<MsgsEntry>,
    net: &SubnetID,
    mm: &CrossMsgMeta,
)
    requires
        sorted(old(metas)@),
        distinct(old(registry)@),
        registry_sound(old(registry)@),
    ensures
        sorted(final(metas)@),
        distinct(final(registry)@),
        registry_sound(final(registry)@),
        registry_kept(
            old(registry)@,
            final(registry)@,
            final(metas)@[position(final(metas)@, route_of(net@, mm@))].msgs_cid@,
        ),
        meta_filed(
            old(metas)@,
            final(metas)@,
            old(registry)@,
            final(registry)@,
            net@,
            mm@,
        ),
{
    let below = net.is_ancestor_or_same(&mm.to);
    let key = if below {
        (net.clone(), mm.to.clone())
    } else {
        (mm.from.clone(), mm.to.clone())
    };
    let ghost k = route_of(net@, mm@);
    proof {
        lemma_position(metas@, k);
        lemma_sorted_distinct(metas@);
    }
    match find(metas, &key) {
        Some(p) => {
            file_existing(metas, registry, p, mm);
            proof {
                assert forall|k2: Route| k2 != k implies (present(metas@, k2) <==> present(
                    old(metas)@,
                    k2,
                )) && (present(old(metas)@, k2) ==> metas@[position(metas@, k2)] == old(
                    metas,
                )@[position(old(metas)@, k2)]) by {
                    lemma_position(old(metas)@, k2);
                }
            }
        },
        None => {
            file_new(metas, registry, net, mm);
        },
    }
}

/// Whether the metas `window` and the registry `registry` are what the metas
/// `window0` and the registry `registry0` become when the first `n` metas of
/// a child's checkpoint are filed, one after the other: each meta for another
/// subnet is filed as `meta_filed` says, and the metas for the network itself
/// are passed over.
pub open spec fn filed_upto(
    window0: Seq<CrossMsgMeta>,
    registry0: Seq<MsgsEntry>,
    window: Seq<CrossMsgMeta>,
    registry: Seq<MsgsEntry>,
    net: Seq<u64>,
    metas: Seq<CrossMsgMeta>,
    n: int,
) -> bool
    decreases n,
{
    if n <= 0 {
        window == window0 && registry == registry0
    } else if metas[n - 1].to@ == net {
        filed_upto(window0, registry0, window, registry, net, metas, n - 1)
    } else {
        exists|w: Seq<CrossMsgMeta>, r: Seq<MsgsEntry>|
            #[trigger] filed_upto(window0, registry0, w, r, net, metas, n - 1) && meta_filed(
                w,
                window,
                r,
                registry,
                net,
                metas[n - 1]@,
            )
    }
}

/// How far the state has come when the first `n` metas of a child's
/// checkpoint have been taken in.
///
/// The metas for the network itself stand behind those that were kept
/// before, under the nonces from the state's nonce on. In the window
/// checkpoint at `w` a route has a meta exactly if it had one or one of the
/// metas is filed under it, and the meta carries what it carried and the
/// values of the metas filed under it; what exactly the metas and the
/// registry have become, `filed_upto` says. Contents that the registry held
/// have an entry still. Nothing else has changed.
pub open spec fn applied_upto(
    before: State,
    after: State,
    w: int,
    metas: Seq<CrossMsgMeta>,
    n: int,
) -> bool {
    let net = before.network_name@;
    let kept = kept_metas(metas, net, before.nonce as int, n);
    let window0 = before.checkpoints@[w].data.cross_msgs@;
    let window = after.checkpoints@[w].data.cross_msgs@;
    &&& after.nonce == before.nonce + kept.len()
    &&& views(after.bottomup_msg_meta@) == views(before.bottomup_msg_meta@) + kept
    &&& after.checkpoints@.len() == before.checkpoints@.len()
    &&& forall|j: int|
        0 <= j < before.checkpoints@.len() && j != w ==> after.checkpoints@[j]
            == before.checkpoints@[j]
    &&& after.checkpoints@[w].data.source == before.checkpoints@[w].data.source
    &&& after.checkpoints@[w].data.epoch == before.checkpoints@[w].data.epoch
    &&& after.checkpoints@[w].data.prev_check == before.checkpoints@[w].data.prev_check
    &&& after.checkpoints@[w].data.children == before.checkpoints@[w].data.children
    &&& forall|e: crate::checkpoint::ChainEpoch|
        position(after.checkpoints@, e) == position(before.checkpoints@, e)
    &&& forall|k: Route|
        (#[trigger] present(window, k) <==> present(window0, k) || routed(metas, net, k, n))
    &&& forall|k: Route|
        #[trigger] route_value(window, k) == route_value(window0, k) + route_total(
            metas,
            net,
            k,
            n,
        )
    &&& filed_upto(
        window0,
        before.check_msg_registry@,
        window,
        after.check_msg_registry@,
        net,
        metas,
        n,
    )
    &&& forall|c: Seq<u8>|
        present(before.check_msg_registry@, c) ==> present(after.check_msg_registry@, c)
    &&& after == (State {
        nonce: after.nonce,
        bottomup_msg_meta: after.bottomup_msg_meta,
        checkpoints: after.checkpoints,
        check_msg_registry: after.check_msg_registry,
        ..before
    })
}

/// How the state changes when all metas of a child's checkpoint are taken in.
pub open spec fn metas_applied(before: State, after: State, w: int, metas: Seq<CrossMsgMeta>) -> bool {
    applied_upto(before, after, w, metas, metas.len() as int)
}

/// The total value of the first `n` metas.
pub open spec fn total_value(metas: Seq<CrossMsgMeta>, n: int) -> int
    decreases n,
{
    if n <= 0 {
        0
    } else {
        total_value(metas, n - 1) + atto(metas[n - 1].value)
    }
}

/// The value that the first `n` metas bring to the network `net` itself: the
/// total of those of them that are for `net`. This value is burnt.
pub open spec fn delivered_value(metas: Seq<CrossMsgMeta>, net: Seq<u64>, n: int) -> int
    decreases n,
{
    if n <= 0 {
        0
    } else if metas[n - 1].to@ == net {
        delivered_value(metas, net, n - 1) + atto(metas[n - 1].value)
    } else {
        delivered_value(metas, net, n - 1)
    }
}

/// Whether no meta carries a negative value.
pub open spec fn all_nonnegative(metas: Seq<CrossMsgMeta>) -> bool {
    forall|i: int| 0 <= i < metas.len() ==> atto((#[trigger] metas[i]).value) >= 0
}

/// Those of the first `n` metas that are for the network `net` itself, each
/// under the nonce that it is kept with: the nonces from `nonce0` on, in
/// order.
pub open spec fn kept_metas(metas: Seq<CrossMsgMeta>, net: Seq<u64>, nonce0: int, n: int) -> Seq<
    CrossMsgMetaView,
>
    decreases n,
{
    if n <= 0 {
        Seq::<CrossMsgMetaView>::empty()
    } else {
        let before = kept_metas(metas, net, nonce0, n - 1);
        if metas[n - 1].to@ == net {
            before.push(
                CrossMsgMetaView { nonce: (nonce0 + before.len()) as u64, ..metas[n - 1]@ },
            )
        } else {
            before
        }
    }
}

/// The total value of those of the first `n` metas that are filed under the
/// route `k`.
pub open spec fn route_total(metas: Seq<CrossMsgMeta>, net: Seq<u64>, k: Route, n: int) -> int
    decreases n,
{
    if n <= 0 {
        0
    } else if metas[n - 1].to@ != net && route_of(net, metas[n - 1]@) == k {
        route_total(metas, net, k, n - 1) + atto(metas[n - 1].value)
    } else {
        route_total(metas, net, k, n - 1)
    }
}

/// Whether one of the first `n` metas is filed under the route `k`.
pub open spec fn routed(metas: Seq<CrossMsgMeta>, net: Seq<u64>, k: Route, n: int) -> bool
    decreases n,
{
    if n <= 0 {
        false
    } else {
        routed(metas, net, k, n - 1) || (metas[n - 1].to@ != net && route_of(net, metas[n - 1]@)
            == k)
    }
}

/// The value under the route `k` before anything is added: that of its meta,
/// or nothing.
pub open spec fn route_value(metas: Seq<CrossMsgMeta>, k: Route) -> int {
    if present(metas, k) {
        atto(metas[position(metas, k)].value)
    } else {
        0
    }
}

/// The more metas are looked at, the more are kept.
pub proof fn lemma_kept_grows(metas: Seq<CrossMsgMeta>, net: Seq<u64>, nonce0: int, n: int, m: int)
    requires
        0 <= n <= m,
    ensures
        kept_metas(metas, net, nonce0, n).len() <= kept_metas(metas, net, nonce0, m).len(),
    decreases m - n,
{
    if n < m {
        lemma_kept_grows(metas, net, nonce0, n, m - 1);
    }
}

/// Of values that are not negative, those for the network itself make no
/// more than the total, and no less than nothing.
pub proof fn lemma_delivered_within(metas: Seq<CrossMsgMeta>, net: Seq<u64>, n: int)
    requires
        all_nonnegative(metas),
        0 <= n <= metas.len(),
    ensures
        0 <= delivered_value(metas, net, n) <= total_value(metas, n),
    decreases n,
{
    if n > 0 {
        lemma_delivered_within(metas, net, n - 1);
        assert(atto(metas[n - 1].value) >= 0);
    }
}

/// The total of values that are not negative is not negative, and grows with
/// the number of metas.
pub proof fn lemma_total_grows(metas: Seq<CrossMsgMeta>, n: int, m: int)
    requires
        all_nonnegative(metas),
        0 <= n <= m <= metas.len(),
    ensures
        0 <= total_value(metas, n) <= total_value(metas, m),
    decreases m,
{
    if n < m {
        lemma_total_grows(metas, n, m - 1);
        assert(atto(metas[m - 1].value) >= 0);
    } else if n > 0 {
        lemma_total_grows(metas, n - 1, n - 1);
        assert(atto(metas[n - 1].value) >= 0);
    }
}

impl State {
    /// Takes in the metas of the checkpoint `commit` of a child: those for
    /// this network are kept under the next nonces, the others are filed in
    /// the window checkpoint at `w`.
    pub fn apply_check_msgs(&mut self, w: usize, commit: &Checkpoint)
        requires
            old(self).wf(),
            w < old(self).checkpoints@.len(),
            old(self).nonce + kept_metas(
                commit.data.cross_msgs@,
                old(self).network_name@,
                old(self).nonce as int,
                commit.data.cross_msgs@.len() as int,
            ).len() <= u64::MAX,
        ensures
            final(self).wf(),
            metas_applied(*old(self), *final(self), w as int, commit.data.cross_msgs@),
    {
        let n = commit.data.cross_msgs.len();
        let ghost metas = commit.data.cross_msgs@;
        let ghost net = self.network_name@;
        let ghost nonce0 = self.nonce as int;
        let ghost window0 = self.checkpoints@[w as int].data.cross_msgs@;
        let mut i: usize = 0;
        assert(views(self.bottomup_msg_meta@) =~= views(old(self).bottomup_msg_meta@) + kept_metas(
            metas,
            net,
            nonce0,
            0,
        ));
        while i < n
            invariant
                0 <= i <= n,
                n == metas.len(),
                metas == commit.data.cross_msgs@,
                net == old(self).network_name@,
                nonce0 == old(self).nonce,
                window0 == old(self).checkpoints@[w as int].data.cross_msgs@,
                w < old(self).checkpoints@.len(),
                nonce0 + kept_metas(metas, net, nonce0, n as int).len() <= u64::MAX,
                self.wf(),
                applied_upto(*old(self), *self, w as int, metas, i as int),
            decreases n - i,
        {
            let mm = &commit.data.cross_msgs[i];
            let ghost prev = *self;
            let ghost window = self.checkpoints@[w as int].data.cross_msgs@;
            if mm.to == self.network_name {
                proof {
                    lemma_kept_grows(metas, net, nonce0, i as int + 1, n as int);
                }
                let kept = self.store_bottomup_msg(mm);
                assert(kept is Ok);
                proof {
                    let list = self.bottomup_msg_meta@;
                    assert(list =~= prev.bottomup_msg_meta@.push(list.last()));
                    lemma_views_push(prev.bottomup_msg_meta@, list.last());
                    assert(views(list) =~= views(old(self).bottomup_msg_meta@) + kept_metas(
                        metas,
                        net,
                        nonce0,
                        i as int + 1,
                    ));
                }
            } else {
                file_meta(
                    &mut self.checkpoints[w].data.cross_msgs,
                    &mut self.check_msg_registry,
                    &self.network_name,
                    mm,
                );
                proof {
                    let ch = self.checkpoints@[w as int];
                    let after = ch.data.cross_msgs@;
                    let k = route_of(net, mm@);
                    assert(filed_upto(
                        window0,
                        old(self).check_msg_registry@,
                        window,
                        prev.check_msg_registry@,
                        net,
                        metas,
                        i as int,
                    ));
                    assert(self.checkpoints@ =~= prev.checkpoints@.update(w as int, ch));
                    lemma_update_keeps_keys(prev.checkpoints@, w as int, ch);
                    assert forall|j: int| 0 <= j < self.checkpoints@.len() implies self.window_ok(
                        #[trigger] self.checkpoints@[j],
                    ) by {
                        assert(prev.window_ok(prev.checkpoints@[j]));
                        if j != w {
                            assert(self.checkpoints@[j] == prev.checkpoints@[j]);
                        }
                    }
                    assert forall|k2: Route|
                        (present(after, k2) <==> present(window0, k2) || routed(
                            metas,
                            net,
                            k2,
                            i as int + 1,
                        )) && route_value(after, k2) == route_value(window0, k2) + route_total(
                            metas,
                            net,
                            k2,
                            i as int + 1,
                        ) by {
                        assert(present(window, k2) <==> present(window0, k2) || routed(
                            metas,
                            net,
                            k2,
                            i as int,
                        ));
                        assert(route_value(window, k2) == route_value(window0, k2) + route_total(
                            metas,
                            net,
                            k2,
                            i as int,
                        ));
                    }
                }
            }
            i += 1;
        }
    }

    /// Keeps a meta that a child sent to this network, under the next nonce.
    /// Where the nonce would exceed 64 bits nothing changes.
    pub fn store_bottomup_msg(&mut self, meta: &CrossMsgMeta) -> (r: Result<(), ActorError>)
        requires
            nonces_increasing(old(self).bottomup_msg_meta@, old(self).nonce),
        ensures
            match r {
                Ok(()) => {
                    &&& old(self).nonce < u64::MAX
                    &&& final(self).nonce == old(self).nonce + 1
                    &&& final(self).bottomup_msg_meta@.len() == old(self).bottomup_msg_meta@.len()
                        + 1
                    &&& final(self).bottomup_msg_meta@.drop_last() == old(self).bottomup_msg_meta@
                    &&& final(self).bottomup_msg_meta@.last()@ == (CrossMsgMetaView {
                        nonce: old(self).nonce,
                        ..meta@
                    })
                    &&& nonces_increasing(final(self).bottomup_msg_meta@, final(self).nonce)
                    &&& *final(self) == (State {
                        nonce: final(self).nonce,
                        bottomup_msg_meta: final(self).bottomup_msg_meta,
                        ..*old(self)
                    })
                },
                Err(e) => e == ActorError::NonceOverflow && old(self).nonce == u64::MAX && *final(self) == *old(self),
            },
    {
        if self.nonce == u64::MAX {
            return Err(ActorError::NonceOverflow);
        }
        let mut kept = meta.clone();
        kept.nonce = self.nonce;
        self.bottomup_msg_meta.push(kept);
        self.nonce = self.nonce + 1;
        proof {
            let after = self.bottomup_msg_meta@;
            let before = old(self).bottomup_msg_meta@;
            assert(after.drop_last() =~= before);
            assert forall|i: int, j: int| 0 <= i < j < after.len() implies (
            #[trigger] after[i]).nonce < (#[trigger] after[j]).nonce by {
                assert(after[i] == before[i]);
                if j < before.len() {
                    assert(after[j] == before[j]);
                }
            }
            assert forall|i: int| 0 <= i < after.len() implies (#[trigger] after[i]).nonce
                < self.nonce by {
                if i < before.len() {
                    assert(after[i] == before[i]);
                }
            }
        }
        Ok(())
    }
}

} // verus!
