//! The content behind a message meta: the messages themselves, and the metas
//! of children that travel on with them.

use crate::checkpoint::{CrossMsgMeta, CrossMsgMetaView};
use crate::encoding::{cbor_array_head, cbor_link, push_array_head, Encode};
use crate::hash::{blake2b256_cid, Cid};
use crate::tcid::{
    amt_holds, amt_root, indices_fit, item_map, keeps_trees, lemma_keeps_trees_chain, new_store,
    no_items, Blake2b256, StoreError, TAmt, TCid, AMT_BIT_WIDTH,
};
use crate::types::StorableMsg;
use crate::views::{lemma_views_push, views};
use fvm_ipld_blockstore::MemoryBlockstore;
use vstd::prelude::*;

verus! {

/// Messages and metas that one subnet sends to another in one window.
#[derive(Debug)]
pub struct CrossMsgs {
    pub msgs: Vec<StorableMsg>,
    pub metas: Vec<CrossMsgMeta>,
}

/// The handles to the two arrays in which a store keeps a content: its
/// messages and its metas.
#[derive(Debug)]
pub struct MetaTag {
    pub msgs_cid: TCid<TAmt<StorableMsg, AMT_BIT_WIDTH>, Blake2b256>,
    pub meta_cid: TCid<TAmt<CrossMsgMeta, AMT_BIT_WIDTH>, Blake2b256>,
}

impl MetaTag {
    /// The handles to two arrays without entries, which are put into the
    /// store.
    pub fn new(store: &mut MemoryBlockstore) -> (r: Result<MetaTag, StoreError>)
        ensures
            r is Ok,
            amt_holds(*final(store), r->Ok_0.msgs_cid@, AMT_BIT_WIDTH, no_items()),
            amt_holds(*final(store), r->Ok_0.meta_cid@, AMT_BIT_WIDTH, no_items()),
            keeps_trees(*old(store), *final(store)),
    {
        let msgs_cid = match TCid::new_amt(store) {
            Ok(h) => h,
            Err(e) => {
                return Err(e);
            },
        };
        let ghost mid = *store;
        let meta_cid = match TCid::new_amt(store) {
            Ok(h) => h,
            Err(e) => {
                return Err(e);
            },
        };
        proof {
            lemma_keeps_trees_chain(*old(store), mid, *store);
        }
        Ok(MetaTag { msgs_cid, meta_cid })
    }

    /// The canonical byte form: the link to the messages, then the link to
    /// the metas.
    pub open spec fn encoding(&self) -> Seq<u8> {
        tag_encoding(self.msgs_cid@, self.meta_cid@)
    }

    /// The canonical byte form.
    pub fn to_bytes(&self) -> (r: Vec<u8>)
        ensures
            r@ == self.encoding(),
    {
        let mut out: Vec<u8> = Vec::new();
        push_array_head(&mut out, 2);
        self.msgs_cid.encode(&mut out);
        self.meta_cid.encode(&mut out);
        assert(out@ =~= self.encoding());
        out
    }
}

/// The byte form of the record of a content: the links to the root of its
/// messages and to the root of its metas.
pub open spec fn tag_encoding(msgs_root: Seq<u8>, metas_root: Seq<u8>) -> Seq<u8> {
    cbor_array_head(2) + cbor_link(msgs_root) + cbor_link(metas_root)
}

/// The first `n` values of a list as an array: the byte form of each at its
/// place.
pub open spec fn array_of<T: Encode>(list: Seq<T>, n: int) -> Map<u64, Seq<u8>>
    decreases n,
{
    if n <= 0 {
        Map::empty()
    } else {
        array_of(list, n - 1).insert((n - 1) as u64, list[n - 1].encoding())
    }
}

/// Whether `items` holds the byte forms of the values of a list, each under
/// its place.
pub open spec fn items_of<T: Encode>(items: Seq<(u64, Vec<u8>)>, list: Seq<T>) -> bool {
    &&& items.len() == list.len()
    &&& forall|i: int|
        0 <= i < items.len() ==> (#[trigger] items[i]).0 == i && items[i].1@
            == list[i].encoding()
}

/// The items of a list spell the array of the list.
pub proof fn lemma_array_of<T: Encode>(items: Seq<(u64, Vec<u8>)>, list: Seq<T>, n: int)
    requires
        items_of(items, list),
        0 <= n <= items.len(),
    ensures
        item_map(items.take(n)) == array_of(list, n),
    decreases n,
{
    if n > 0 {
        lemma_array_of(items, list, n - 1);
        assert(items.take(n).drop_last() =~= items.take(n - 1));
        assert(items.take(n).last() == items[n - 1]);
    }
}

/// The byte forms of the values of a list, each under its place. Every place
/// is an index that an array has.
pub fn items_from<T: Encode>(list: &Vec<T>) -> (r: Vec<(u64, Vec<u8>)>)
    ensures
        items_of(r@, list@),
        indices_fit(r@),
{
    let mut out: Vec<(u64, Vec<u8>)> = Vec::new();
    let mut i: usize = 0;
    while i < list.len()
        invariant
            0 <= i <= list.len(),
            out@.len() == i,
            forall|j: int|
                0 <= j < i ==> (#[trigger] out@[j]).0 == j && out@[j].1@ == list@[j].encoding(),
        decreases list.len() - i,
    {
        let mut bytes: Vec<u8> = Vec::new();
        list[i].encode(&mut bytes);
        assert(bytes@ =~= list@[i as int].encoding());
        out.push((i as u64, bytes));
        i += 1;
    }
    out
}

/// The metas `acc` after each meta of `more` that is not among them yet has
/// been added, in order.
pub open spec fn merge_metas(acc: Seq<CrossMsgMetaView>, more: Seq<CrossMsgMetaView>) -> Seq<
    CrossMsgMetaView,
>
    decreases more.len(),
{
    if more.len() == 0 {
        acc
    } else {
        let merged = merge_metas(acc, more.drop_last());
        if merged.contains(more.last()) {
            merged
        } else {
            merged.push(more.last())
        }
    }
}

fn contains_meta(metas: &Vec<CrossMsgMeta>, m: &CrossMsgMeta) -> (r: bool)
    ensures
        r == views(metas@).contains(m@),
{
    let mut i: usize = 0;
    while i < metas.len()
        invariant
            0 <= i <= metas.len(),
            forall|j: int| 0 <= j < i ==> views(metas@)[j] != m@,
        decreases metas.len() - i,
    {
        if metas[i].same(m) {
            assert(views(metas@)[i as int] == m@);
            return true;
        }
        i += 1;
    }
    false
}

impl CrossMsgs {
    /// The identifier of this content as a mathematical value: that of the
    /// record of the root of the array of its messages and of the root of
    /// the array of its metas.
    pub closed spec fn spec_cid(&self) -> Seq<u8> {
        blake2b256_cid(
            tag_encoding(
                amt_root(array_of(self.msgs@, self.msgs@.len() as int), AMT_BIT_WIDTH),
                amt_root(array_of(self.metas@, self.metas@.len() as int), AMT_BIT_WIDTH),
            ),
        )
    }

    /// No messages and no metas.
    pub fn new() -> (r: CrossMsgs)
        ensures
            r.msgs@ == Seq::<StorableMsg>::empty(),
            r.metas@ == Seq::<CrossMsgMeta>::empty(),
    {
        CrossMsgs { msgs: Vec::new(), metas: Vec::new() }
    }

    /// The identifier of this content: the messages and the metas go into
    /// two arrays in a store of their own, and the identifier is that of the
    /// record of the two roots.
    pub fn cid(&self) -> (r: Cid)
        ensures
            r@ == self.spec_cid(),
    {
        let mut store = new_store();
        let made = MetaTag::new(&mut store);
        let mut tag = match made {
            Ok(t) => t,
            Err(_) => {
                return Cid::undefined();
            },
        };
        let msgs = items_from(&self.msgs);
        let metas = items_from(&self.metas);
        proof {
            lemma_array_of(msgs@, self.msgs@, msgs@.len() as int);
            lemma_array_of(metas@, self.metas@, metas@.len() as int);
            assert(msgs@.take(msgs@.len() as int) =~= msgs@);
            assert(metas@.take(metas@.len() as int) =~= metas@);
        }
        let first = tag.msgs_cid.flush(&mut store, &msgs);
        let second = tag.meta_cid.flush(&mut store, &metas);
        assert(first is Ok && second is Ok);
        let record = tag.to_bytes();
        Cid::of(&record)
    }

    /// Adds each of `metas` that is not there yet, in order.
    pub fn add_metas(&mut self, metas: &Vec<CrossMsgMeta>)
        ensures
            views(final(self).metas@) == merge_metas(views(old(self).metas@), views(metas@)),
            final(self).msgs == old(self).msgs,
    {
        let mut i: usize = 0;
        assert(views(metas@).take(0) =~= Seq::<CrossMsgMetaView>::empty());
        while i < metas.len()
            invariant
                0 <= i <= metas.len(),
                self.msgs == old(self).msgs,
                views(self.metas@) == merge_metas(
                    views(old(self).metas@),
                    views(metas@).take(i as int),
                ),
            decreases metas.len() - i,
        {
            proof {
                let t = views(metas@).take(i as int + 1);
                assert(t.drop_last() =~= views(metas@).take(i as int));
                assert(t.last() == metas@[i as int]@);
            }
            if !contains_meta(&self.metas, &metas[i]) {
                let m = metas[i].clone();
                proof {
                    lemma_views_push(self.metas@, m);
                }
                self.metas.push(m);
            }
            i += 1;
        }
        assert(views(metas@).take(metas.len() as int) =~= views(metas@));
    }

    /// Adds a message behind those that are there. A message that is there
    /// already is added again.
    pub fn add_msg(&mut self, msg: &StorableMsg)
        ensures
            views(final(self).msgs@) == views(old(self).msgs@).push(msg@),
            final(self).metas == old(self).metas,
    {
        let m = msg.clone();
        proof {
            lemma_views_push(self.msgs@, m);
        }
        self.msgs.push(m);
    }
}

impl Default for CrossMsgs {
    fn default() -> (r: CrossMsgs)
        ensures
            r.msgs@ == Seq::<StorableMsg>::empty(),
            r.metas@ == Seq::<CrossMsgMeta>::empty(),
    {
        CrossMsgs::new()
    }
}

} // verus!
