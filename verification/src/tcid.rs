//! Typed handles to content in a block store.
//!
//! A handle holds the identifier of a block and, in its type, what the block
//! is: a single value, the root of a map, or the root of an array. Blocks are
//! byte strings; the store is `fvm_ipld_blockstore::MemoryBlockstore`, seen
//! through [`blocks`], the map from identifiers to bytes that it holds, and
//! through [`hamt_entries`] and [`amt_entries`], the map or array that the
//! blocks under a root spell.
//!
//! The maps are total: every function may be called on every handle, and
//! says when it fails. The arrays are not: `fvm_ipld_amt` panics on roots
//! that it has not written, so that a function that reads an array asks
//! for a handle that refers to one in the store. `new_amt`, `set` and
//! `flush` make such handles, and a store keeps what it holds.

use crate::encoding::{cbor_bytes, cbor_link, push_bytes, push_link, Encode};
use crate::hash::{blake2b256_cid, Cid};
use fvm_ipld_blockstore::{Block, Blockstore, MemoryBlockstore};
use std::marker::PhantomData;
use vstd::prelude::*;

verus! {

/// `fvm_ipld_blockstore::MemoryBlockstore`, carried as an opaque value:
/// [`blocks`] names what it holds.
#[verifier::external_type_specification]
#[verifier::external_body]
pub struct ExMemoryBlockstore(MemoryBlockstore);

/// The blocks that a store holds, each under the binary form of its
/// identifier.
pub uninterp spec fn blocks(store: MemoryBlockstore) -> Map<Seq<u8>, Seq<u8>>;

/// What `Blockstore::get` finds in a store that holds `held`, asked for the
/// identifier that `cid` is a byte form of.
pub uninterp spec fn fetched(held: Map<Seq<u8>, Seq<u8>>, cid: Seq<u8>) -> Option<Seq<u8>>;

/// What a store without blocks holds.
pub open spec fn no_blocks() -> Map<Seq<u8>, Seq<u8>> {
    Map::empty()
}

/// The block that `Hamt::flush` writes for a map without entries, whatever
/// its branching: a list of the bitfield, which has no bytes, and of the
/// pointers, of which there are none.
pub open spec fn empty_hamt_block(bit_width: u32) -> Seq<u8> {
    seq![0x82u8, 0x40u8, 0x80u8]
}

/// The number of bytes of the bitmap of a node of an array: a bit for each of
/// the node's places, in whole bytes.
pub open spec fn bitmap_len(bit_width: u32) -> nat {
    if bit_width <= 3 {
        1
    } else if bit_width == 4 {
        2
    } else if bit_width == 5 {
        4
    } else if bit_width == 6 {
        8
    } else if bit_width == 7 {
        16
    } else {
        32
    }
}

/// The block that `Amt::flush` writes for an array without entries: a list
/// of the branching, the height 0, the count 0, and a node, which is a list of
/// a bitmap that is all zero, of no links and of no values.
pub open spec fn empty_amt_block(bit_width: u32) -> Seq<u8> {
    seq![0x84u8, bit_width as u8, 0x00u8, 0x00u8, 0x83u8] + cbor_bytes(
        Seq::new(bitmap_len(bit_width), |i: int| 0u8),
    ) + seq![0x80u8, 0x80u8]
}

/// The map that the blocks under `root` spell in a store, where they are a
/// tree as `Hamt::flush` writes one of byte strings with this branching:
/// every node is held and can be read, and every key stands once, in the
/// bucket that its hash leads to. `None` of every other store and root.
pub uninterp spec fn hamt_entries(store: MemoryBlockstore, root: Seq<u8>, bit_width: u32) -> Option<
    Map<Seq<u8>, Seq<u8>>,
>;

/// The array that the blocks under `root` spell in a store, where they are a
/// tree as `Amt::flush` writes one of byte strings with this branching:
/// every node is held and can be read, and is a node of links or of values
/// as its height asks. `None` of every other store and root.
pub uninterp spec fn amt_entries(store: MemoryBlockstore, root: Seq<u8>, bit_width: u32) -> Option<
    Map<u64, Seq<u8>>,
>;

/// The root of the tree that `Hamt::flush` writes for a map: the tree has
/// one form for each map, in whatever order the entries came.
pub uninterp spec fn hamt_root(entries: Map<Seq<u8>, Seq<u8>>, bit_width: u32) -> Seq<u8>;

/// The root of the tree that `Amt::flush` writes for an array: the tree has
/// one form for each array, in whatever order the items came.
pub uninterp spec fn amt_root(items: Map<u64, Seq<u8>>, bit_width: u32) -> Seq<u8>;

/// Whether `Hamt::set` puts `key` into a map with these entries, where the
/// map has entries and not that key: it does so unless the hashes of the key
/// and of a full bucket of other keys agree in every bit.
pub uninterp spec fn hamt_takes(entries: Map<Seq<u8>, Seq<u8>>, key: Seq<u8>, bit_width: u32) -> bool;

/// Whether a map with these entries takes `key`: a map without entries takes
/// every key, a map takes a key that it has, and any other as `hamt_takes`
/// says.
pub open spec fn map_takes(entries: Map<Seq<u8>, Seq<u8>>, key: Seq<u8>, bit_width: u32) -> bool {
    entries == no_entries() || entries.contains_key(key) || hamt_takes(entries, key, bit_width)
}

/// Whether a map or an array can have the branching `w`, in bits.
pub open spec fn width_ok(w: u32) -> bool {
    1 <= w <= 8
}

/// Whether every map and every array that could be read in the store
/// `before` reads the same in the store `after`. A store keeps what it
/// holds: a block that is put stands under the hash of its bytes, where no
/// other block stands.
pub open spec fn keeps_trees(before: MemoryBlockstore, after: MemoryBlockstore) -> bool {
    &&& forall|root: Seq<u8>, w: u32| #[trigger]
        hamt_entries(before, root, w) is Some ==> hamt_entries(after, root, w) == hamt_entries(
            before,
            root,
            w,
        )
    &&& forall|root: Seq<u8>, w: u32| #[trigger]
        amt_entries(before, root, w) is Some ==> amt_entries(after, root, w) == amt_entries(
            before,
            root,
            w,
        )
}

/// A map without entries.
pub open spec fn no_entries() -> Map<Seq<u8>, Seq<u8>> {
    Map::empty()
}

/// An array without entries.
pub open spec fn no_items() -> Map<u64, Seq<u8>> {
    Map::empty()
}

/// The map that a list of pairs of key and value spells: a later pair
/// replaces an earlier one with the same key.
pub open spec fn entry_map(entries: Seq<(Vec<u8>, Vec<u8>)>) -> Map<Seq<u8>, Seq<u8>>
    decreases entries.len(),
{
    if entries.len() == 0 {
        Map::empty()
    } else {
        entry_map(entries.drop_last()).insert(entries.last().0@, entries.last().1@)
    }
}

/// The array that a list of pairs of index and value spells: a later pair
/// replaces an earlier one with the same index.
pub open spec fn item_map(items: Seq<(u64, Vec<u8>)>) -> Map<u64, Seq<u8>>
    decreases items.len(),
{
    if items.len() == 0 {
        Map::empty()
    } else {
        item_map(items.drop_last()).insert(items.last().0, items.last().1@)
    }
}

/// Whether no key occurs twice in a list of pairs of key and value.
pub open spec fn keys_distinct(entries: Seq<(Vec<u8>, Vec<u8>)>) -> bool {
    forall|i: int, j: int|
        0 <= i < j < entries.len() ==> (#[trigger] entries[i]).0@ != (#[trigger] entries[j]).0@
}

/// Whether no index occurs twice in a list of pairs of index and value.
pub open spec fn indices_distinct(items: Seq<(u64, Vec<u8>)>) -> bool {
    forall|i: int, j: int|
        0 <= i < j < items.len() ==> (#[trigger] items[i]).0 != (#[trigger] items[j]).0
}

/// Whether the value that was found under a key or at an index is the one
/// that the map or array has there, and none was found where it has none.
pub open spec fn found_in<K>(found: Option<Vec<u8>>, m: Map<K, Seq<u8>>, k: K) -> bool {
    match found {
        Some(v) => m.contains_key(k) && m[k] == v@,
        None => !m.contains_key(k),
    }
}

/// `Hamt::load_with_bit_width` and `Hamt::iter`, each pair handed out as
/// bytes: of a tree as [`hamt_entries`] asks for one, the pairs are its
/// entries, each key once. Where the root or a node cannot be read, the
/// blocks are no such tree. The crate shifts by the branching, which
/// therefore has to be one that a map can have.
#[verifier::external_body]
pub(crate) fn hamt_load_all(store: &MemoryBlockstore, root: &Vec<u8>, bit_width: u32) -> (r:
    Option<Vec<(Vec<u8>, Vec<u8>)>>)
    requires
        width_ok(bit_width),
    ensures
        match r {
            Some(v) => hamt_entries(*store, root@, bit_width) is Some ==> hamt_entries(
                *store,
                root@,
                bit_width,
            ) == Some(entry_map(v@)) && keys_distinct(v@),
            None => hamt_entries(*store, root@, bit_width) is None,
        },
{
    let c = cid::Cid::try_from(root.as_slice()).ok()?;
    let map: fvm_ipld_hamt::Hamt<&MemoryBlockstore, fvm_ipld_encoding::RawBytes> =
        fvm_ipld_hamt::Hamt::load_with_bit_width(&c, store, bit_width).ok()?;
    map.iter().map(|e| e.map(|(k, v)| (k.0.clone(), v.bytes().to_vec()))).collect::<Result<
        Vec<_>,
        _,
    >>().ok()
}

/// `Hamt::load_with_bit_width` and `Hamt::get`: of a tree as
/// [`hamt_entries`] asks for one, the lookup succeeds, the value that is
/// found is the one that the map has under `key`, and none is found where it
/// has none. The branching has to be one that a map can have.
#[verifier::external_body]
pub(crate) fn hamt_get(store: &MemoryBlockstore, root: &Vec<u8>, bit_width: u32, key: &Vec<u8>) -> (r:
    Option<Option<Vec<u8>>>)
    requires
        width_ok(bit_width),
    ensures
        hamt_entries(*store, root@, bit_width) is Some ==> r is Some && found_in(
            r->Some_0,
            hamt_entries(*store, root@, bit_width)->Some_0,
            key@,
        ),
{
    let c = cid::Cid::try_from(root.as_slice()).ok()?;
    let map: fvm_ipld_hamt::Hamt<&MemoryBlockstore, fvm_ipld_encoding::RawBytes> =
        fvm_ipld_hamt::Hamt::load_with_bit_width(&c, store, bit_width).ok()?;
    map.get(&fvm_ipld_hamt::BytesKey(key.clone())).ok().map(|v| v.map(|b| b.bytes().to_vec()))
}

/// Whether a root is that of a tree that spells `entries`, in a store: the
/// tree reads as `entries`, and its root is the one that the map has.
pub open spec fn hamt_holds(
    store: MemoryBlockstore,
    root: Seq<u8>,
    bit_width: u32,
    entries: Map<Seq<u8>, Seq<u8>>,
) -> bool {
    hamt_entries(store, root, bit_width) == Some(entries) && root == hamt_root(entries, bit_width)
}

/// Whether a root is that of a tree that spells `items`, in a store.
pub open spec fn amt_holds(
    store: MemoryBlockstore,
    root: Seq<u8>,
    bit_width: u32,
    items: Map<u64, Seq<u8>>,
) -> bool {
    amt_entries(store, root, bit_width) == Some(items) && root == amt_root(items, bit_width)
}

/// `Hamt::load_with_bit_width`, `Hamt::set` and `Hamt::flush`: of a tree as
/// [`hamt_entries`] asks for one, the call succeeds exactly where the map
/// takes the key, as [`map_takes`] says, and the root that is returned is that of the tree of the
/// map with `value` under `key`. What could be read in the store before can
/// be read after. The branching has to be one that a map can have.
#[verifier::external_body]
pub(crate) fn hamt_set(
    store: &mut MemoryBlockstore,
    root: &Vec<u8>,
    bit_width: u32,
    key: &Vec<u8>,
    value: &Vec<u8>,
) -> (r: Option<Vec<u8>>)
    requires
        width_ok(bit_width),
    ensures
        hamt_entries(*old(store), root@, bit_width) is Some ==> (r is Some <==> hamt_entries(
            *old(store),
            root@,
            bit_width,
        ) == Some(no_entries()) || hamt_entries(*old(store), root@, bit_width)->Some_0.contains_key(
            key@,
        ) || hamt_takes(hamt_entries(*old(store), root@, bit_width)->Some_0, key@, bit_width)),
        hamt_entries(*old(store), root@, bit_width) is Some && r is Some ==> hamt_holds(
            *final(store),
            r->Some_0@,
            bit_width,
            hamt_entries(*old(store), root@, bit_width)->Some_0.insert(key@, value@),
        ),
        keeps_trees(*old(store), *final(store)),
{
    let c = cid::Cid::try_from(root.as_slice()).ok()?;
    let mut map: fvm_ipld_hamt::Hamt<&MemoryBlockstore, fvm_ipld_encoding::RawBytes> =
        fvm_ipld_hamt::Hamt::load_with_bit_width(&c, &*store, bit_width).ok()?;
    map.set(fvm_ipld_hamt::BytesKey(key.clone()), fvm_ipld_encoding::RawBytes::new(value.clone()))
        .ok()?;
    map.flush().ok().map(|c| c.to_bytes())
}

/// `Amt::load` and `Amt::iter`, each pair handed out as bytes, on a tree as
/// [`amt_entries`] asks for one: the pairs are its items, each index once.
/// The crate reads the branching from the root; `bit_width` says which it
/// is. On blocks that are no such tree the crate may panic.
#[verifier::external_body]
pub(crate) fn amt_load_all(store: &MemoryBlockstore, root: &Vec<u8>, bit_width: u32) -> (r:
    Option<Vec<(u64, Vec<u8>)>>)
    requires
        amt_entries(*store, root@, bit_width) is Some,
    ensures
        r is Some,
        amt_entries(*store, root@, bit_width) == Some(item_map(r->Some_0@)),
        indices_distinct(r->Some_0@),
{
    let c = cid::Cid::try_from(root.as_slice()).ok()?;
    let array: fvm_ipld_amt::Amt<fvm_ipld_encoding::RawBytes, &MemoryBlockstore> =
        fvm_ipld_amt::Amt::load(&c, store).ok()?;
    array.iter().map(|e| e.map(|(i, v)| (i, v.bytes().to_vec()))).collect::<Result<Vec<_>, _>>()
        .ok()
}

/// `Amt::load` and `Amt::get`, on a tree as [`amt_entries`] asks for one:
/// the lookup succeeds at every index but the greatest 64-bit number, which
/// the crate refuses, and the value that is found is the one that the array
/// has at `index`. On blocks that are no such tree the crate may panic.
#[verifier::external_body]
pub(crate) fn amt_get(store: &MemoryBlockstore, root: &Vec<u8>, bit_width: u32, index: u64) -> (r:
    Option<Option<Vec<u8>>>)
    requires
        amt_entries(*store, root@, bit_width) is Some,
    ensures
        r is Some <==> index < u64::MAX,
        r is Some ==> found_in(r->Some_0, amt_entries(*store, root@, bit_width)->Some_0, index),
{
    let c = cid::Cid::try_from(root.as_slice()).ok()?;
    let array: fvm_ipld_amt::Amt<fvm_ipld_encoding::RawBytes, &MemoryBlockstore> =
        fvm_ipld_amt::Amt::load(&c, store).ok()?;
    array.get(index).ok().map(|v| v.map(|b| b.bytes().to_vec()))
}

/// `Amt::load`, `Amt::set` and `Amt::flush`, on a tree as [`amt_entries`]
/// asks for one: the call succeeds at every index but the greatest 64-bit
/// number, which the crate refuses, and the root that is returned is that of
/// the tree of the array with `value` at `index`. What could be read in the
/// store before can be read after. On blocks that are no such tree the crate
/// may panic.
#[verifier::external_body]
pub(crate) fn amt_set(
    store: &mut MemoryBlockstore,
    root: &Vec<u8>,
    bit_width: u32,
    index: u64,
    value: &Vec<u8>,
) -> (r: Option<Vec<u8>>)
    requires
        amt_entries(*old(store), root@, bit_width) is Some,
    ensures
        r is Some <==> index < u64::MAX,
        r is Some ==> amt_holds(
            *final(store),
            r->Some_0@,
            bit_width,
            amt_entries(*old(store), root@, bit_width)->Some_0.insert(index, value@),
        ),
        keeps_trees(*old(store), *final(store)),
{
    let c = cid::Cid::try_from(root.as_slice()).ok()?;
    let mut array: fvm_ipld_amt::Amt<fvm_ipld_encoding::RawBytes, &MemoryBlockstore> =
        fvm_ipld_amt::Amt::load(&c, &*store).ok()?;
    array.set(index, fvm_ipld_encoding::RawBytes::new(value.clone())).ok()?;
    array.flush().ok().map(|c| c.to_bytes())
}

/// `MemoryBlockstore::new` makes a store without blocks.
#[verifier::external_body]
pub(crate) fn store_new() -> (r: MemoryBlockstore)
    ensures
        blocks(r) == no_blocks(),
{
    MemoryBlockstore::new()
}

/// `Blockstore::put` with `Code::Blake2b256` on a DAG-CBOR block: the store
/// holds the block under its identifier, which is returned, and keeps every
/// other block, so that what could be read before can be read after. The put
/// of a memory store does not fail: its `put_keyed` inserts the block and
/// returns `Ok`.
#[verifier::external_body]
pub(crate) fn store_put(store: &mut MemoryBlockstore, data: &Vec<u8>) -> (r: Option<Vec<u8>>)
    ensures
        r is Some,
        r->Some_0@ == blake2b256_cid(data@),
        blocks(*final(store)) == blocks(*old(store)).insert(r->Some_0@, data@),
        keeps_trees(*old(store), *final(store)),
{
    let block = Block::new(fvm_ipld_encoding::DAG_CBOR, data.as_slice());
    match store.put(multihash_codetable::Code::Blake2b256, &block) {
        Ok(cid) => Some(cid.to_bytes()),
        Err(_) => None,
    }
}

/// Whether `block` is one of the blocks `held`.
pub open spec fn is_held(held: Map<Seq<u8>, Seq<u8>>, block: Seq<u8>) -> bool {
    exists|k: Seq<u8>| #[trigger] held.contains_key(k) && held[k] == block
}

/// `Blockstore::get` with the identifier that `cid` is a byte form of: what
/// is found depends on what the store holds and on `cid` alone; it is one of
/// the blocks that the store holds, and a block that the store holds under
/// `cid` is found.
#[verifier::external_body]
pub(crate) fn store_get(store: &MemoryBlockstore, cid: &Vec<u8>) -> (r: Option<Vec<u8>>)
    ensures
        match r {
            Some(block) => fetched(blocks(*store), cid@) == Some(block@) && is_held(
                blocks(*store),
                block@,
            ),
            None => fetched(blocks(*store), cid@) is None,
        },
        blocks(*store).contains_key(cid@) ==> r is Some && r->Some_0@ == blocks(*store)[cid@],
{
    match cid::Cid::try_from(cid.as_slice()) {
        Ok(key) => store.get(&key).ok().flatten(),
        Err(_) => None,
    }
}

/// `Hamt::new_with_bit_width` and `Hamt::flush` on a map without entries,
/// with a branching that a map can have: the flush into a memory store
/// succeeds, the store holds the root block under its identifier, which is
/// returned, and the root is that of the tree of the map without entries.
/// What could be read in the store before can be read after.
#[verifier::external_body]
pub(crate) fn hamt_flush_empty(store: &mut MemoryBlockstore, bit_width: u32) -> (r: Option<
    Vec<u8>,
>)
    requires
        width_ok(bit_width),
    ensures
        r is Some,
        r->Some_0@ == blake2b256_cid(empty_hamt_block(bit_width)),
        blocks(*final(store)) == blocks(*old(store)).insert(
            r->Some_0@,
            empty_hamt_block(bit_width),
        ),
        r->Some_0@ == hamt_root(no_entries(), bit_width),
        hamt_entries(*final(store), r->Some_0@, bit_width) == Some(no_entries()),
        keeps_trees(*old(store), *final(store)),
{
    let mut map: fvm_ipld_hamt::Hamt<&MemoryBlockstore, ()> =
        fvm_ipld_hamt::Hamt::new_with_bit_width(&*store, bit_width);
    match map.flush() {
        Ok(cid) => Some(cid.to_bytes()),
        Err(_) => None,
    }
}

/// `Amt::new_with_bit_width` and `Amt::flush` on an array without entries,
/// with a branching that an array can have: the flush into a memory store
/// succeeds, the store holds the root block under its identifier, which is
/// returned, and the root is that of the tree of the array without entries.
/// What could be read in the store before can be read after.
#[verifier::external_body]
pub(crate) fn amt_flush_empty(store: &mut MemoryBlockstore, bit_width: u32) -> (r: Option<
    Vec<u8>,
>)
    requires
        width_ok(bit_width),
    ensures
        r is Some,
        r->Some_0@ == blake2b256_cid(empty_amt_block(bit_width)),
        blocks(*final(store)) == blocks(*old(store)).insert(
            r->Some_0@,
            empty_amt_block(bit_width),
        ),
        r->Some_0@ == amt_root(no_items(), bit_width),
        amt_entries(*final(store), r->Some_0@, bit_width) == Some(no_items()),
        keeps_trees(*old(store), *final(store)),
{
    let mut array: fvm_ipld_amt::Amt<(), &MemoryBlockstore> =
        fvm_ipld_amt::Amt::new_with_bit_width(&*store, bit_width);
    match array.flush() {
        Ok(cid) => Some(cid.to_bytes()),
        Err(_) => None,
    }
}

/// The branching of the maps of the coordinator, in bits.
pub const HAMT_BIT_WIDTH: u32 = 5;

/// The branching of the arrays of the coordinator, in bits.
pub const AMT_BIT_WIDTH: u32 = 3;

/// The multihash code of BLAKE2b-256.
pub const BLAKE2B_256: u64 = 0xb220;

/// A hash function, for use as a type parameter.
pub trait CodeType {
    /// The multihash code of the function, as a mathematical value.
    spec fn multihash_code() -> u64;

    /// The multihash code of the function.
    fn code() -> (r: u64)
        ensures
            r == Self::multihash_code(),
    ;
}

/// BLAKE2b-256.
#[derive(Debug, Clone, Copy, PartialEq, Eq)]
pub struct Blake2b256;

impl CodeType for Blake2b256 {
    open spec fn multihash_code() -> u64 {
        BLAKE2B_256
    }

    fn code() -> (r: u64) {
        BLAKE2B_256
    }
}

/// The shape of a block that holds a single value.
#[derive(Debug)]
pub struct TLink<T> {
    _phantom_t: PhantomData<T>,
}

/// The shape of a block that is the root of a map from `K` to `V` with the
/// branching `W`.
#[derive(Debug)]
pub struct THamt<K, V, const W: u32> {
    _phantom_k: PhantomData<K>,
    _phantom_v: PhantomData<V>,
}

/// The shape of a block that is the root of an array of `V` with the
/// branching `W`.
#[derive(Debug)]
pub struct TAmt<V, const W: u32> {
    _phantom_v: PhantomData<V>,
}

/// A handle to a block of the shape `T`, hashed with `C`.
#[derive(Debug)]
pub struct TCid<T, C> {
    cid: Cid,
    _phantom_t: PhantomData<T>,
    _phantom_c: PhantomData<C>,
}

/// Why a store operation failed.
#[derive(Debug, Clone, Copy, PartialEq, Eq, Structural)]
pub enum StoreError {
    /// The store holds no block under the identifier.
    NotFound,
    /// The store could not take the block. A store in memory takes every
    /// block, so that no function of this module gives this reason.
    PutFailed,
    /// The change to the value failed.
    ChangeFailed,
    /// The collection could not be read, or did not take an entry.
    Unreadable,
    /// The handle's branching is none that a map or an array can have.
    BadWidth,
}

/// The root block of a map without entries.
pub fn empty_hamt_root() -> (r: Vec<u8>)
    ensures
        r@ == empty_hamt_block(0),
{
    let mut out: Vec<u8> = Vec::new();
    out.push(0x82u8);
    out.push(0x40u8);
    out.push(0x80u8);
    assert(out@ =~= empty_hamt_block(0));
    out
}

/// The root block of an array without entries with the branching
/// `bit_width`.
pub fn empty_amt_root(bit_width: u32) -> (r: Vec<u8>)
    requires
        width_ok(bit_width),
    ensures
        r@ == empty_amt_block(bit_width),
{
    let len: usize = if bit_width <= 3 {
        1
    } else if bit_width == 4 {
        2
    } else if bit_width == 5 {
        4
    } else if bit_width == 6 {
        8
    } else if bit_width == 7 {
        16
    } else {
        32
    };
    let mut bitmap: Vec<u8> = Vec::new();
    let mut i: usize = 0;
    while i < len
        invariant
            0 <= i <= len,
            bitmap@.len() == i,
            forall|j: int| 0 <= j < i ==> bitmap@[j] == 0u8,
        decreases len - i,
    {
        bitmap.push(0u8);
        i += 1;
    }
    assert(bitmap@ =~= Seq::new(bitmap_len(bit_width), |i: int| 0u8));
    let mut out: Vec<u8> = Vec::new();
    out.push(0x84u8);
    out.push(bit_width as u8);
    out.push(0x00u8);
    out.push(0x00u8);
    out.push(0x83u8);
    let ghost head = out@;
    push_bytes(&mut out, &bitmap);
    let ghost mid = out@;
    out.push(0x80u8);
    out.push(0x80u8);
    assert(head =~= seq![0x84u8, bit_width as u8, 0x00u8, 0x00u8, 0x83u8]);
    assert(out@ =~= mid + seq![0x80u8, 0x80u8]);
    out
}

/// Whether a map or an array can have the branching `w`.
fn is_width_ok(w: u32) -> (r: bool)
    ensures
        r == width_ok(w),
{
    1 <= w && w <= 8
}

/// The store after the block `data` has been put.
pub open spec fn flushed(held: Map<Seq<u8>, Seq<u8>>, data: Seq<u8>) -> Map<Seq<u8>, Seq<u8>> {
    held.insert(blake2b256_cid(data), data)
}

/// The block under the identifier `cid`, if the store holds one.
pub open spec fn loaded(held: Map<Seq<u8>, Seq<u8>>, cid: Seq<u8>) -> Option<Seq<u8>> {
    if held.contains_key(cid) {
        Some(held[cid])
    } else {
        None
    }
}

/// Whether `f` has changed the value behind a handle: it was given the value
/// that the store found for the handle, and what it made of it is in the
/// store, and is what the handle refers to now.
pub open spec fn changed_by<R, F: FnOnce(Vec<u8>) -> Option<(Vec<u8>, R)>>(
    f: F,
    held: Map<Seq<u8>, Seq<u8>>,
    cid: Seq<u8>,
    held_after: Map<Seq<u8>, Seq<u8>>,
    cid_after: Seq<u8>,
    out: R,
) -> bool {
    exists|before: Vec<u8>, after: Vec<u8>|
        #![trigger f.ensures((before,), Some((after, out)))]
        f.ensures((before,), Some((after, out))) && cid_after == blake2b256_cid(after@)
            && held_after == flushed(held, after@) && fetched(held, cid) == Some(before@)
}

/// Whether `f` has refused to change the value behind a handle: it was given
/// the value that the store found for the handle, and made nothing of it.
pub open spec fn refused_by<R, F: FnOnce(Vec<u8>) -> Option<(Vec<u8>, R)>>(
    f: F,
    held: Map<Seq<u8>, Seq<u8>>,
    cid: Seq<u8>,
) -> bool {
    exists|before: Vec<u8>|
        #![trigger f.ensures((before,), None)]
        f.ensures((before,), None) && fetched(held, cid) == Some(before@)
}

/// What becomes of what was read from a store: what could not be read stays
/// the failure that it was, and to what was read `f` is applied. A change
/// that `f` refuses is a failure too.
pub fn apply_change<T, R, F: FnOnce(T) -> Option<(T, R)>>(read: Result<T, StoreError>, f: F) -> (r:
    Result<(T, R), StoreError>)
    requires
        read is Ok ==> f.requires((read->Ok_0,)),
    ensures
        match read {
            Ok(value) => match r {
                Ok((after, out)) => f.ensures((value,), Some((after, out))),
                Err(e) => e == StoreError::ChangeFailed && f.ensures((value,), None),
            },
            Err(e) => r is Err && r->Err_0 == e,
        },
{
    match read {
        Ok(value) => match f(value) {
            Some(changed) => Ok(changed),
            None => Err(StoreError::ChangeFailed),
        },
        Err(e) => Err(e),
    }
}

impl<T, C> View for TCid<T, C> {
    type V = Seq<u8>;

    closed spec fn view(&self) -> Seq<u8> {
        self.cid@
    }
}

impl<T, C> TCid<T, C> {
    /// The identifier that the handle holds.
    pub fn cid(&self) -> (r: Cid)
        ensures
            r@ == self@,
    {
        self.cid.clone()
    }

    /// The handle that holds `cid`.
    pub fn from(cid: Cid) -> (r: TCid<T, C>)
        ensures
            r@ == cid@,
    {
        TCid { cid, _phantom_t: PhantomData, _phantom_c: PhantomData }
    }
}

/// A handle is written as the identifier that it holds: nothing of its type
/// is in its byte form.
impl<T, C> Encode for TCid<T, C> {
    open spec fn encoding(&self) -> Seq<u8> {
        cbor_link(self@)
    }

    fn encode(&self, out: &mut Vec<u8>) {
        let bytes = self.cid.to_bytes();
        push_link(out, &bytes);
    }
}

impl<T, C: CodeType> TCid<TLink<T>, C> {
    /// Puts `value` into the store, and returns the handle to it. A store in
    /// memory takes every value.
    pub fn new_link(store: &mut MemoryBlockstore, value: &Vec<u8>) -> (r: Result<
        TCid<TLink<T>, C>,
        StoreError,
    >)
        ensures
            r is Ok,
            r->Ok_0@ == blake2b256_cid(value@),
            blocks(*final(store)) == flushed(blocks(*old(store)), value@),
            keeps_trees(*old(store), *final(store)),
    {
        match store_put(store, value) {
            Some(cid) => Ok(
                TCid { cid: Cid::from_bytes(cid), _phantom_t: PhantomData, _phantom_c: PhantomData },
            ),
            None => Err(StoreError::PutFailed),
        }
    }

    /// Puts `value` into the store, and returns the handle to it. A store in
    /// memory takes every value.
    pub fn new_cbor(store: &mut MemoryBlockstore, value: &Vec<u8>) -> (r: Result<
        TCid<TLink<T>, C>,
        StoreError,
    >)
        ensures
            r is Ok,
            r->Ok_0@ == blake2b256_cid(value@),
            blocks(*final(store)) == flushed(blocks(*old(store)), value@),
            keeps_trees(*old(store), *final(store)),
    {
        Self::new_link(store, value)
    }

    /// The value that the handle refers to: what the store finds for the
    /// handle's identifier. A block that the store holds under the identifier
    /// is found.
    pub fn get(&self, store: &MemoryBlockstore) -> (r: Result<Vec<u8>, StoreError>)
        ensures
            match r {
                Ok(value) => fetched(blocks(*store), self@) == Some(value@) && is_held(
                    blocks(*store),
                    value@,
                ),
                Err(e) => e == StoreError::NotFound && fetched(blocks(*store), self@) is None,
            },
            loaded(blocks(*store), self@) is Some ==> r is Ok && Some(r->Ok_0@) == loaded(
                blocks(*store),
                self@,
            ),
    {
        let key = self.cid.to_bytes();
        match store_get(store, &key) {
            Some(v) => Ok(v),
            None => Err(StoreError::NotFound),
        }
    }

    /// Puts `value` into the store, and makes the handle refer to it. A
    /// store in memory takes every value.
    pub fn put(&mut self, store: &mut MemoryBlockstore, value: &Vec<u8>) -> (r: Result<
        (),
        StoreError,
    >)
        ensures
            r is Ok,
            final(self)@ == blake2b256_cid(value@),
            blocks(*final(store)) == flushed(blocks(*old(store)), value@),
            keeps_trees(*old(store), *final(store)),
    {
        match store_put(store, value) {
            Some(cid) => {
                self.cid = Cid::from_bytes(cid);
                Ok(())
            },
            None => Err(StoreError::PutFailed),
        }
    }

    /// Gets the value, applies `f` to it, puts the changed value back, and
    /// returns what `f` returned beside it. The call fails where the store
    /// finds no value for the handle, and where `f` refuses the value that
    /// was found, and only there; the handle and the store then stay as they
    /// are. A block that the store holds under the handle's identifier is the
    /// value that is found.
    pub fn modify<R, F: FnOnce(Vec<u8>) -> Option<(Vec<u8>, R)>>(
        &mut self,
        store: &mut MemoryBlockstore,
        f: F,
    ) -> (r: Result<R, StoreError>)
        requires
            forall|v: Vec<u8>| f.requires((v,)),
        ensures
            match r {
                Ok(out) => changed_by(
                    f,
                    blocks(*old(store)),
                    old(self)@,
                    blocks(*final(store)),
                    final(self)@,
                    out,
                ),
                Err(e) => final(self)@ == old(self)@ && blocks(*final(store)) == blocks(
                    *old(store),
                ) && if fetched(blocks(*old(store)), old(self)@) is None {
                    e == StoreError::NotFound
                } else {
                    e == StoreError::ChangeFailed && refused_by(
                        f,
                        blocks(*old(store)),
                        old(self)@,
                    )
                },
            },
            loaded(blocks(*old(store)), old(self)@) is Some ==> fetched(
                blocks(*old(store)),
                old(self)@,
            ) == loaded(blocks(*old(store)), old(self)@),
            keeps_trees(*old(store), *final(store)),
    {
        let found = self.get(store);
        let ghost before = found;
        match apply_change(found, f) {
            Ok((changed, out)) => {
                let put = self.put(store, &changed);
                assert(put is Ok);
                assert(f.ensures((before->Ok_0,), Some((changed, out))));
                Ok(out)
            },
            Err(e) => {
                assert(before is Ok ==> f.ensures((before->Ok_0,), None));
                Err(e)
            },
        }
    }

    /// Gets the value, applies `f` to it, and puts the changed value back.
    /// The call fails where the store finds no value for the handle, and
    /// where `f` refuses the value that was found, and only there; the handle
    /// and the store then stay as they are. A block that the store holds
    /// under the handle's identifier is the value that is found.
    pub fn update<F: FnOnce(Vec<u8>) -> Option<(Vec<u8>, ())>>(
        &mut self,
        store: &mut MemoryBlockstore,
        f: F,
    ) -> (r: Result<(), StoreError>)
        requires
            forall|v: Vec<u8>| f.requires((v,)),
        ensures
            match r {
                Ok(()) => changed_by(
                    f,
                    blocks(*old(store)),
                    old(self)@,
                    blocks(*final(store)),
                    final(self)@,
                    (),
                ),
                Err(e) => final(self)@ == old(self)@ && blocks(*final(store)) == blocks(
                    *old(store),
                ) && if fetched(blocks(*old(store)), old(self)@) is None {
                    e == StoreError::NotFound
                } else {
                    e == StoreError::ChangeFailed && refused_by(
                        f,
                        blocks(*old(store)),
                        old(self)@,
                    )
                },
            },
            loaded(blocks(*old(store)), old(self)@) is Some ==> fetched(
                blocks(*old(store)),
                old(self)@,
            ) == loaded(blocks(*old(store)), old(self)@),
            keeps_trees(*old(store), *final(store)),
    {
        self.modify(store, f)
    }
}

/// Whether a map takes each of the first `n` entries in turn, the map having
/// the entries before it.
pub open spec fn all_taken(entries: Seq<(Vec<u8>, Vec<u8>)>, w: u32, n: int) -> bool
    decreases n,
{
    if n <= 0 {
        true
    } else {
        all_taken(entries, w, n - 1) && map_takes(
            entry_map(entries.take(n - 1)),
            entries[n - 1].0@,
            w,
        )
    }
}

/// Whether an array takes every item: the greatest 64-bit number is no index.
pub open spec fn indices_fit(items: Seq<(u64, Vec<u8>)>) -> bool {
    forall|i: int| 0 <= i < items.len() ==> (#[trigger] items[i]).0 < u64::MAX
}

/// A map that takes its first `n` entries takes the first `k` of them.
pub proof fn lemma_all_taken_prefix(entries: Seq<(Vec<u8>, Vec<u8>)>, w: u32, k: int, n: int)
    requires
        k <= n,
        all_taken(entries, w, n),
    ensures
        all_taken(entries, w, k),
    decreases n - k,
{
    if k < n && n > 0 {
        lemma_all_taken_prefix(entries, w, k, n - 1);
    }
}

/// What can be read after a first step can be read after a second.
pub proof fn lemma_keeps_trees_chain(a: MemoryBlockstore, b: MemoryBlockstore, c: MemoryBlockstore)
    requires
        keeps_trees(a, b),
        keeps_trees(b, c),
    ensures
        keeps_trees(a, c),
{
    assert forall|root: Seq<u8>, w: u32| #[trigger] hamt_entries(a, root, w) is Some implies hamt_entries(
        c,
        root,
        w,
    ) == hamt_entries(a, root, w) by {
        assert(hamt_entries(b, root, w) == hamt_entries(a, root, w));
    }
    assert forall|root: Seq<u8>, w: u32| #[trigger] amt_entries(a, root, w) is Some implies amt_entries(
        c,
        root,
        w,
    ) == amt_entries(a, root, w) by {
        assert(amt_entries(b, root, w) == amt_entries(a, root, w));
    }
}

impl<K, V, const W: u32> TCid<THamt<K, V, W>, Blake2b256> {
    /// Puts the root of a map without entries into the store, and returns the
    /// handle to it. A branching that no map can have is refused, and nothing
    /// else.
    pub fn new_hamt(store: &mut MemoryBlockstore) -> (r: Result<
        TCid<THamt<K, V, W>, Blake2b256>,
        StoreError,
    >)
        ensures
            match r {
                Ok(h) => width_ok(W) && h@ == blake2b256_cid(empty_hamt_block(W)) && blocks(
                    *final(store),
                ) == flushed(blocks(*old(store)), empty_hamt_block(W)) && hamt_holds(
                    *final(store),
                    h@,
                    W,
                    no_entries(),
                ),
                Err(e) => !width_ok(W) && e == StoreError::BadWidth && *final(store) == *old(
                    store,
                ),
            },
            keeps_trees(*old(store), *final(store)),
    {
        if !is_width_ok(W) {
            return Err(StoreError::BadWidth);
        }
        match hamt_flush_empty(store, W) {
            Some(cid) => Ok(
                TCid { cid: Cid::from_bytes(cid), _phantom_t: PhantomData, _phantom_c: PhantomData },
            ),
            None => Err(StoreError::PutFailed),
        }
    }
}

/// Whether `f` has changed the map behind a handle: it was given the entries
/// that the map had, each key once, where the handle referred to a map; the
/// map took the entries that `f` made of them, and the handle now refers to
/// the map of those.
pub open spec fn map_changed_by<R, F: FnOnce(Vec<(Vec<u8>, Vec<u8>)>) -> Option<
    (Vec<(Vec<u8>, Vec<u8>)>, R),
>>(
    f: F,
    entries: Option<Map<Seq<u8>, Seq<u8>>>,
    store_after: MemoryBlockstore,
    root_after: Seq<u8>,
    w: u32,
    out: R,
) -> bool {
    exists|before: Vec<(Vec<u8>, Vec<u8>)>, after: Vec<(Vec<u8>, Vec<u8>)>|
        #![trigger f.ensures((before,), Some((after, out)))]
        f.ensures((before,), Some((after, out))) && (entries is Some ==> entries == Some(
            entry_map(before@),
        ) && keys_distinct(before@)) && all_taken(after@, w, after@.len() as int) && hamt_holds(
            store_after,
            root_after,
            w,
            entry_map(after@),
        )
}

/// Whether `f` has refused to change the map behind a handle: it was given
/// the entries that the map had, each key once, where the handle referred to
/// a map, and made nothing of them.
pub open spec fn map_refused_by<R, F: FnOnce(Vec<(Vec<u8>, Vec<u8>)>) -> Option<
    (Vec<(Vec<u8>, Vec<u8>)>, R),
>>(f: F, entries: Option<Map<Seq<u8>, Seq<u8>>>) -> bool {
    exists|before: Vec<(Vec<u8>, Vec<u8>)>|
        #![trigger f.ensures((before,), None)]
        f.ensures((before,), None) && (entries is Some ==> entries == Some(entry_map(before@))
            && keys_distinct(before@))
}

/// Whether `f` has made of the entries of the map behind a handle what no
/// map takes: it was given the entries that the map had, and one of those
/// that it made of them is not taken.
pub open spec fn map_overfilled_by<R, F: FnOnce(Vec<(Vec<u8>, Vec<u8>)>) -> Option<
    (Vec<(Vec<u8>, Vec<u8>)>, R),
>>(f: F, entries: Option<Map<Seq<u8>, Seq<u8>>>, w: u32) -> bool {
    exists|before: Vec<(Vec<u8>, Vec<u8>)>, after: Vec<(Vec<u8>, Vec<u8>)>, out: R|
        #![trigger f.ensures((before,), Some((after, out)))]
        f.ensures((before,), Some((after, out))) && (entries is Some ==> entries == Some(
            entry_map(before@),
        ) && keys_distinct(before@)) && !all_taken(after@, w, after@.len() as int)
}

impl<K, V, const W: u32> TCid<THamt<K, V, W>, Blake2b256> {
    /// The entries of the map that the handle refers to, each key once, in
    /// no particular order. A map that is in the store is read.
    pub fn load(&self, store: &MemoryBlockstore) -> (r: Result<
        Vec<(Vec<u8>, Vec<u8>)>,
        StoreError,
    >)
        ensures
            match r {
                Ok(v) => width_ok(W) && (hamt_entries(*store, self@, W) is Some ==> hamt_entries(
                    *store,
                    self@,
                    W,
                ) == Some(entry_map(v@)) && keys_distinct(v@)),
                Err(e) => if width_ok(W) {
                    e == StoreError::Unreadable && hamt_entries(*store, self@, W) is None
                } else {
                    e == StoreError::BadWidth
                },
            },
    {
        if !is_width_ok(W) {
            return Err(StoreError::BadWidth);
        }
        let root = self.cid.to_bytes();
        match hamt_load_all(store, &root, W) {
            Some(v) => Ok(v),
            None => Err(StoreError::Unreadable),
        }
    }

    /// The value under `key`, if the map has one. In a map that is in the
    /// store the key is looked up.
    pub fn get(&self, store: &MemoryBlockstore, key: &Vec<u8>) -> (r: Result<
        Option<Vec<u8>>,
        StoreError,
    >)
        ensures
            match r {
                Ok(found) => width_ok(W) && (hamt_entries(*store, self@, W) is Some ==> found_in(
                    found,
                    hamt_entries(*store, self@, W)->Some_0,
                    key@,
                )),
                Err(e) => if width_ok(W) {
                    e == StoreError::Unreadable && hamt_entries(*store, self@, W) is None
                } else {
                    e == StoreError::BadWidth
                },
            },
    {
        if !is_width_ok(W) {
            return Err(StoreError::BadWidth);
        }
        let root = self.cid.to_bytes();
        match hamt_get(store, &root, W, key) {
            Some(v) => Ok(v),
            None => Err(StoreError::Unreadable),
        }
    }

    /// Puts `value` under `key`, and makes the handle refer to the changed
    /// map. A map that is in the store is changed exactly where it takes the
    /// key. Where the call fails the handle stays as it is.
    pub fn set(&mut self, store: &mut MemoryBlockstore, key: &Vec<u8>, value: &Vec<u8>) -> (r:
        Result<(), StoreError>)
        ensures
            match r {
                Ok(()) => width_ok(W) && (hamt_entries(*old(store), old(self)@, W) is Some
                    ==> map_takes(hamt_entries(*old(store), old(self)@, W)->Some_0, key@, W)
                    && hamt_holds(
                    *final(store),
                    final(self)@,
                    W,
                    hamt_entries(*old(store), old(self)@, W)->Some_0.insert(key@, value@),
                )),
                Err(e) => final(self)@ == old(self)@ && if width_ok(W) {
                    e == StoreError::Unreadable && (hamt_entries(*old(store), old(self)@, W)
                        is Some ==> !map_takes(
                        hamt_entries(*old(store), old(self)@, W)->Some_0,
                        key@,
                        W,
                    ))
                } else {
                    e == StoreError::BadWidth
                },
            },
            keeps_trees(*old(store), *final(store)),
    {
        if !is_width_ok(W) {
            return Err(StoreError::BadWidth);
        }
        let root = self.cid.to_bytes();
        match hamt_set(store, &root, W, key, value) {
            Some(c) => {
                self.cid = Cid::from_bytes(c);
                Ok(())
            },
            None => Err(StoreError::Unreadable),
        }
    }

    /// Puts a map with the entries `entries` into the store, a later entry
    /// in place of an earlier one with the same key, and makes the handle
    /// refer to it. The call succeeds exactly where the branching is one
    /// that a map can have and the map takes every entry. Where it fails the
    /// handle stays as it is.
    pub fn flush(&mut self, store: &mut MemoryBlockstore, entries: &Vec<(Vec<u8>, Vec<u8>)>) -> (r:
        Result<(), StoreError>)
        ensures
            match r {
                Ok(()) => width_ok(W) && all_taken(entries@, W, entries@.len() as int)
                    && hamt_holds(*final(store), final(self)@, W, entry_map(entries@)),
                Err(e) => final(self)@ == old(self)@ && if width_ok(W) {
                    e == StoreError::Unreadable && !all_taken(entries@, W, entries@.len() as int)
                } else {
                    e == StoreError::BadWidth
                },
            },
            keeps_trees(*old(store), *final(store)),
    {
        if !is_width_ok(W) {
            return Err(StoreError::BadWidth);
        }
        let mut root = match hamt_flush_empty(store, W) {
            Some(c) => c,
            None => {
                return Err(StoreError::PutFailed);
            },
        };
        let mut i: usize = 0;
        assert(entry_map(entries@.take(0)) =~= no_entries());
        while i < entries.len()
            invariant
                0 <= i <= entries.len(),
                self@ == old(self)@,
                width_ok(W),
                keeps_trees(*old(store), *store),
                all_taken(entries@, W, i as int),
                hamt_holds(*store, root@, W, entry_map(entries@.take(i as int))),
            decreases entries.len() - i,
        {
            let ghost before = *store;
            let next = hamt_set(store, &root, W, &entries[i].0, &entries[i].1);
            proof {
                lemma_keeps_trees_chain(*old(store), before, *store);
            }
            root = match next {
                Some(c) => c,
                None => {
                    proof {
                        if all_taken(entries@, W, entries@.len() as int) {
                            lemma_all_taken_prefix(
                                entries@,
                                W,
                                i as int + 1,
                                entries@.len() as int,
                            );
                        }
                    }
                    return Err(StoreError::Unreadable);
                },
            };
            proof {
                let t = entries@.take(i as int + 1);
                assert(t.drop_last() =~= entries@.take(i as int));
                assert(t.last() == entries@[i as int]);
            }
            i += 1;
        }
        assert(entries@.take(entries.len() as int) =~= entries@);
        self.cid = Cid::from_bytes(root);
        Ok(())
    }

    /// Loads the entries of the map, applies `f` to them, flushes the map
    /// with the changed entries, and returns what `f` returned beside them.
    /// The call fails where the branching is none that a map can have, where
    /// the map cannot be read, where `f` refuses the entries that were read,
    /// and where the map does not take what `f` made of them, and only
    /// there; the handle then stays as it is, and where `f` refused, the
    /// store too.
    pub fn modify<R, F: FnOnce(Vec<(Vec<u8>, Vec<u8>)>) -> Option<(Vec<(Vec<u8>, Vec<u8>)>, R)>>(
        &mut self,
        store: &mut MemoryBlockstore,
        f: F,
    ) -> (r: Result<R, StoreError>)
        requires
            forall|v: Vec<(Vec<u8>, Vec<u8>)>| f.requires((v,)),
        ensures
            match r {
                Ok(out) => width_ok(W) && map_changed_by(
                    f,
                    hamt_entries(*old(store), old(self)@, W),
                    *final(store),
                    final(self)@,
                    W,
                    out,
                ),
                Err(e) => final(self)@ == old(self)@ && match e {
                    StoreError::BadWidth => !width_ok(W),
                    StoreError::ChangeFailed => width_ok(W) && *final(store) == *old(store)
                        && map_refused_by(f, hamt_entries(*old(store), old(self)@, W)),
                    StoreError::Unreadable => width_ok(W) && (hamt_entries(
                        *old(store),
                        old(self)@,
                        W,
                    ) is None || map_overfilled_by(
                        f,
                        hamt_entries(*old(store), old(self)@, W),
                        W,
                    )),
                    _ => false,
                },
            },
            keeps_trees(*old(store), *final(store)),
    {
        let read = self.load(store);
        let ghost before = read;
        match apply_change(read, f) {
            Ok((changed, out)) => match self.flush(store, &changed) {
                Ok(()) => {
                    assert(f.ensures((before->Ok_0,), Some((changed, out))));
                    Ok(out)
                },
                Err(e) => {
                    assert(f.ensures((before->Ok_0,), Some((changed, out))));
                    Err(e)
                },
            },
            Err(e) => {
                assert(before is Ok ==> f.ensures((before->Ok_0,), None));
                Err(e)
            },
        }
    }

    /// Loads the entries of the map, applies `f` to them, and flushes the
    /// map with the changed entries. The call fails where the branching is
    /// none that a map can have, where the map cannot be read, where `f`
    /// refuses the entries that were read, and where the map does not take
    /// what `f` made of them, and only there; the handle then stays as it
    /// is, and where `f` refused, the store too.
    pub fn update<F: FnOnce(Vec<(Vec<u8>, Vec<u8>)>) -> Option<(Vec<(Vec<u8>, Vec<u8>)>, ())>>(
        &mut self,
        store: &mut MemoryBlockstore,
        f: F,
    ) -> (r: Result<(), StoreError>)
        requires
            forall|v: Vec<(Vec<u8>, Vec<u8>)>| f.requires((v,)),
        ensures
            match r {
                Ok(()) => width_ok(W) && map_changed_by(
                    f,
                    hamt_entries(*old(store), old(self)@, W),
                    *final(store),
                    final(self)@,
                    W,
                    (),
                ),
                Err(e) => final(self)@ == old(self)@ && match e {
                    StoreError::BadWidth => !width_ok(W),
                    StoreError::ChangeFailed => width_ok(W) && *final(store) == *old(store)
                        && map_refused_by(f, hamt_entries(*old(store), old(self)@, W)),
                    StoreError::Unreadable => width_ok(W) && (hamt_entries(
                        *old(store),
                        old(self)@,
                        W,
                    ) is None || map_overfilled_by(
                        f,
                        hamt_entries(*old(store), old(self)@, W),
                        W,
                    )),
                    _ => false,
                },
            },
            keeps_trees(*old(store), *final(store)),
    {
        self.modify(store, f)
    }
}

/// Whether `f` has changed the array behind a handle: it was given the items
/// that the array had, each index once; every index that `f` made is one
/// that an array has, and the handle now refers to the array of the items
/// that `f` made.
pub open spec fn array_changed_by<R, F: FnOnce(Vec<(u64, Vec<u8>)>) -> Option<
    (Vec<(u64, Vec<u8>)>, R),
>>(
    f: F,
    items: Option<Map<u64, Seq<u8>>>,
    store_after: MemoryBlockstore,
    root_after: Seq<u8>,
    w: u32,
    out: R,
) -> bool {
    exists|before: Vec<(u64, Vec<u8>)>, after: Vec<(u64, Vec<u8>)>|
        #![trigger f.ensures((before,), Some((after, out)))]
        f.ensures((before,), Some((after, out))) && items == Some(item_map(before@))
            && indices_distinct(before@) && indices_fit(after@) && amt_holds(
            store_after,
            root_after,
            w,
            item_map(after@),
        )
}

/// Whether `f` has refused to change the array behind a handle: it was given
/// the items that the array had, each index once, and made nothing of them.
pub open spec fn array_refused_by<R, F: FnOnce(Vec<(u64, Vec<u8>)>) -> Option<
    (Vec<(u64, Vec<u8>)>, R),
>>(f: F, items: Option<Map<u64, Seq<u8>>>) -> bool {
    exists|before: Vec<(u64, Vec<u8>)>|
        #![trigger f.ensures((before,), None)]
        f.ensures((before,), None) && items == Some(item_map(before@)) && indices_distinct(
            before@,
        )
}

/// Whether `f` has made of the items of the array behind a handle what no
/// array takes: it was given the items that the array had, and one of those
/// that it made of them has no index of an array.
pub open spec fn array_overfilled_by<R, F: FnOnce(Vec<(u64, Vec<u8>)>) -> Option<
    (Vec<(u64, Vec<u8>)>, R),
>>(f: F, items: Option<Map<u64, Seq<u8>>>) -> bool {
    exists|before: Vec<(u64, Vec<u8>)>, after: Vec<(u64, Vec<u8>)>, out: R|
        #![trigger f.ensures((before,), Some((after, out)))]
        f.ensures((before,), Some((after, out))) && items == Some(item_map(before@))
            && indices_distinct(before@) && !indices_fit(after@)
}

impl<V, const W: u32> TCid<TAmt<V, W>, Blake2b256> {
    /// The items of the array that the handle refers to, each index once.
    /// The handle has to refer to an array in the store.
    pub fn load(&self, store: &MemoryBlockstore) -> (r: Result<Vec<(u64, Vec<u8>)>, StoreError>)
        requires
            amt_entries(*store, self@, W) is Some,
        ensures
            r is Ok,
            amt_entries(*store, self@, W) == Some(item_map(r->Ok_0@)),
            indices_distinct(r->Ok_0@),
    {
        let root = self.cid.to_bytes();
        match amt_load_all(store, &root, W) {
            Some(v) => Ok(v),
            None => Err(StoreError::Unreadable),
        }
    }

    /// The value at `index`, if the array has one. The handle has to refer
    /// to an array in the store. The greatest 64-bit number is no index,
    /// and is the one that is refused.
    pub fn get(&self, store: &MemoryBlockstore, index: u64) -> (r: Result<
        Option<Vec<u8>>,
        StoreError,
    >)
        requires
            amt_entries(*store, self@, W) is Some,
        ensures
            match r {
                Ok(found) => index < u64::MAX && found_in(
                    found,
                    amt_entries(*store, self@, W)->Some_0,
                    index,
                ),
                Err(e) => index == u64::MAX && e == StoreError::Unreadable,
            },
    {
        let root = self.cid.to_bytes();
        match amt_get(store, &root, W, index) {
            Some(v) => Ok(v),
            None => Err(StoreError::Unreadable),
        }
    }

    /// Puts `value` at `index`, and makes the handle refer to the changed
    /// array. The handle has to refer to an array in the store. The greatest
    /// 64-bit number is no index, and is the one that is refused; the handle
    /// then stays as it is.
    pub fn set(&mut self, store: &mut MemoryBlockstore, index: u64, value: &Vec<u8>) -> (r: Result<
        (),
        StoreError,
    >)
        requires
            amt_entries(*old(store), old(self)@, W) is Some,
        ensures
            match r {
                Ok(()) => index < u64::MAX && amt_holds(
                    *final(store),
                    final(self)@,
                    W,
                    amt_entries(*old(store), old(self)@, W)->Some_0.insert(index, value@),
                ),
                Err(e) => index == u64::MAX && e == StoreError::Unreadable && final(self)@ == old(
                    self,
                )@,
            },
            keeps_trees(*old(store), *final(store)),
    {
        let root = self.cid.to_bytes();
        match amt_set(store, &root, W, index, value) {
            Some(c) => {
                self.cid = Cid::from_bytes(c);
                Ok(())
            },
            None => Err(StoreError::Unreadable),
        }
    }

    /// Puts an array with the items `items` into the store, a later item in
    /// place of an earlier one with the same index, and makes the handle
    /// refer to it. The call succeeds exactly where the branching is one
    /// that an array can have and every index is one that an array has.
    /// Where it fails the handle stays as it is.
    pub fn flush(&mut self, store: &mut MemoryBlockstore, items: &Vec<(u64, Vec<u8>)>) -> (r:
        Result<(), StoreError>)
        ensures
            match r {
                Ok(()) => width_ok(W) && indices_fit(items@) && amt_holds(
                    *final(store),
                    final(self)@,
                    W,
                    item_map(items@),
                ),
                Err(e) => final(self)@ == old(self)@ && if width_ok(W) {
                    e == StoreError::Unreadable && !indices_fit(items@)
                } else {
                    e == StoreError::BadWidth
                },
            },
            keeps_trees(*old(store), *final(store)),
    {
        if !is_width_ok(W) {
            return Err(StoreError::BadWidth);
        }
        let mut root = match amt_flush_empty(store, W) {
            Some(c) => c,
            None => {
                return Err(StoreError::PutFailed);
            },
        };
        let mut i: usize = 0;
        assert(item_map(items@.take(0)) =~= no_items());
        while i < items.len()
            invariant
                0 <= i <= items.len(),
                self@ == old(self)@,
                width_ok(W),
                keeps_trees(*old(store), *store),
                forall|j: int| 0 <= j < i ==> (#[trigger] items@[j]).0 < u64::MAX,
                amt_holds(*store, root@, W, item_map(items@.take(i as int))),
            decreases items.len() - i,
        {
            let ghost before = *store;
            let next = amt_set(store, &root, W, items[i].0, &items[i].1);
            proof {
                lemma_keeps_trees_chain(*old(store), before, *store);
            }
            root = match next {
                Some(c) => c,
                None => {
                    assert(items@[i as int].0 == u64::MAX);
                    return Err(StoreError::Unreadable);
                },
            };
            proof {
                let t = items@.take(i as int + 1);
                assert(t.drop_last() =~= items@.take(i as int));
                assert(t.last() == items@[i as int]);
            }
            i += 1;
        }
        assert(items@.take(items.len() as int) =~= items@);
        self.cid = Cid::from_bytes(root);
        Ok(())
    }

    /// Loads the items of the array, applies `f` to them, flushes the array
    /// with the changed items, and returns what `f` returned beside them.
    /// The handle has to refer to an array in the store. The call fails
    /// where the branching is none that an array can have, where `f`
    /// refuses the items that were read, and where `f` made an index that no
    /// array has, and only there; the handle then stays as it is, and where
    /// `f` refused or the branching cannot be, the store too.
    pub fn modify<R, F: FnOnce(Vec<(u64, Vec<u8>)>) -> Option<(Vec<(u64, Vec<u8>)>, R)>>(
        &mut self,
        store: &mut MemoryBlockstore,
        f: F,
    ) -> (r: Result<R, StoreError>)
        requires
            amt_entries(*old(store), old(self)@, W) is Some,
            forall|v: Vec<(u64, Vec<u8>)>| f.requires((v,)),
        ensures
            match r {
                Ok(out) => width_ok(W) && array_changed_by(
                    f,
                    amt_entries(*old(store), old(self)@, W),
                    *final(store),
                    final(self)@,
                    W,
                    out,
                ),
                Err(e) => final(self)@ == old(self)@ && match e {
                    StoreError::BadWidth => !width_ok(W) && *final(store) == *old(store),
                    StoreError::ChangeFailed => width_ok(W) && *final(store) == *old(store)
                        && array_refused_by(f, amt_entries(*old(store), old(self)@, W)),
                    StoreError::Unreadable => width_ok(W) && array_overfilled_by(
                        f,
                        amt_entries(*old(store), old(self)@, W),
                    ),
                    _ => false,
                },
            },
            keeps_trees(*old(store), *final(store)),
    {
        if !is_width_ok(W) {
            return Err(StoreError::BadWidth);
        }
        let read = self.load(store);
        let ghost before = read;
        match apply_change(read, f) {
            Ok((changed, out)) => match self.flush(store, &changed) {
                Ok(()) => {
                    assert(f.ensures((before->Ok_0,), Some((changed, out))));
                    Ok(out)
                },
                Err(e) => {
                    assert(f.ensures((before->Ok_0,), Some((changed, out))));
                    Err(e)
                },
            },
            Err(e) => {
                assert(f.ensures((before->Ok_0,), None));
                Err(e)
            },
        }
    }

    /// Loads the items of the array, applies `f` to them, and flushes the
    /// array with the changed items. The handle has to refer to an array in
    /// the store. The call fails where the branching is none that an array
    /// can have, where `f` refuses the items that were read, and where `f`
    /// made an index that no array has, and only there; the handle then
    /// stays as it is, and where `f` refused or the branching cannot be, the
    /// store too.
    pub fn update<F: FnOnce(Vec<(u64, Vec<u8>)>) -> Option<(Vec<(u64, Vec<u8>)>, ())>>(
        &mut self,
        store: &mut MemoryBlockstore,
        f: F,
    ) -> (r: Result<(), StoreError>)
        requires
            amt_entries(*old(store), old(self)@, W) is Some,
            forall|v: Vec<(u64, Vec<u8>)>| f.requires((v,)),
        ensures
            match r {
                Ok(()) => width_ok(W) && array_changed_by(
                    f,
                    amt_entries(*old(store), old(self)@, W),
                    *final(store),
                    final(self)@,
                    W,
                    (),
                ),
                Err(e) => final(self)@ == old(self)@ && match e {
                    StoreError::BadWidth => !width_ok(W) && *final(store) == *old(store),
                    StoreError::ChangeFailed => width_ok(W) && *final(store) == *old(store)
                        && array_refused_by(f, amt_entries(*old(store), old(self)@, W)),
                    StoreError::Unreadable => width_ok(W) && array_overfilled_by(
                        f,
                        amt_entries(*old(store), old(self)@, W),
                    ),
                    _ => false,
                },
            },
            keeps_trees(*old(store), *final(store)),
    {
        self.modify(store, f)
    }

    /// Puts the root of an array without entries into the store, and returns
    /// the handle to it. A branching that no array can have is refused, and
    /// nothing else.
    pub fn new_amt(store: &mut MemoryBlockstore) -> (r: Result<
        TCid<TAmt<V, W>, Blake2b256>,
        StoreError,
    >)
        ensures
            match r {
                Ok(h) => width_ok(W) && h@ == blake2b256_cid(empty_amt_block(W)) && blocks(
                    *final(store),
                ) == flushed(blocks(*old(store)), empty_amt_block(W)) && amt_holds(
                    *final(store),
                    h@,
                    W,
                    no_items(),
                ),
                Err(e) => !width_ok(W) && e == StoreError::BadWidth && *final(store) == *old(
                    store,
                ),
            },
            keeps_trees(*old(store), *final(store)),
    {
        if !is_width_ok(W) {
            return Err(StoreError::BadWidth);
        }
        match amt_flush_empty(store, W) {
            Some(cid) => Ok(
                TCid { cid: Cid::from_bytes(cid), _phantom_t: PhantomData, _phantom_c: PhantomData },
            ),
            None => Err(StoreError::PutFailed),
        }
    }
}

impl<T: Encode + Default, C: CodeType> Default for TCid<TLink<T>, C> {
    /// The handle to the byte form of the default value of `T`. No store
    /// that the caller has holds the block, so that to get from the handle
    /// may fail.
    fn default() -> (r: TCid<TLink<T>, C>)
        ensures
            exists|value: T| r@ == blake2b256_cid(#[trigger] value.encoding()),
    {
        let value = T::default();
        let mut bytes: Vec<u8> = Vec::new();
        value.encode(&mut bytes);
        assert(bytes@ =~= value.encoding());
        TCid { cid: Cid::of(&bytes), _phantom_t: PhantomData, _phantom_c: PhantomData }
    }
}

impl<K, V, const W: u32> Default for TCid<THamt<K, V, W>, Blake2b256> {
    /// The handle to a map without entries, or to nothing where the branching
    /// is none that a map can have. No store that the caller has holds the
    /// block, so that to load from the handle may fail.
    fn default() -> (r: TCid<THamt<K, V, W>, Blake2b256>)
        ensures
            r@ == if width_ok(W) {
                blake2b256_cid(empty_hamt_block(W))
            } else {
                Seq::<u8>::empty()
            },
    {
        if !is_width_ok(W) {
            return TCid { cid: Cid::undefined(), _phantom_t: PhantomData, _phantom_c: PhantomData };
        }
        let mut store = store_new();
        match hamt_flush_empty(&mut store, W) {
            Some(cid) => TCid {
                cid: Cid::from_bytes(cid),
                _phantom_t: PhantomData,
                _phantom_c: PhantomData,
            },
            None => TCid { cid: Cid::undefined(), _phantom_t: PhantomData, _phantom_c: PhantomData },
        }
    }
}

impl<V, const W: u32> Default for TCid<TAmt<V, W>, Blake2b256> {
    /// The handle to an array without entries, or to nothing where the
    /// branching is none that an array can have. No store that the caller has
    /// holds the block, so that the handle refers to no array there.
    fn default() -> (r: TCid<TAmt<V, W>, Blake2b256>)
        ensures
            r@ == if width_ok(W) {
                blake2b256_cid(empty_amt_block(W))
            } else {
                Seq::<u8>::empty()
            },
    {
        if !is_width_ok(W) {
            return TCid { cid: Cid::undefined(), _phantom_t: PhantomData, _phantom_c: PhantomData };
        }
        let mut store = store_new();
        match amt_flush_empty(&mut store, W) {
            Some(cid) => TCid {
                cid: Cid::from_bytes(cid),
                _phantom_t: PhantomData,
                _phantom_c: PhantomData,
            },
            None => TCid { cid: Cid::undefined(), _phantom_t: PhantomData, _phantom_c: PhantomData },
        }
    }
}

/// A new store without blocks.
pub fn new_store() -> (r: MemoryBlockstore)
    ensures
        blocks(r) == no_blocks(),
{
    store_new()
}

/// A handle and the identifier that it holds have the same byte form.
pub proof fn law_handle_encodes_as_cid<T, C>(handle: TCid<T, C>, cid: Cid)
    requires
        handle@ == cid@,
    ensures
        handle.encoding() == cid.encoding(),
{
}

/// A value that was put into a store is what its identifier loads.
pub proof fn law_flush_then_load(held: Map<Seq<u8>, Seq<u8>>, data: Seq<u8>)
    ensures
        loaded(flushed(held, data), blake2b256_cid(data)) == Some(data),
{
}

} // verus!
