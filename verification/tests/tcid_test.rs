use fil_actor_hierarchical_sca::encoding::Encode;
use fil_actor_hierarchical_sca::hash::Cid;
use fil_actor_hierarchical_sca::tcid::{
    empty_amt_root, empty_hamt_root, new_store, Blake2b256, CodeType, StoreError, TAmt, TCid, THamt, TLink, AMT_BIT_WIDTH,
    BLAKE2B_256, HAMT_BIT_WIDTH,
};
use fvm_ipld_blockstore::Blockstore;

type Link = TCid<TLink<u64>, Blake2b256>;
type HamtRoot = TCid<THamt<String, u64, HAMT_BIT_WIDTH>, Blake2b256>;
type AmtRoot = TCid<TAmt<u64, AMT_BIT_WIDTH>, Blake2b256>;

#[test]
fn default_cid_and_default_hamt_differ() {
    let untyped: Link = TCid::from(Cid::default());
    let typed = HamtRoot::default();
    // the default of a typed handle is the root of an empty collection
    assert_ne!(typed.cid(), untyped.cid());
    assert_ne!(typed.cid(), AmtRoot::default().cid());
    // the default of a link is the identifier of the default value's bytes
    let of_number = Link::default();
    let of_message =
        TCid::<TLink<fil_actor_hierarchical_sca::types::StorableMsg>, Blake2b256>::default();
    assert_ne!(of_number.cid(), of_message.cid());
    assert_ne!(of_number.cid(), Cid::default());
    assert_ne!(of_number.cid(), typed.cid());
    let mut zero = Vec::new();
    0u64.encode(&mut zero);
    assert_eq!(of_number.cid(), Cid::of(&zero));
}

#[test]
fn default_value_read_fails() {
    let map = HamtRoot::default();
    let handle: Link = TCid::from(map.cid());
    let store = new_store();
    assert!(handle.get(&store).is_err());
    assert_eq!(handle.get(&store), Err(StoreError::NotFound));
}

#[test]
fn what_is_flushed_is_loaded() {
    let mut store = new_store();
    let value = vec![0x81, 0x01];
    let mut handle = Link::new_link(&mut store, &value).unwrap();
    assert_eq!(handle.cid(), Cid::of(&value));
    assert_eq!(handle.get(&store), Ok(value.clone()));
    let other = vec![0x81, 0x02];
    assert_eq!(handle.put(&mut store, &other), Ok(()));
    assert_eq!(handle.cid(), Cid::of(&other));
    assert_eq!(handle.get(&store), Ok(other.clone()));
    // the first value is still there
    let first: Link = TCid::from(Cid::of(&value));
    assert_eq!(first.get(&store), Ok(value.clone()));
    assert_eq!(Link::new_cbor(&mut store, &value).unwrap().cid(), Cid::of(&value));
    // the store itself holds the block under the identifier
    let key = cid::Cid::try_from(Cid::of(&other).to_bytes().as_slice()).unwrap();
    assert_eq!(store.get(&key).unwrap(), Some(other));
}

#[test]
fn modify_changes_value_and_handle() {
    let mut store = new_store();
    let mut handle = Link::new_link(&mut store, &vec![1]).unwrap();
    let eggs = handle.modify(&mut store, |mut v: Vec<u8>| {
        v.push(2);
        Some((v, "eggs"))
    });
    assert_eq!(eggs, Ok("eggs"));
    assert_eq!(handle.get(&store), Ok(vec![1, 2]));
    assert_eq!(handle.cid(), Cid::of(&vec![1, 2]));

    assert_eq!(
        handle.update(&mut store, |mut v: Vec<u8>| {
            v.push(3);
            Some((v, ()))
        }),
        Ok(())
    );
    assert_eq!(handle.get(&store), Ok(vec![1, 2, 3]));
}

#[test]
fn a_failed_change_leaves_the_handle() {
    let mut store = new_store();
    let mut handle = Link::new_link(&mut store, &vec![1]).unwrap();
    let before = handle.cid();
    let r: Result<(), StoreError> = handle.modify(&mut store, |_v: Vec<u8>| None);
    assert_eq!(r, Err(StoreError::ChangeFailed));
    assert_eq!(handle.cid(), before);
    assert_eq!(handle.get(&store), Ok(vec![1]));

    let mut missing: Link = TCid::from(Cid::of(&vec![9]));
    let r = missing.modify(&mut store, |v: Vec<u8>| Some((v, 1)));
    assert_eq!(r, Err(StoreError::NotFound));
    assert_eq!(missing.cid(), Cid::of(&vec![9]));
}

#[test]
fn empty_maps_and_arrays_are_flushed() {
    let mut store = new_store();
    let map = HamtRoot::new_hamt(&mut store).unwrap();
    let array = AmtRoot::new_amt(&mut store).unwrap();
    assert_ne!(map.cid(), array.cid());
    assert_eq!(map.cid(), HamtRoot::default().cid());
    assert_eq!(array.cid(), AmtRoot::default().cid());
    assert!(!map.cid().is_undefined());
    // the roots are in the store, and are what the crates load as empty
    let root: Link = TCid::from(map.cid());
    let block = root.get(&store).unwrap();
    assert_eq!(map.cid(), Cid::of(&block));
    let key = cid::Cid::try_from(map.cid().to_bytes().as_slice()).unwrap();
    let loaded: fvm_ipld_hamt::Hamt<_, u64> =
        fvm_ipld_hamt::Hamt::load_with_bit_width(&key, &store, HAMT_BIT_WIDTH).unwrap();
    assert!(loaded.is_empty());
    let key = cid::Cid::try_from(array.cid().to_bytes().as_slice()).unwrap();
    let loaded: fvm_ipld_amt::Amt<u64, _> = fvm_ipld_amt::Amt::load(&key, &store).unwrap();
    assert_eq!(loaded.count(), 0);
    assert_eq!(Blake2b256::code(), BLAKE2B_256);
}

#[test]
fn store_handles_of_contents_and_executions() {
    let mut store = new_store();
    let tag = fil_actor_hierarchical_sca::cross::MetaTag::new(&mut store).unwrap();
    assert_eq!(tag.msgs_cid.cid(), AmtRoot::default().cid());
    assert_eq!(tag.meta_cid.cid(), tag.msgs_cid.cid());
    let meta = fil_actor_hierarchical_sca::exec::AtomicExecParamsMeta::new(&mut store).unwrap();
    assert_eq!(meta.msgs_cid.cid(), AmtRoot::default().cid());
    assert_eq!(meta.inputs_cid.cid(), HamtRoot::default().cid());
    let root: Link = TCid::from(meta.inputs_cid.cid());
    assert!(root.get(&store).is_ok());
}

#[test]
fn hamt_modify() {
    let mut store = new_store();
    let mut map = HamtRoot::new_hamt(&mut store).unwrap();

    let eggs = map
        .modify(&mut store, |mut entries: Vec<(Vec<u8>, Vec<u8>)>| {
            entries.push((b"spam".to_vec(), vec![1]));
            Some((entries, "eggs"))
        })
        .unwrap();
    assert_eq!(eggs, "eggs");

    let foo = map.get(&store, &b"spam".to_vec()).unwrap();
    assert_eq!(foo, Some(vec![1]));
    assert_eq!(map.load(&store).unwrap(), vec![(b"spam".to_vec(), vec![1])]);
}

#[test]
fn maps_keep_their_entries() {
    let mut store = new_store();
    let mut map = HamtRoot::new_hamt(&mut store).unwrap();
    let empty = map.cid();
    assert_eq!(map.load(&store).unwrap(), Vec::new());
    assert_eq!(map.get(&store, &vec![1]), Ok(None));

    assert_eq!(map.set(&mut store, &vec![1], &vec![10]), Ok(()));
    assert_ne!(map.cid(), empty);
    assert_eq!(map.set(&mut store, &vec![2], &vec![20]), Ok(()));
    assert_eq!(map.set(&mut store, &vec![1], &vec![11]), Ok(()));
    assert_eq!(map.get(&store, &vec![1]), Ok(Some(vec![11])));
    assert_eq!(map.get(&store, &vec![2]), Ok(Some(vec![20])));
    assert_eq!(map.get(&store, &vec![3]), Ok(None));
    let mut entries = map.load(&store).unwrap();
    entries.sort();
    assert_eq!(entries, vec![(vec![1], vec![11]), (vec![2], vec![20])]);

    // the root with the same entries, put at once
    let mut again = HamtRoot::default();
    let list = vec![(vec![1], vec![10]), (vec![2], vec![20]), (vec![1], vec![11])];
    assert_eq!(again.flush(&mut store, &list), Ok(()));
    assert_eq!(again.cid(), map.cid());

    // the crate reads what was written
    let key = cid::Cid::try_from(map.cid().to_bytes().as_slice()).unwrap();
    let loaded: fvm_ipld_hamt::Hamt<_, fvm_ipld_encoding::RawBytes> =
        fvm_ipld_hamt::Hamt::load_with_bit_width(&key, &store, HAMT_BIT_WIDTH).unwrap();
    assert_eq!(
        loaded.get(&fvm_ipld_hamt::BytesKey(vec![2])).unwrap(),
        Some(&fvm_ipld_encoding::RawBytes::new(vec![20]))
    );

    // a root that the store does not hold
    let mut missing: HamtRoot = TCid::from(Cid::of(&vec![1]));
    let empty_store = new_store();
    assert_eq!(missing.load(&empty_store), Err(StoreError::Unreadable));
    assert_eq!(missing.get(&empty_store, &vec![1]), Err(StoreError::Unreadable));
    let mut other_store = new_store();
    assert_eq!(missing.set(&mut other_store, &vec![1], &vec![1]), Err(StoreError::Unreadable));
    assert_eq!(missing.cid(), Cid::of(&vec![1]));
    let r: Result<(), StoreError> = missing.modify(&mut other_store, |e| Some((e, ())));
    assert_eq!(r, Err(StoreError::Unreadable));
    let failed: Result<u8, StoreError> = map.modify(&mut store, |_e| None);
    assert_eq!(failed, Err(StoreError::ChangeFailed));
    assert_eq!(map.get(&store, &vec![1]), Ok(Some(vec![11])));
    assert_eq!(
        map.update(&mut store, |mut e: Vec<(Vec<u8>, Vec<u8>)>| {
            e.retain(|(k, _)| k != &vec![1]);
            Some((e, ()))
        }),
        Ok(())
    );
    assert_eq!(map.get(&store, &vec![1]), Ok(None));
    assert_eq!(map.get(&store, &vec![2]), Ok(Some(vec![20])));
}

#[test]
fn arrays_keep_their_items() {
    let mut store = new_store();
    let mut array = AmtRoot::new_amt(&mut store).unwrap();
    assert_eq!(array.load(&store).unwrap(), Vec::new());
    assert_eq!(array.get(&store, 0), Ok(None));
    assert_eq!(array.set(&mut store, 0, &vec![7]), Ok(()));
    assert_eq!(array.set(&mut store, 5, &vec![8]), Ok(()));
    assert_eq!(array.set(&mut store, 0, &b"bar".to_vec()), Ok(()));
    assert_eq!(array.get(&store, 0), Ok(Some(b"bar".to_vec())));
    assert_eq!(array.get(&store, 5), Ok(Some(vec![8])));
    assert_eq!(array.get(&store, 1), Ok(None));
    assert_eq!(array.load(&store).unwrap(), vec![(0, b"bar".to_vec()), (5, vec![8])]);
    // an index beyond the last
    assert_eq!(array.set(&mut store, u64::MAX, &vec![1]), Err(StoreError::Unreadable));
    assert_eq!(array.get(&store, 5), Ok(Some(vec![8])));

    let mut again = AmtRoot::default();
    assert_eq!(again.flush(&mut store, &vec![(5, vec![8]), (0, b"bar".to_vec())]), Ok(()));
    assert_eq!(again.cid(), array.cid());

    let count = array.modify(&mut store, |mut items: Vec<(u64, Vec<u8>)>| {
        let n = items.len();
        items.push((9, vec![9]));
        Some((items, n))
    });
    assert_eq!(count, Ok(2));
    assert_eq!(array.get(&store, 9), Ok(Some(vec![9])));
    assert_eq!(array.update(&mut store, |_items: Vec<(u64, Vec<u8>)>| Some((Vec::new(), ()))), Ok(()));
    assert_eq!(array.load(&store).unwrap(), Vec::new());
    assert_eq!(array.cid(), AmtRoot::default().cid());

    let key = cid::Cid::try_from(again.cid().to_bytes().as_slice()).unwrap();
    let loaded: fvm_ipld_amt::Amt<fvm_ipld_encoding::RawBytes, _> =
        fvm_ipld_amt::Amt::load(&key, &store).unwrap();
    assert_eq!(loaded.count(), 2);
    assert_eq!(loaded.get(5).unwrap(), Some(&fvm_ipld_encoding::RawBytes::new(vec![8])));

    // the greatest 64-bit number is no index
    assert_eq!(array.get(&store, u64::MAX), Err(StoreError::Unreadable));
    assert_eq!(array.flush(&mut store, &vec![(u64::MAX, vec![1])]), Err(StoreError::Unreadable));
    assert_eq!(array.flush(&mut store, &vec![(u64::MAX - 1, vec![1])]), Ok(()));
    assert_eq!(array.get(&store, u64::MAX - 1), Ok(Some(vec![1])));
}

#[test]
fn a_handle_is_written_as_its_identifier() {
    let mut store = new_store();
    let handle = Link::new_link(&mut store, &vec![0x81, 0x01]).unwrap();
    let (mut typed, mut untyped) = (Vec::new(), Vec::new());
    handle.encode(&mut typed);
    handle.cid().encode(&mut untyped);
    assert_eq!(typed, untyped);
    // tag 42, then the binary form behind the multibase prefix 0
    assert_eq!(&typed[..2], &[0xd8, 0x2a]);
    let map = HamtRoot::new_hamt(&mut store).unwrap();
    let (mut typed, mut untyped) = (Vec::new(), Vec::new());
    map.encode(&mut typed);
    map.cid().encode(&mut untyped);
    assert_eq!(typed, untyped);
}

#[test]
fn a_branching_that_cannot_be_is_refused() {
    let mut store = new_store();
    type Flat = TCid<THamt<String, u64, 0>, Blake2b256>;
    type Wide = TCid<THamt<String, u64, 64>, Blake2b256>;
    assert_eq!(Flat::new_hamt(&mut store).unwrap_err(), StoreError::BadWidth);
    assert_eq!(Wide::new_hamt(&mut store).unwrap_err(), StoreError::BadWidth);
    let mut wide: Wide = TCid::from(HamtRoot::new_hamt(&mut store).unwrap().cid());
    assert_eq!(wide.load(&store), Err(StoreError::BadWidth));
    assert_eq!(wide.get(&store, &vec![1]), Err(StoreError::BadWidth));
    assert_eq!(wide.set(&mut store, &vec![1], &vec![1]), Err(StoreError::BadWidth));
    assert_eq!(wide.flush(&mut store, &Vec::new()), Err(StoreError::BadWidth));
    assert!(Wide::default().cid().is_undefined());

    type FlatArray = TCid<TAmt<u64, 0>, Blake2b256>;
    type WideArray = TCid<TAmt<u64, 64>, Blake2b256>;
    assert_eq!(FlatArray::new_amt(&mut store).unwrap_err(), StoreError::BadWidth);
    assert_eq!(WideArray::new_amt(&mut store).unwrap_err(), StoreError::BadWidth);
    let mut flat = FlatArray::default();
    assert!(flat.cid().is_undefined());
    assert_eq!(flat.flush(&mut store, &Vec::new()), Err(StoreError::BadWidth));
    // a change is refused before anything is read or changed
    let r: Result<u8, StoreError> = wide.modify(&mut store, |_entries| None);
    assert_eq!(r, Err(StoreError::BadWidth));
    assert_eq!(wide.update(&mut store, |entries| Some((entries, ()))), Err(StoreError::BadWidth));
    // the widest and the narrowest that can be
    assert!(TCid::<TAmt<u64, 8>, Blake2b256>::new_amt(&mut store).is_ok());
    assert!(TCid::<THamt<String, u64, 1>, Blake2b256>::new_hamt(&mut store).is_ok());
}


fn root_block<T>(store: &fvm_ipld_blockstore::MemoryBlockstore, handle: &TCid<T, Blake2b256>) -> Vec<u8> {
    let link: Link = TCid::from(handle.cid());
    link.get(store).unwrap()
}

#[test]
fn the_roots_of_empty_collections_are_known_blocks() {
    let mut store = new_store();
    assert_eq!(empty_hamt_root(), vec![0x82, 0x40, 0x80]);
    let h1 = TCid::<THamt<String, u64, 1>, Blake2b256>::new_hamt(&mut store).unwrap();
    let h5 = HamtRoot::new_hamt(&mut store).unwrap();
    let h8 = TCid::<THamt<String, u64, 8>, Blake2b256>::new_hamt(&mut store).unwrap();
    assert_eq!(root_block(&store, &h1), empty_hamt_root());
    assert_eq!(root_block(&store, &h5), empty_hamt_root());
    assert_eq!(root_block(&store, &h8), empty_hamt_root());
    assert_eq!(h5.cid(), Cid::of(&empty_hamt_root()));

    assert_eq!(empty_amt_root(3), vec![0x84, 0x03, 0x00, 0x00, 0x83, 0x41, 0x00, 0x80, 0x80]);
    let a1 = TCid::<TAmt<u64, 1>, Blake2b256>::new_amt(&mut store).unwrap();
    let a2 = TCid::<TAmt<u64, 2>, Blake2b256>::new_amt(&mut store).unwrap();
    let a3 = AmtRoot::new_amt(&mut store).unwrap();
    let a4 = TCid::<TAmt<u64, 4>, Blake2b256>::new_amt(&mut store).unwrap();
    let a5 = TCid::<TAmt<u64, 5>, Blake2b256>::new_amt(&mut store).unwrap();
    let a6 = TCid::<TAmt<u64, 6>, Blake2b256>::new_amt(&mut store).unwrap();
    let a7 = TCid::<TAmt<u64, 7>, Blake2b256>::new_amt(&mut store).unwrap();
    let a8 = TCid::<TAmt<u64, 8>, Blake2b256>::new_amt(&mut store).unwrap();
    assert_eq!(root_block(&store, &a1), empty_amt_root(1));
    assert_eq!(root_block(&store, &a2), empty_amt_root(2));
    assert_eq!(root_block(&store, &a3), empty_amt_root(3));
    assert_eq!(root_block(&store, &a4), empty_amt_root(4));
    assert_eq!(root_block(&store, &a5), empty_amt_root(5));
    assert_eq!(root_block(&store, &a6), empty_amt_root(6));
    assert_eq!(root_block(&store, &a7), empty_amt_root(7));
    assert_eq!(root_block(&store, &a8), empty_amt_root(8));
    assert_eq!(a3.cid(), Cid::of(&empty_amt_root(3)));
}

#[test]
fn a_second_flush_keeps_the_identifier() {
    let mut store = new_store();
    let mut map = HamtRoot::new_hamt(&mut store).unwrap();
    let entries = vec![(b"a".to_vec(), vec![1]), (b"b".to_vec(), vec![2]), (b"c".to_vec(), vec![3])];
    assert_eq!(map.flush(&mut store, &entries), Ok(()));
    let first = map.cid();
    let read = map.load(&store).unwrap();
    assert_eq!(map.flush(&mut store, &read), Ok(()));
    assert_eq!(map.cid(), first);
    let mut turned = entries.clone();
    turned.reverse();
    assert_eq!(map.flush(&mut store, &turned), Ok(()));
    assert_eq!(map.cid(), first);

    let mut array = AmtRoot::new_amt(&mut store).unwrap();
    let items = vec![(0, vec![1]), (9, vec![2]), (700, vec![3])];
    assert_eq!(array.flush(&mut store, &items), Ok(()));
    let first = array.cid();
    let read = array.load(&store).unwrap();
    assert_eq!(array.flush(&mut store, &read), Ok(()));
    assert_eq!(array.cid(), first);
    let mut turned = items.clone();
    turned.reverse();
    assert_eq!(array.flush(&mut store, &turned), Ok(()));
    assert_eq!(array.cid(), first);
    // what was readable before a put is readable after
    let other = Link::new_link(&mut store, &vec![7, 7]).unwrap();
    assert_eq!(other.get(&store), Ok(vec![7, 7]));
    assert_eq!(array.load(&store).unwrap(), items);
    // a refused change leaves what the handle reads
    let r: Result<u8, StoreError> = array.modify(&mut store, |_items| None);
    assert_eq!(r, Err(StoreError::ChangeFailed));
    assert_eq!(array.load(&store).unwrap(), items);
    let r: Result<u8, StoreError> = map.modify(&mut store, |_entries| None);
    assert_eq!(r, Err(StoreError::ChangeFailed));
    assert_eq!(map.cid(), first_of(&mut store, &entries));
}

fn first_of(store: &mut fvm_ipld_blockstore::MemoryBlockstore, entries: &Vec<(Vec<u8>, Vec<u8>)>) -> Cid {
    let mut map = HamtRoot::default();
    map.flush(store, entries).unwrap();
    map.cid()
}
