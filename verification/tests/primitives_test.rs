use fil_actor_hierarchical_sca::address::{Address, AddressError, Payload, BURNT_FUNDS_ACTOR_ID};
use fil_actor_hierarchical_sca::atomic::{LockParams, SerializedState, UnlockParams};
use fil_actor_hierarchical_sca::checkpoint::{
    window_epoch, CheckpointError, Checkpoint, CrossMsgMeta,
};
use fil_actor_hierarchical_sca::cross::CrossMsgs;
use fil_actor_hierarchical_sca::decoding::{read_bytes, read_head, read_link};
use fil_actor_hierarchical_sca::econ::{token_is_positive, token_le, token_zero};
use fil_actor_hierarchical_sca::encoding::{
    push_array, push_bytes, push_int, push_link, push_uint, Encode,
};
use fil_actor_hierarchical_sca::error::{ActorError, ExitCode};
use fil_actor_hierarchical_sca::exec::{
    is_addr_in_exec, is_common_parent, AtomicExecParamsRaw, ExecError, ExecInput,
    LockedStateInfo, SubmitExecParams,
};
use fil_actor_hierarchical_sca::hash::{bytes_clone, bytes_eq, Cid};
use fil_actor_hierarchical_sca::subnet::{Status, Subnet, SubnetError};
use fil_actor_hierarchical_sca::subnet_id::{PathError, SubnetID};
use fil_actor_hierarchical_sca::taddress::{AnyRawAddr, Hierarchical, TAddress, BLS, ID};
use fil_actor_hierarchical_sca::types::{
    is_bottomup, push_amount, HCMsgType, StorableMsg, METHOD_SEND,
};
use fvm_shared::econ::TokenAmount;

fn bottom_up(a: &str, b: &str, res: bool) {
    assert_eq!(is_bottomup(&SubnetID::from_str(a).unwrap(), &SubnetID::from_str(b).unwrap()), res);
}

#[test]
fn test_is_bottomup() {
    bottom_up("/root/f01", "/root/f01/f02", false);
    bottom_up("/root/f01", "/root", true);
    bottom_up("/root/f01", "/root/f01/f02", false);
    bottom_up("/root/f01", "/root/f02/f02", true);
    bottom_up("/root/f01/f02", "/root/f01/f02", false);
    bottom_up("/root/f01/f02", "/root/f01/f02/f03", false);
}

#[test]
fn subnet_id_text_round_trip() {
    for text in ["/root", "/root/f0101", "/root/f01/f02/f018446744073709551615", "/root/f00"] {
        let id = SubnetID::from_str(text).unwrap();
        assert_eq!(id.to_string(), text);
    }
    let id = SubnetID::from_str("/root/f0101/f0102").unwrap();
    assert_eq!(id.children, vec![101, 102]);
    // leading zeros are read and not written
    assert_eq!(SubnetID::from_str("/root/f0007").unwrap().to_string(), "/root/f07");
}

#[test]
fn subnet_id_text_is_refused() {
    assert_eq!(SubnetID::from_str("").unwrap_err(), PathError::MissingRoot);
    assert_eq!(SubnetID::from_str("/roo").unwrap_err(), PathError::MissingRoot);
    assert_eq!(SubnetID::from_str("root/f01").unwrap_err(), PathError::MissingRoot);
    assert_eq!(SubnetID::from_str("/root/").unwrap_err(), PathError::InvalidStep);
    assert_eq!(SubnetID::from_str("/root/f0").unwrap_err(), PathError::InvalidStep);
    assert_eq!(SubnetID::from_str("/root/f1abc").unwrap_err(), PathError::InvalidStep);
    assert_eq!(SubnetID::from_str("/root/t01").unwrap_err(), PathError::InvalidStep);
    assert_eq!(SubnetID::from_str("/root/f01x").unwrap_err(), PathError::InvalidStep);
    assert_eq!(SubnetID::from_str("/rootf01").unwrap_err(), PathError::InvalidStep);
    assert_eq!(
        SubnetID::from_str("/root/f018446744073709551616").unwrap_err(),
        PathError::IdOutOfRange
    );
    assert_eq!(
        SubnetID::from_str("/root/f0000000000000000000001").unwrap_err(),
        PathError::IdOutOfRange
    );
}

#[test]
fn subnet_id_algebra() {
    let root = SubnetID::root();
    let a = SubnetID::from_str("/root/f01").unwrap();
    let ab = SubnetID::from_str("/root/f01/f02").unwrap();
    let ac = SubnetID::from_str("/root/f01/f03").unwrap();
    let d = SubnetID::from_str("/root/f04").unwrap();

    assert!(root.is_root());
    assert!(!a.is_root());
    assert_eq!(root.depth(), 0);
    assert_eq!(ab.depth(), 2);
    assert_eq!(root.parent(), None);
    assert_eq!(a.parent(), Some(root.clone()));
    assert_eq!(ab.parent(), Some(a.clone()));
    assert_eq!(SubnetID::new_child(&a, 2), ab);
    assert_eq!(ab.subnet_actor_id(), 2);
    assert_eq!(root.subnet_actor_id(), 0);

    assert_eq!(ab.common_parent(&ac), Some((1, a.clone())));
    assert_eq!(ab.common_parent(&d), Some((0, root.clone())));
    assert_eq!(ab.common_parent(&ab), Some((2, ab.clone())));
    assert_eq!(a.common_parent(&ab), Some((1, a.clone())));
    assert_eq!(root.common_parent(&ab), Some((0, root.clone())));

    assert_eq!(ab.down(&root), Some(a.clone()));
    assert_eq!(ab.down(&a), Some(ab.clone()));
    assert_eq!(ab.down(&ab), None);
    assert_eq!(ab.down(&d), None);
    assert_eq!(a.down(&ab), None);

    assert!(root.is_ancestor_or_same(&ab));
    assert!(ab.is_ancestor_or_same(&ab));
    assert!(!ab.is_ancestor_or_same(&a));

    // the order of the canonical lists
    assert!(root.precedes(&a));
    assert!(a.precedes(&ab));
    assert!(ab.precedes(&ac));
    assert!(ac.precedes(&d));
    assert!(!d.precedes(&ac));
    assert!(!a.precedes(&a));
    assert_eq!(ab.ancestor(1), a);
}

#[test]
fn hierarchical_addresses_do_not_nest() {
    let sub = SubnetID::from_str("/root/f0101").unwrap();
    let raw = Address::new_id(1000);
    let inside = Address::new_hierarchical(&sub, &raw).unwrap();
    assert!(inside.is_hierarchical());
    assert!(!raw.is_hierarchical());
    assert_eq!(inside.subnet(), Ok(sub.clone()));
    assert_eq!(inside.raw_addr(), Ok(raw.clone()));
    assert_eq!(Address::new_hierarchical(&sub, &inside), Err(AddressError::InvalidPayload));
    assert_eq!(raw.subnet(), Err(AddressError::NotHierarchical));
    assert_eq!(raw.raw_addr(), Err(AddressError::NotHierarchical));
    assert_eq!(raw.id(), Ok(1000));
    assert_eq!(inside.id(), Err(AddressError::NonIDAddress));
    // equality is by subnet and raw address
    assert_eq!(inside, Address::new_hierarchical(&sub, &Address::new_id(1000)).unwrap());
    assert_ne!(inside, Address::new_hierarchical(&SubnetID::root(), &raw).unwrap());
    assert_ne!(inside, Address::new_hierarchical(&sub, &Address::new_id(1001)).unwrap());
}

#[test]
fn key_addresses_have_fixed_lengths() {
    assert!(Address::new_bls(&vec![1; 48]).is_ok());
    assert_eq!(Address::new_bls(&vec![1; 47]), Err(AddressError::InvalidLength));
    assert!(Address::new_secp256k1_hash(&vec![1; 20]).is_ok());
    assert_eq!(Address::new_secp256k1_hash(&vec![1; 21]), Err(AddressError::InvalidLength));
    assert!(Address::new_actor_hash(&vec![1; 20]).is_ok());
    assert_eq!(Address::new_actor_hash(&vec![]), Err(AddressError::InvalidLength));
    let bls = Address::new_bls(&vec![7; 48]).unwrap();
    assert_eq!(bls.id(), Err(AddressError::NonIDAddress));
    assert_ne!(bls, Address::new_bls(&vec![8; 48]).unwrap());
    assert_ne!(
        Address::new_secp256k1_hash(&vec![1; 20]).unwrap(),
        Address::new_actor_hash(&vec![1; 20]).unwrap()
    );
}

#[test]
fn typed_addresses_check_their_kind() {
    let sub = SubnetID::from_str("/root/f0101").unwrap();
    let id = Address::new_id(5);
    let bls = Address::new_bls(&vec![7; 48]).unwrap();
    let hid = Address::new_hierarchical(&sub, &id).unwrap();
    let hbls = Address::new_hierarchical(&sub, &bls).unwrap();

    assert!(TAddress::<ID>::try_from(id.clone()).is_ok());
    assert!(TAddress::<ID>::try_from(bls.clone()).is_err());
    assert!(TAddress::<ID>::try_from(hid.clone()).is_err());
    assert!(TAddress::<BLS>::try_from(bls.clone()).is_ok());
    assert!(TAddress::<AnyRawAddr>::try_from(bls.clone()).is_ok());
    assert!(TAddress::<AnyRawAddr>::try_from(hid.clone()).is_err());
    assert!(TAddress::<Hierarchical<ID>>::try_from(hbls.clone()).is_err());
    assert!(TAddress::<Hierarchical<ID>>::try_from(id.clone()).is_err());
    assert!(TAddress::<Hierarchical<AnyRawAddr>>::try_from(hbls.clone()).is_ok());

    let typed = TAddress::<Hierarchical<ID>>::try_from(hid.clone()).unwrap();
    assert_eq!(typed.subnet(), sub);
    assert_eq!(typed.raw_addr().addr(), &id);
    assert_eq!(typed.addr(), &hid);
    assert_eq!(typed.to_bytes(), hid.to_bytes());
    assert_eq!(typed.into_address(), hid);
}

#[test]
fn fund_and_release_messages() {
    let sub = SubnetID::from_str("/root/f0101").unwrap();
    let sig = Address::new_id(1001);
    let value = TokenAmount::from_atto(77);

    let fund = StorableMsg::new_fund_msg(&sub, &sig, value.clone()).unwrap();
    assert_eq!(fund.from, Address::new_hierarchical(&SubnetID::root(), &sig).unwrap());
    assert_eq!(fund.to, Address::new_hierarchical(&sub, &sig).unwrap());
    assert_eq!(fund.method, METHOD_SEND);
    assert!(fund.params.is_empty());
    assert_eq!(fund.value, value);
    assert_eq!(fund.nonce, 0);
    assert_eq!(fund.hc_type(), Ok(HCMsgType::TopDown));

    let release = StorableMsg::new_release_msg(&sub, &sig, value.clone(), 9).unwrap();
    assert_eq!(
        release.from,
        Address::new_hierarchical(&sub, &Address::new_id(BURNT_FUNDS_ACTOR_ID)).unwrap()
    );
    assert_eq!(release.to, Address::new_hierarchical(&SubnetID::root(), &sig).unwrap());
    assert_eq!(release.method, METHOD_SEND);
    assert_eq!(release.value, value);
    assert_eq!(release.nonce, 9);
    assert_eq!(release.hc_type(), Ok(HCMsgType::BottomUp));

    // the root has no parent
    assert_eq!(
        StorableMsg::new_fund_msg(&SubnetID::root(), &sig, value.clone()).unwrap_err(),
        AddressError::NoParent
    );
    assert_eq!(
        StorableMsg::new_release_msg(&SubnetID::root(), &sig, value.clone(), 0).unwrap_err(),
        AddressError::NoParent
    );
    // the address must be raw
    let nested = Address::new_hierarchical(&sub, &sig).unwrap();
    assert_eq!(
        StorableMsg::new_fund_msg(&sub, &nested, value.clone()).unwrap_err(),
        AddressError::InvalidPayload
    );
    assert_eq!(
        StorableMsg::new_release_msg(&sub, &nested, value, 0).unwrap_err(),
        AddressError::InvalidPayload
    );
}

fn msg_between(from: &str, to: &str) -> StorableMsg {
    let mut m = StorableMsg::default();
    m.from = Address::new_hierarchical(&SubnetID::from_str(from).unwrap(), &Address::new_id(1))
        .unwrap();
    m.to =
        Address::new_hierarchical(&SubnetID::from_str(to).unwrap(), &Address::new_id(2)).unwrap();
    m
}

#[test]
fn messages_are_classified() {
    let up = msg_between("/root/f01/f02", "/root/f03");
    assert_eq!(up.hc_type(), Ok(HCMsgType::BottomUp));
    // below the common parent the message still goes up
    let at = |s: &str| up.apply_type(&SubnetID::from_str(s).unwrap());
    assert_eq!(at("/root"), Ok(HCMsgType::BottomUp));
    assert_eq!(at("/root/f01"), Ok(HCMsgType::BottomUp));
    // on the way down to the destination it is applied as a message that comes down
    assert_eq!(at("/root/f03"), Ok(HCMsgType::TopDown));

    let down = msg_between("/root", "/root/f01/f02");
    assert_eq!(down.hc_type(), Ok(HCMsgType::TopDown));
    assert_eq!(down.apply_type(&SubnetID::root()), Ok(HCMsgType::TopDown));
    assert_eq!(
        down.apply_type(&SubnetID::from_str("/root/f01").unwrap()),
        Ok(HCMsgType::TopDown)
    );

    // a message between raw addresses has no direction
    let raw = StorableMsg::default();
    assert_eq!(raw.hc_type(), Err(AddressError::NotHierarchical));
    assert_eq!(raw.apply_type(&SubnetID::root()), Err(AddressError::NotHierarchical));
    assert_eq!(raw.from, Address::new_id(0));
    assert_eq!(raw.method, 0);
    assert_eq!(raw.value, TokenAmount::from_atto(0));

    // the direction survives a copy of the message
    let copy = up.clone();
    assert_eq!(copy.hc_type(), up.hc_type());
    assert_eq!(copy.to_bytes_for_test(), up.to_bytes_for_test());
}

trait Bytes {
    fn to_bytes_for_test(&self) -> Vec<u8>;
}

impl<T: Encode> Bytes for T {
    fn to_bytes_for_test(&self) -> Vec<u8> {
        let mut out = Vec::new();
        self.encode(&mut out);
        out
    }
}

#[test]
fn window_epochs() {
    assert_eq!(window_epoch(0, 10), Some(0));
    assert_eq!(window_epoch(1, 10), Some(10));
    assert_eq!(window_epoch(10, 10), Some(10));
    assert_eq!(window_epoch(11, 10), Some(20));
    assert_eq!(window_epoch(19, 10), Some(20));
    assert_eq!(window_epoch(20, 10), Some(20));
    assert_eq!(window_epoch(7, 1), Some(7));
    assert_eq!(window_epoch(i64::MAX, 10), None);
    assert_eq!(window_epoch(i64::MAX - 7, 10), Some(i64::MAX - 7));
    assert_eq!(window_epoch(i64::MAX, 1), Some(i64::MAX));
}

#[test]
fn canonical_bytes_of_heads() {
    let uint = |v: u64| {
        let mut out = vec![0xee];
        push_uint(&mut out, v);
        out
    };
    assert_eq!(uint(0), vec![0xee, 0x00]);
    assert_eq!(uint(23), vec![0xee, 0x17]);
    assert_eq!(uint(24), vec![0xee, 0x18, 0x18]);
    assert_eq!(uint(255), vec![0xee, 0x18, 0xff]);
    assert_eq!(uint(256), vec![0xee, 0x19, 0x01, 0x00]);
    assert_eq!(uint(65535), vec![0xee, 0x19, 0xff, 0xff]);
    assert_eq!(uint(65536), vec![0xee, 0x1a, 0x00, 0x01, 0x00, 0x00]);
    assert_eq!(uint(u32::MAX as u64), vec![0xee, 0x1a, 0xff, 0xff, 0xff, 0xff]);
    assert_eq!(uint(1 << 32), vec![0xee, 0x1b, 0, 0, 0, 1, 0, 0, 0, 0]);
    assert_eq!(
        uint(0x0102030405060708),
        vec![0xee, 0x1b, 1, 2, 3, 4, 5, 6, 7, 8]
    );
    assert_eq!(uint(u64::MAX), vec![0xee, 0x1b, 255, 255, 255, 255, 255, 255, 255, 255]);

    let int = |v: i64| {
        let mut out = Vec::new();
        push_int(&mut out, v);
        out
    };
    assert_eq!(int(10), vec![0x0a]);
    assert_eq!(int(-1), vec![0x20]);
    assert_eq!(int(-25), vec![0x38, 0x18]);
    assert_eq!(int(i64::MIN), vec![0x3b, 0x7f, 255, 255, 255, 255, 255, 255, 255]);

    let mut out = Vec::new();
    push_bytes(&mut out, &vec![1, 2, 3]);
    assert_eq!(out, vec![0x43, 1, 2, 3]);

    let mut out = Vec::new();
    push_link(&mut out, &vec![9, 8]);
    assert_eq!(out, vec![0xd8, 0x2a, 0x43, 0, 9, 8]);

    let mut out = Vec::new();
    push_array(&mut out, &vec![1u64, 500]);
    assert_eq!(out, vec![0x82, 0x01, 0x19, 0x01, 0xf4]);
}

#[test]
fn canonical_bytes_of_values() {
    let sub = SubnetID::from_str("/root/f0101").unwrap();
    assert_eq!(sub.to_bytes_for_test(), vec![0x81, 0x18, 101]);
    assert_eq!(SubnetID::root().to_bytes_for_test(), vec![0x80]);

    let id = Address::new_id(1);
    assert_eq!(id.to_bytes(), vec![0x82, 0x00, 0x01]);
    let bls = Address::new_bls(&vec![5; 48]).unwrap();
    let mut expected = vec![0x82, 0x03, 0x58, 48];
    expected.extend(vec![5; 48]);
    assert_eq!(bls.to_bytes(), expected);
    let inside = Address::new_hierarchical(&sub, &id).unwrap();
    assert_eq!(inside.to_bytes(), vec![0x82, 0x81, 0x18, 101, 0x82, 0x00, 0x01]);
    assert_eq!(Payload::Actor(vec![1, 2]).to_bytes_for_test(), vec![0x82, 0x02, 0x42, 1, 2]);

    // amounts are written as the two's-complement bytes of their units
    let amount = |v: i64| {
        let mut out = Vec::new();
        push_amount(&mut out, &TokenAmount::from_atto(v));
        out
    };
    assert_eq!(amount(256), vec![0x42, 0x01, 0x00]);
    assert_eq!(amount(1), vec![0x41, 0x01]);
    assert_eq!(amount(-1), vec![0x41, 0xff]);
    assert_eq!(amount(128), vec![0x42, 0x00, 0x80]);

    let mut msg = StorableMsg::default();
    msg.method = 2;
    msg.params = vec![7];
    msg.value = TokenAmount::from_atto(3);
    msg.nonce = 4;
    assert_eq!(
        msg.to_bytes_for_test(),
        vec![0x86, 0x82, 0, 0, 0x82, 0, 0, 0x02, 0x41, 7, 0x41, 3, 0x04]
    );

    let lock = LockParams::new(5, vec![1]);
    assert_eq!(lock.to_bytes_for_test(), vec![0x82, 0x05, 0x41, 1]);
    let unlock = UnlockParams::new(lock, SerializedState::new(vec![9, 9]));
    assert_eq!(unlock.to_bytes(), vec![0x82, 0x82, 0x05, 0x41, 1, 0x81, 0x42, 9, 9]);
}

#[test]
fn identifiers_are_hashes() {
    // BLAKE2b-256 of the empty string, as a version 1 DAG-CBOR identifier
    let empty = Cid::of(&Vec::new());
    let bytes = empty.to_bytes();
    assert_eq!(bytes.len(), 38);
    assert_eq!(&bytes[..6], &[0x01, 0x71, 0xa0, 0xe4, 0x02, 0x20]);
    assert_eq!(
        &bytes[6..],
        &[
            0x0e, 0x57, 0x51, 0xc0, 0x26, 0xe5, 0x43, 0xb2, 0xe8, 0xab, 0x2e, 0xb0, 0x60, 0x99,
            0xda, 0xa1, 0xd1, 0xe5, 0xdf, 0x47, 0x77, 0x8f, 0x77, 0x87, 0xfa, 0xab, 0x45, 0xcd,
            0xf1, 0x2f, 0xe3, 0xa8
        ]
    );
    let data = b"test1".to_vec();
    let cid = Cid::of(&data);
    assert_ne!(cid.to_bytes(), data);
    assert_eq!(cid, Cid::of(&b"test1".to_vec()));
    assert_ne!(cid, Cid::of(&b"test2".to_vec()));
    assert_ne!(cid, empty);
    assert_eq!(Cid::from_bytes(cid.to_bytes()), cid);
    assert_eq!(cid.clone(), cid);
    assert!(Cid::undefined().is_undefined());
    assert!(Cid::default().is_undefined());
    assert!(!cid.is_undefined());
    assert_eq!(SerializedState::new(data.clone()).cid(), cid);
    assert_eq!(SerializedState::new(data.clone()).bytes(), data);
    assert!(bytes_eq(&data, &bytes_clone(&data)));
    assert!(!bytes_eq(&data, &vec![1]));
    assert!(!bytes_eq(&vec![1, 2], &vec![1, 3]));
}

#[test]
fn checkpoint_identifier_follows_content() {
    let sub = SubnetID::from_str("/root/f0101").unwrap();
    let a = Checkpoint::new(sub.clone(), 19);
    let b = Checkpoint::new(sub.clone(), 19);
    assert_eq!(a.cid(), b.cid());
    assert_ne!(a.cid(), Checkpoint::new(sub.clone(), 21).cid());
    assert_ne!(a.cid(), Checkpoint::new(SubnetID::root(), 19).cid());
    let mut c = Checkpoint::new(sub.clone(), 19);
    c.data.prev_check = a.cid();
    assert_ne!(c.cid(), a.cid());
    assert_eq!(a.source(), &sub);
    assert_eq!(a.epoch(), 19);
    assert!(a.prev_check().is_undefined());
    assert!(a.cross_msgs().is_empty());
    // the identifier is that of the canonical bytes: source, epoch, link, children, metas
    let bytes = vec![0x85, 0x81, 0x18, 101, 0x13, 0xd8, 0x2a, 0x41, 0x00, 0x80, 0x80];
    assert_eq!(a.cid(), Cid::of(&bytes));
}

#[test]
fn checkpoint_metas_stand_in_order() {
    let root = SubnetID::root();
    let a = SubnetID::from_str("/root/f01").unwrap();
    let b = SubnetID::from_str("/root/f02").unwrap();
    let mut ch = Checkpoint::new(root.clone(), 10);
    assert_eq!(ch.append_msgmeta(CrossMsgMeta::new(&b, &a)), Ok(()));
    assert_eq!(ch.append_msgmeta(CrossMsgMeta::new(&a, &b)), Ok(()));
    assert_eq!(ch.append_msgmeta(CrossMsgMeta::new(&a, &root)), Ok(()));
    assert_eq!(ch.append_msgmeta(CrossMsgMeta::new(&a, &b)), Err(CheckpointError::DuplicateMeta));
    let routes: Vec<(SubnetID, SubnetID)> =
        ch.data.cross_msgs.iter().map(|m| (m.from.clone(), m.to.clone())).collect();
    assert_eq!(
        routes,
        vec![(a.clone(), root.clone()), (a.clone(), b.clone()), (b.clone(), a.clone())]
    );
    assert_eq!(ch.crossmsg_meta_index(&a, &b), Some(1));
    assert_eq!(ch.crossmsg_meta_index(&b, &b), None);
    assert!(ch.crossmsg_meta(&b, &a).is_some());
    assert!(ch.crossmsg_meta(&root, &a).is_none());
    let meta = CrossMsgMeta::new(&a, &b);
    assert!(meta.same(&meta.clone()));
    assert!(!meta.same(&CrossMsgMeta::new(&b, &a)));
    assert!(meta.msgs_cid.is_undefined());
    assert_eq!(meta.value, TokenAmount::from_atto(0));
}

#[test]
fn child_checks_are_a_set() {
    let a = SubnetID::from_str("/root/f01").unwrap();
    let b = SubnetID::from_str("/root/f02").unwrap();
    let mut window = Checkpoint::new(SubnetID::root(), 10);
    let c1 = Checkpoint::new(b.clone(), 5);
    let c2 = Checkpoint::new(a.clone(), 5);
    let c3 = Checkpoint::new(a.clone(), 6);
    assert_eq!(window.add_child_check(&c1), Ok(()));
    assert_eq!(window.add_child_check(&c2), Ok(()));
    assert_eq!(window.add_child_check(&c3), Ok(()));
    assert_eq!(window.add_child_check(&c2), Err(CheckpointError::DuplicateCheck));
    assert_eq!(window.add_child_check(&c1), Err(CheckpointError::DuplicateCheck));
    // the children stand in the order of their sources
    assert_eq!(window.data.children.len(), 2);
    assert_eq!(window.data.children[0].source, a);
    assert_eq!(window.data.children[0].checks, vec![c2.cid(), c3.cid()]);
    assert_eq!(window.data.children[1].source, b);
    assert_eq!(window.data.children[1].checks, vec![c1.cid()]);
}

#[test]
fn cross_msgs_content() {
    let a = SubnetID::from_str("/root/f01").unwrap();
    let b = SubnetID::from_str("/root/f02").unwrap();
    let mut content = CrossMsgs::new();
    let empty_cid = content.cid();
    assert_eq!(empty_cid, CrossMsgs::default().cid());
    // the identifier is that of the record of the roots of two empty arrays
    let mut store = fil_actor_hierarchical_sca::tcid::new_store();
    let tag = fil_actor_hierarchical_sca::cross::MetaTag::new(&mut store).unwrap();
    assert_eq!(empty_cid, Cid::of(&tag.to_bytes()));
    let m1 = CrossMsgMeta::new(&a, &b);
    let m2 = CrossMsgMeta::new(&b, &a);
    content.add_metas(&vec![m1.clone(), m2.clone(), m1.clone()]);
    assert_eq!(content.metas.len(), 2);
    content.add_metas(&vec![m2.clone()]);
    assert_eq!(content.metas.len(), 2);
    assert!(content.metas[0].same(&m1) && content.metas[1].same(&m2));
    assert_ne!(content.cid(), empty_cid);
    // messages are kept as often as they are added
    let msg = StorableMsg::default();
    content.add_msg(&msg);
    content.add_msg(&msg);
    assert_eq!(content.msgs.len(), 2);
    assert_eq!(content.metas.len(), 2);
}

#[test]
fn subnet_steps() {
    let min = TokenAmount::from_atto(10);
    let mut sub = Subnet::new(SubnetID::from_str("/root/f01").unwrap(), TokenAmount::from_atto(10), &min);
    assert_eq!(sub.status, Status::Active);
    assert_eq!(sub.nonce, 0);
    sub.add_stake(&min, &TokenAmount::from_atto(-1));
    assert_eq!(sub.stake, TokenAmount::from_atto(9));
    assert_eq!(sub.status, Status::Inactive);
    sub.add_stake(&min, &TokenAmount::from_atto(1));
    assert_eq!(sub.status, Status::Active);

    assert_eq!(sub.release_supply(&TokenAmount::from_atto(1)), Err(SubnetError::InsufficientSupply));
    sub.circ_supply = TokenAmount::from_atto(5);
    assert_eq!(sub.release_supply(&TokenAmount::from_atto(5)), Ok(()));
    assert_eq!(sub.circ_supply, TokenAmount::from_atto(0));

    let mut msg = StorableMsg::default();
    msg.nonce = 1;
    assert_eq!(sub.store_topdown_msg(&msg), Err(SubnetError::NonceMismatch));
    msg.nonce = 0;
    assert_eq!(sub.store_topdown_msg(&msg), Ok(()));
    assert_eq!(sub.top_down_msgs.len(), 1);
    assert_eq!(sub.store_topdown_msg(&msg), Err(SubnetError::NonceMismatch));

    let poor = Subnet::new(SubnetID::root(), TokenAmount::from_atto(9), &min);
    assert_eq!(poor.status, Status::Inactive);
}

#[test]
fn token_helpers() {
    assert_eq!(token_zero(), TokenAmount::from_atto(0));
    assert!(!token_is_positive(&token_zero()));
    assert!(token_is_positive(&TokenAmount::from_atto(1)));
    assert!(!token_is_positive(&TokenAmount::from_atto(-1)));
    assert!(token_le(&TokenAmount::from_atto(1), &TokenAmount::from_atto(1)));
    assert!(token_le(&TokenAmount::from_atto(-5), &TokenAmount::from_atto(1)));
    assert!(!token_le(&TokenAmount::from_atto(2), &TokenAmount::from_atto(1)));
    // amounts beyond 64 bits are exact
    let big = TokenAmount::from_atto(u64::MAX);
    let mut sub = Subnet::new(SubnetID::root(), big.clone(), &token_zero());
    sub.add_stake(&token_zero(), &big);
    assert_eq!(sub.stake, TokenAmount::from_atto(2 * (u64::MAX as u128)));
}

fn input(subnet: &str, id: u64) -> ExecInput {
    ExecInput {
        addr: Address::new_hierarchical(&SubnetID::from_str(subnet).unwrap(), &Address::new_id(id))
            .unwrap(),
        info: LockedStateInfo { cid: Cid::of(&vec![id as u8]), actor: Address::new_id(900 + id) },
    }
}

#[test]
fn common_parent_of_inputs() {
    let at = |s: &str, inputs: &Vec<ExecInput>| {
        is_common_parent(&SubnetID::from_str(s).unwrap(), inputs)
    };
    let two = vec![input("/root/f01/f02", 1), input("/root/f01/f03", 2)];
    assert_eq!(at("/root/f01", &two), Ok(true));
    assert_eq!(at("/root", &two), Ok(false));
    assert_eq!(at("/root/f01/f02", &two), Ok(false));
    let three = vec![input("/root/f01/f02", 1), input("/root/f01/f03", 2), input("/root/f04", 3)];
    assert_eq!(at("/root", &three), Ok(true));
    assert_eq!(at("/root/f01", &three), Ok(false));
    let one = vec![input("/root/f01/f02", 1)];
    assert_eq!(at("/root/f01/f02", &one), Ok(true));
    assert_eq!(at("/root", &Vec::new()), Err(ExecError::NoInputs));
    let mut raw = input("/root/f01", 1);
    raw.addr = Address::new_id(1);
    assert_eq!(at("/root", &vec![raw]), Err(ExecError::NotHierarchical));
    let mut later = two;
    later.push(ExecInput {
        addr: Address::new_id(1),
        info: LockedStateInfo { cid: Cid::undefined(), actor: Address::new_id(1) },
    });
    assert_eq!(at("/root", &later), Err(ExecError::NotHierarchical));
}

#[test]
fn parties_of_an_execution() {
    let inputs = vec![input("/root/f01/f02", 1), input("/root/f01/f03", 2)];
    assert!(is_addr_in_exec(&Address::new_id(1), &inputs));
    assert!(is_addr_in_exec(&Address::new_id(2), &inputs));
    assert!(!is_addr_in_exec(&Address::new_id(3), &inputs));
    assert!(!is_addr_in_exec(&inputs[0].addr, &inputs));
}

#[test]
fn inputs_are_named_by_ids() {
    let sn = SubnetID::from_str("/root/f01").unwrap();
    let bls = Address::new_bls(&vec![3; 48]).unwrap();
    let raw = || AtomicExecParamsRaw {
        msgs: vec![StorableMsg::default()],
        inputs: vec![
            ExecInput {
                addr: Address::new_hierarchical(&sn, &bls).unwrap(),
                info: LockedStateInfo { cid: Cid::of(&vec![1]), actor: Address::new_id(7) },
            },
            input("/root/f02", 5),
        ],
    };
    let cid = raw().cid().unwrap();
    assert_eq!(cid, raw().cid().unwrap());
    let resolved = raw().input_into_ids(&vec![Some(44), Some(5)]).unwrap();
    assert_eq!(resolved.msgs.len(), 1);
    assert_eq!(resolved.inputs.len(), 2);
    assert_eq!(
        resolved.inputs[0].addr,
        Address::new_hierarchical(&sn, &Address::new_id(44)).unwrap()
    );
    assert_eq!(resolved.inputs[0].info.actor, Address::new_id(7));
    assert_eq!(resolved.inputs[0].info.cid, Cid::of(&vec![1]));
    assert_eq!(resolved.inputs[1].addr, input("/root/f02", 5).addr);

    assert_eq!(raw().input_into_ids(&vec![Some(44)]).unwrap_err(), ExecError::Unresolved);
    assert_eq!(raw().input_into_ids(&vec![Some(44), None]).unwrap_err(), ExecError::Unresolved);
    let mut twice = raw();
    twice.inputs[1].addr = Address::new_hierarchical(&sn, &Address::new_id(5)).unwrap();
    assert_eq!(
        twice.input_into_ids(&vec![Some(5), Some(5)]).unwrap_err(),
        ExecError::DuplicateInput
    );
    let mut unwrapped = raw();
    unwrapped.inputs[0].addr = bls.clone();
    assert_eq!(
        unwrapped.input_into_ids(&vec![Some(1), Some(5)]).unwrap_err(),
        ExecError::NotHierarchical
    );
    // the identifier depends on the parameters
    let mut other = raw();
    other.msgs[0].nonce = 1;
    assert_ne!(other.cid().unwrap(), cid);
    let mut other = raw();
    other.inputs[1].info.actor = Address::new_id(8);
    assert_ne!(other.cid().unwrap(), cid);
    // and not on the order of the parties
    let mut turned = raw();
    turned.inputs.reverse();
    assert_eq!(turned.cid().unwrap(), cid);
}

#[test]
fn submissions_are_read_back() {
    let p = SubmitExecParams {
        cid: Cid::of(&b"exec".to_vec()),
        abort: false,
        output: SerializedState::new(b"testOutput".to_vec()),
    };
    let bytes = p.to_bytes();
    let back = SubmitExecParams::from_bytes(&bytes).unwrap();
    assert_eq!(back.cid, p.cid);
    assert_eq!(back.abort, false);
    assert_eq!(back.output.bytes(), b"testOutput".to_vec());

    let abort = SubmitExecParams {
        cid: Cid::undefined(),
        abort: true,
        output: SerializedState::default(),
    };
    let bytes = abort.to_bytes();
    assert_eq!(bytes, vec![0x83, 0xd8, 0x2a, 0x41, 0x00, 0xf5, 0x81, 0x40]);
    let back = SubmitExecParams::from_bytes(&bytes).unwrap();
    assert!(back.cid.is_undefined());
    assert!(back.abort);
    assert!(back.output.bytes().is_empty());

    assert!(SubmitExecParams::from_bytes(&Vec::new()).is_none());
    assert!(SubmitExecParams::from_bytes(&vec![0x83]).is_none());
    assert!(SubmitExecParams::from_bytes(&vec![0x82, 0xd8, 0x2a, 0x41, 0x00, 0xf5]).is_none());
    // something behind the submission
    let mut long = bytes.clone();
    long.push(0);
    assert!(SubmitExecParams::from_bytes(&long).is_none());
    // a truth value that is none
    let mut bad = bytes.clone();
    bad[5] = 0xf6;
    assert!(SubmitExecParams::from_bytes(&bad).is_none());
    // a link without its zero byte
    assert!(SubmitExecParams::from_bytes(&vec![0x83, 0xd8, 0x2a, 0x41, 0x01, 0xf5, 0x81, 0x40])
        .is_none());
}

#[test]
fn heads_are_read() {
    assert_eq!(read_head(&vec![0x17], 0), Some((0, 23, 1)));
    assert_eq!(read_head(&vec![0x18, 0x18], 0), Some((0, 24, 2)));
    assert_eq!(read_head(&vec![0x00, 0x59, 0x01, 0x02], 1), Some((2, 258, 4)));
    assert_eq!(read_head(&vec![0x9a, 0, 1, 0, 0], 0), Some((4, 65536, 5)));
    assert_eq!(
        read_head(&vec![0x1b, 255, 255, 255, 255, 255, 255, 255, 255], 0),
        Some((0, u64::MAX, 9))
    );
    assert_eq!(read_head(&vec![0x18], 0), None);
    assert_eq!(read_head(&vec![0x1c], 0), None);
    assert_eq!(read_head(&vec![0x1f, 0], 0), None);
    assert_eq!(read_head(&vec![0x00], 1), None);
    assert_eq!(read_bytes(&vec![0x42, 7, 8, 9], 0), Some((vec![7, 8], 3)));
    assert_eq!(read_bytes(&vec![0x42, 7], 0), None);
    assert_eq!(read_bytes(&vec![0x02], 0), None);
    assert_eq!(read_link(&vec![0xd8, 0x2a, 0x42, 0, 5], 0), Some((Cid::from_bytes(vec![5]), 5)));
    assert_eq!(read_link(&vec![0xd8, 0x2b, 0x42, 0, 5], 0), None);
    assert_eq!(read_link(&vec![0xd8, 0x2a, 0x40], 0), None);
}

#[test]
fn errors_have_exit_codes() {
    assert_eq!(ActorError::Forbidden.exit_code(), ExitCode::UsrForbidden);
    assert_eq!(ActorError::AlreadyRegistered.exit_code(), ExitCode::UsrIllegalArgument);
    assert_eq!(ActorError::SubnetNotRegistered.exit_code(), ExitCode::UsrIllegalArgument);
    assert_eq!(ActorError::DuplicateCheckpoint.exit_code(), ExitCode::UsrIllegalArgument);
    assert_eq!(ActorError::PrevCheckMismatch.exit_code(), ExitCode::UsrIllegalArgument);
    assert_eq!(ActorError::StakeExceeded.exit_code(), ExitCode::UsrIllegalState);
    assert_eq!(ActorError::SupplyNotEmpty.exit_code(), ExitCode::UsrIllegalState);
    assert_eq!(ActorError::NonceMismatch.exit_code(), ExitCode::UsrIllegalState);
    assert_eq!(ActorError::ExecFinalized.exit_code(), ExitCode::UsrIllegalState);
    assert_eq!(ActorError::AlreadySubmitted.exit_code(), ExitCode::UsrIllegalArgument);
    assert_eq!(ActorError::UnhandledMessage.exit_code(), ExitCode::UsrUnhandledMessage);
}

#[test]
fn messages_are_read_back() {
    let sub = SubnetID::from_str("/root/f0101/f024").unwrap();
    let mut msg = StorableMsg::default();
    msg.from = Address::new_hierarchical(&sub, &Address::new_bls(&vec![9; 48]).unwrap()).unwrap();
    msg.to = Address::new_hierarchical(&SubnetID::root(), &Address::new_id(70000)).unwrap();
    msg.method = 300;
    msg.params = vec![1, 2, 3];
    msg.value = TokenAmount::from_atto(10_u64.pow(18));
    msg.nonce = u64::MAX;
    let bytes = msg.to_bytes();
    let back = StorableMsg::from_bytes(&bytes).unwrap();
    assert_eq!(back.from, msg.from);
    assert_eq!(back.to, msg.to);
    assert_eq!(back.method, msg.method);
    assert_eq!(back.params, msg.params);
    assert_eq!(back.value, msg.value);
    assert_eq!(back.nonce, msg.nonce);
    // the direction does not change on the way
    for curr in ["/root", "/root/f0101", "/root/f0101/f024", "/root/f07"] {
        let curr = SubnetID::from_str(curr).unwrap();
        assert_eq!(back.apply_type(&curr), msg.apply_type(&curr));
    }
    assert_eq!(back.hc_type(), Ok(HCMsgType::BottomUp));

    let raw = StorableMsg::default();
    let back = StorableMsg::from_bytes(&raw.to_bytes()).unwrap();
    assert_eq!(back.from, raw.from);
    assert_eq!(back.value, raw.value);
    let mut negative = StorableMsg::default();
    negative.value = TokenAmount::from_atto(-129);
    negative.from = Address::new_secp256k1_hash(&vec![1; 20]).unwrap();
    negative.to = Address::new_actor_hash(&vec![2; 20]).unwrap();
    let back = StorableMsg::from_bytes(&negative.to_bytes()).unwrap();
    assert_eq!(back.value, negative.value);
    assert_eq!(back.from, negative.from);
    assert_eq!(back.to, negative.to);

    assert!(StorableMsg::from_bytes(&Vec::new()).is_none());
    assert!(StorableMsg::from_bytes(&vec![0x86]).is_none());
    let mut long = bytes.clone();
    long.push(0);
    assert!(StorableMsg::from_bytes(&long).is_none());
    let mut short = bytes.clone();
    short.pop();
    assert!(StorableMsg::from_bytes(&short).is_none());
    // a protocol that is none
    assert!(StorableMsg::from_bytes(&vec![
        0x86, 0x82, 4, 0, 0x82, 0, 0, 0x02, 0x41, 7, 0x41, 3, 0x04
    ])
    .is_none());
    // a path that is longer than its bytes
    assert!(StorableMsg::from_bytes(&vec![0x86, 0x82, 0x9b, 255, 255, 255, 255, 255, 255, 255, 255, 1])
        .is_none());
}

#[test]
fn unlock_parameters_are_read_back() {
    let unlock = UnlockParams::new(LockParams::new(5, vec![1, 2]), SerializedState::new(vec![9]));
    let bytes = unlock.to_bytes();
    let back = UnlockParams::from_raw_bytes(&bytes).unwrap();
    assert_eq!(back.params.method, 5);
    assert_eq!(back.params.params, vec![1, 2]);
    assert_eq!(back.state.bytes(), vec![9]);
    assert!(UnlockParams::from_raw_bytes(&vec![0x82, 0x82, 0x05, 0x41, 1, 0x81]).is_none());
    assert!(UnlockParams::from_raw_bytes(&vec![0x82, 0x82, 0x25, 0x41, 1, 0x81, 0x40]).is_none());
    let mut long = bytes;
    long.push(1);
    assert!(UnlockParams::from_raw_bytes(&long).is_none());
}
