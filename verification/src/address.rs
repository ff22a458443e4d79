//! Addresses of actors, alone or inside a subnet.
//!
//! A raw address names an actor by its id or by a key. A hierarchical address
//! pairs a subnet with a raw address; it never wraps another hierarchical
//! address.

use crate::encoding::{
    cbor_array, cbor_array_head, cbor_bytes, cbor_uint, push_array, push_array_head, push_bytes,
    push_uint, Encode,
};
use crate::hash::{bytes_clone, bytes_eq};
use crate::subnet_id::SubnetID;
use vstd::prelude::*;

verus! {

/// Length of the key hash of a secp256k1 or actor address.
pub const PAYLOAD_HASH_LEN: usize = 20;

/// Length of a BLS public key.
pub const BLS_PUB_LEN: usize = 48;

/// Id of the system actor.
pub const SYSTEM_ACTOR_ID: u64 = 0;

/// Id of the reward actor, which mints.
pub const REWARD_ACTOR_ID: u64 = 2;

/// Id of the subnet coordinator actor itself.
pub const SCA_ACTOR_ID: u64 = 64;

/// Id of the burn sink.
pub const BURNT_FUNDS_ACTOR_ID: u64 = 99;

/// What a raw address holds.
#[derive(Debug)]
pub enum Payload {
    /// An actor id.
    ID(u64),
    /// The hash of a secp256k1 public key.
    Secp256k1(Vec<u8>),
    /// The hash that names an actor.
    Actor(Vec<u8>),
    /// A BLS public key.
    BLS(Vec<u8>),
}

/// A payload as a mathematical value.
pub enum PayloadView {
    ID(u64),
    Secp256k1(Seq<u8>),
    Actor(Seq<u8>),
    BLS(Seq<u8>),
}

/// An address: raw, or hierarchical where `subnet` is present.
#[derive(Debug)]
pub struct Address {
    /// The subnet of a hierarchical address.
    pub subnet: Option<SubnetID>,
    /// The raw address.
    pub payload: Payload,
}

/// An address as a mathematical value.
pub struct AddressView {
    pub subnet: Option<Seq<u64>>,
    pub payload: PayloadView,
}

/// Why an address was refused.
#[derive(Debug, Clone, Copy, PartialEq, Eq, Structural)]
pub enum AddressError {
    /// A hierarchical address was given where a raw one is needed.
    InvalidPayload,
    /// A raw address was given where a hierarchical one is needed.
    NotHierarchical,
    /// The address does not hold an actor id.
    NonIDAddress,
    /// The key has the wrong length.
    InvalidLength,
    /// The root network has no parent.
    NoParent,
}

impl View for Payload {
    type V = PayloadView;

    open spec fn view(&self) -> PayloadView {
        match self {
            Payload::ID(id) => PayloadView::ID(*id),
            Payload::Secp256k1(k) => PayloadView::Secp256k1(k@),
            Payload::Actor(k) => PayloadView::Actor(k@),
            Payload::BLS(k) => PayloadView::BLS(k@),
        }
    }
}

impl PayloadView {
    /// The number of the protocol.
    pub open spec fn protocol(self) -> u64 {
        match self {
            PayloadView::ID(_) => 0,
            PayloadView::Secp256k1(_) => 1,
            PayloadView::Actor(_) => 2,
            PayloadView::BLS(_) => 3,
        }
    }

    /// The canonical byte form: the protocol and the id or key.
    pub open spec fn encoding(self) -> Seq<u8> {
        cbor_array_head(2) + cbor_uint(self.protocol()) + match self {
            PayloadView::ID(id) => cbor_uint(id),
            PayloadView::Secp256k1(k) => cbor_bytes(k),
            PayloadView::Actor(k) => cbor_bytes(k),
            PayloadView::BLS(k) => cbor_bytes(k),
        }
    }
}

impl Payload {
    /// Whether two payloads are the same.
    pub fn same(&self, other: &Payload) -> (r: bool)
        ensures
            r == (self@ == other@),
    {
        match (self, other) {
            (Payload::ID(a), Payload::ID(b)) => *a == *b,
            (Payload::Secp256k1(a), Payload::Secp256k1(b)) => bytes_eq(a, b),
            (Payload::Actor(a), Payload::Actor(b)) => bytes_eq(a, b),
            (Payload::BLS(a), Payload::BLS(b)) => bytes_eq(a, b),
            _ => false,
        }
    }
}

impl Clone for Payload {
    fn clone(&self) -> (r: Payload)
        ensures
            r@ == self@,
    {
        match self {
            Payload::ID(id) => Payload::ID(*id),
            Payload::Secp256k1(k) => Payload::Secp256k1(bytes_clone(k)),
            Payload::Actor(k) => Payload::Actor(bytes_clone(k)),
            Payload::BLS(k) => Payload::BLS(bytes_clone(k)),
        }
    }
}

impl Encode for u64 {
    open spec fn encoding(&self) -> Seq<u8> {
        cbor_uint(*self)
    }

    fn encode(&self, out: &mut Vec<u8>) {
        push_uint(out, *self);
    }
}

impl Encode for Payload {
    open spec fn encoding(&self) -> Seq<u8> {
        self@.encoding()
    }

    fn encode(&self, out: &mut Vec<u8>) {
        let ghost before = out@;
        push_array_head(out, 2);
        match self {
            Payload::ID(id) => {
                push_uint(out, 0);
                push_uint(out, *id);
            },
            Payload::Secp256k1(k) => {
                push_uint(out, 1);
                push_bytes(out, k);
            },
            Payload::Actor(k) => {
                push_uint(out, 2);
                push_bytes(out, k);
            },
            Payload::BLS(k) => {
                push_uint(out, 3);
                push_bytes(out, k);
            },
        }
        assert(out@ =~= before + self.encoding());
    }
}

impl Encode for SubnetID {
    open spec fn encoding(&self) -> Seq<u8> {
        cbor_array(self@)
    }

    fn encode(&self, out: &mut Vec<u8>) {
        push_array(out, &self.children);
    }
}

impl View for Address {
    type V = AddressView;

    open spec fn view(&self) -> AddressView {
        AddressView {
            subnet: match self.subnet {
                Some(s) => Some(s@),
                None => None,
            },
            payload: self.payload@,
        }
    }
}

impl AddressView {
    /// The raw address with actor id `id`.
    pub open spec fn id(id: u64) -> AddressView {
        AddressView { subnet: None, payload: PayloadView::ID(id) }
    }

    /// Whether the address is hierarchical.
    pub open spec fn is_hierarchical(self) -> bool {
        self.subnet is Some
    }

    /// The raw address inside.
    pub open spec fn raw(self) -> AddressView {
        AddressView { subnet: None, payload: self.payload }
    }

    /// This raw address inside `subnet`.
    pub open spec fn within(self, subnet: Seq<u64>) -> AddressView {
        AddressView { subnet: Some(subnet), payload: self.payload }
    }

    /// The canonical byte form: the payload's for a raw address, the pair of
    /// subnet and payload for a hierarchical one.
    pub open spec fn encoding(self) -> Seq<u8> {
        match self.subnet {
            None => self.payload.encoding(),
            Some(s) => cbor_array_head(2) + cbor_array(s) + self.payload.encoding(),
        }
    }
}

impl Address {
    /// The raw address of the actor with id `id`.
    pub fn new_id(id: u64) -> (r: Address)
        ensures
            r@ == AddressView::id(id),
    {
        Address { subnet: None, payload: Payload::ID(id) }
    }

    /// The raw address of a BLS public key, which has 48 bytes.
    pub fn new_bls(pubkey: &Vec<u8>) -> (r: Result<Address, AddressError>)
        ensures
            pubkey@.len() == BLS_PUB_LEN ==> r is Ok && r->Ok_0@ == (AddressView {
                subnet: None,
                payload: PayloadView::BLS(pubkey@),
            }),
            pubkey@.len() != BLS_PUB_LEN ==> r == Err::<Address, AddressError>(
                AddressError::InvalidLength,
            ),
    {
        if pubkey.len() != BLS_PUB_LEN {
            return Err(AddressError::InvalidLength);
        }
        Ok(Address { subnet: None, payload: Payload::BLS(bytes_clone(pubkey)) })
    }

    /// The raw address of the 20-byte hash of a secp256k1 public key.
    pub fn new_secp256k1_hash(hash: &Vec<u8>) -> (r: Result<Address, AddressError>)
        ensures
            hash@.len() == PAYLOAD_HASH_LEN ==> r is Ok && r->Ok_0@ == (AddressView {
                subnet: None,
                payload: PayloadView::Secp256k1(hash@),
            }),
            hash@.len() != PAYLOAD_HASH_LEN ==> r == Err::<Address, AddressError>(
                AddressError::InvalidLength,
            ),
    {
        if hash.len() != PAYLOAD_HASH_LEN {
            return Err(AddressError::InvalidLength);
        }
        Ok(Address { subnet: None, payload: Payload::Secp256k1(bytes_clone(hash)) })
    }

    /// The raw address of the 20-byte hash that names an actor.
    pub fn new_actor_hash(hash: &Vec<u8>) -> (r: Result<Address, AddressError>)
        ensures
            hash@.len() == PAYLOAD_HASH_LEN ==> r is Ok && r->Ok_0@ == (AddressView {
                subnet: None,
                payload: PayloadView::Actor(hash@),
            }),
            hash@.len() != PAYLOAD_HASH_LEN ==> r == Err::<Address, AddressError>(
                AddressError::InvalidLength,
            ),
    {
        if hash.len() != PAYLOAD_HASH_LEN {
            return Err(AddressError::InvalidLength);
        }
        Ok(Address { subnet: None, payload: Payload::Actor(bytes_clone(hash)) })
    }

    /// The raw address `raw` inside `subnet`. A hierarchical `raw` is refused:
    /// hierarchical addresses do not nest.
    pub fn new_hierarchical(subnet: &SubnetID, raw: &Address) -> (r: Result<Address, AddressError>)
        ensures
            !raw@.is_hierarchical() ==> r is Ok && r->Ok_0@ == raw@.within(subnet@),
            raw@.is_hierarchical() ==> r == Err::<Address, AddressError>(
                AddressError::InvalidPayload,
            ),
    {
        if raw.subnet.is_some() {
            return Err(AddressError::InvalidPayload);
        }
        Ok(Address { subnet: Some(subnet.clone()), payload: raw.payload.clone() })
    }

    /// Whether the address is hierarchical.
    pub fn is_hierarchical(&self) -> (r: bool)
        ensures
            r == self@.is_hierarchical(),
    {
        self.subnet.is_some()
    }

    /// The subnet of a hierarchical address.
    pub fn subnet(&self) -> (r: Result<SubnetID, AddressError>)
        ensures
            match self@.subnet {
                Some(s) => r is Ok && r->Ok_0@ == s,
                None => r == Err::<SubnetID, AddressError>(AddressError::NotHierarchical),
            },
    {
        match &self.subnet {
            Some(s) => Ok(s.clone()),
            None => Err(AddressError::NotHierarchical),
        }
    }

    /// The raw address inside a hierarchical address.
    pub fn raw_addr(&self) -> (r: Result<Address, AddressError>)
        ensures
            self@.is_hierarchical() ==> r is Ok && r->Ok_0@ == self@.raw(),
            !self@.is_hierarchical() ==> r == Err::<Address, AddressError>(
                AddressError::NotHierarchical,
            ),
    {
        if self.subnet.is_none() {
            return Err(AddressError::NotHierarchical);
        }
        Ok(Address { subnet: None, payload: self.payload.clone() })
    }

    /// The actor id of a raw id address.
    pub fn id(&self) -> (r: Result<u64, AddressError>)
        ensures
            match r {
                Ok(id) => self@ == AddressView::id(id),
                Err(e) => e == AddressError::NonIDAddress && !(self@.subnet is None
                    && self@.payload is ID),
            },
    {
        if self.subnet.is_some() {
            return Err(AddressError::NonIDAddress);
        }
        match &self.payload {
            Payload::ID(id) => Ok(*id),
            _ => Err(AddressError::NonIDAddress),
        }
    }

    /// The canonical byte form.
    pub fn to_bytes(&self) -> (r: Vec<u8>)
        ensures
            r@ == self@.encoding(),
    {
        let mut out: Vec<u8> = Vec::new();
        self.encode(&mut out);
        assert(out@ =~= self@.encoding());
        out
    }
}

impl Encode for Address {
    open spec fn encoding(&self) -> Seq<u8> {
        self@.encoding()
    }

    fn encode(&self, out: &mut Vec<u8>) {
        let ghost before = out@;
        match &self.subnet {
            None => {
                self.payload.encode(out);
            },
            Some(s) => {
                push_array_head(out, 2);
                s.encode(out);
                self.payload.encode(out);
            },
        }
        assert(out@ =~= before + self.encoding());
    }
}

impl Clone for Address {
    fn clone(&self) -> (r: Address)
        ensures
            r@ == self@,
    {
        Address {
            subnet: match &self.subnet {
                Some(s) => Some(s.clone()),
                None => None,
            },
            payload: self.payload.clone(),
        }
    }
}

impl PartialEq for Address {
    fn eq(&self, other: &Address) -> (r: bool) {
        let same_subnet = match (&self.subnet, &other.subnet) {
            (Some(a), Some(b)) => a == b,
            (None, None) => true,
            _ => false,
        };
        same_subnet && self.payload.same(&other.payload)
    }
}

impl vstd::std_specs::cmp::PartialEqSpecImpl for Address {
    open spec fn obeys_eq_spec() -> bool {
        true
    }

    open spec fn eq_spec(&self, other: &Address) -> bool {
        self@ == other@
    }
}

} // verus!
