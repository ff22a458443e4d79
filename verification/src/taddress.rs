//! Addresses whose kind is part of their type.

use crate::address::{Address, AddressError, AddressView};
use crate::subnet_id::SubnetID;
use std::marker::PhantomData;
use vstd::prelude::*;

verus! {

/// A kind of address.
pub trait AddressType {
    /// Whether an address is of this kind.
    spec fn admits(a: AddressView) -> bool;

    /// Whether an address is of this kind.
    fn is_compatible(addr: &Address) -> (r: bool)
        ensures
            r == Self::admits(addr@),
    ;
}

/// Raw addresses that hold an actor id.
#[derive(Debug, Clone, Copy, PartialEq, Eq, Hash)]
pub struct ID;

/// Raw addresses that hold the hash of a secp256k1 key.
#[derive(Debug, Clone, Copy, PartialEq, Eq, Hash)]
pub struct Secp256k1;

/// Raw addresses that hold the hash that names an actor.
#[derive(Debug, Clone, Copy, PartialEq, Eq, Hash)]
pub struct Actor;

/// Raw addresses that hold a BLS key.
#[derive(Debug, Clone, Copy, PartialEq, Eq, Hash)]
pub struct BLS;

/// Raw addresses of any kind.
#[derive(Debug, Clone, Copy, PartialEq, Eq, Hash)]
pub struct AnyRawAddr;

/// Hierarchical addresses around a raw address of the kind `A`. A
/// hierarchical address never wraps another.
#[derive(Debug)]
pub struct Hierarchical<A> {
    _phantom: PhantomData<A>,
}

/// An address of the kind `T`.
#[derive(Debug)]
pub struct TAddress<T: AddressType> {
    addr: Address,
    _phantom: PhantomData<T>,
}

/// An address of the kind `T` that stands as the key of a map.
#[derive(Debug)]
pub struct TAddressKey<T: AddressType>(pub TAddress<T>);

impl AddressType for ID {
    open spec fn admits(a: AddressView) -> bool {
        a.subnet is None && a.payload is ID
    }

    fn is_compatible(addr: &Address) -> (r: bool) {
        addr.subnet.is_none() && match &addr.payload {
            crate::address::Payload::ID(_) => true,
            _ => false,
        }
    }
}

impl AddressType for Secp256k1 {
    open spec fn admits(a: AddressView) -> bool {
        a.subnet is None && a.payload is Secp256k1
    }

    fn is_compatible(addr: &Address) -> (r: bool) {
        addr.subnet.is_none() && match &addr.payload {
            crate::address::Payload::Secp256k1(_) => true,
            _ => false,
        }
    }
}

impl AddressType for Actor {
    open spec fn admits(a: AddressView) -> bool {
        a.subnet is None && a.payload is Actor
    }

    fn is_compatible(addr: &Address) -> (r: bool) {
        addr.subnet.is_none() && match &addr.payload {
            crate::address::Payload::Actor(_) => true,
            _ => false,
        }
    }
}

impl AddressType for BLS {
    open spec fn admits(a: AddressView) -> bool {
        a.subnet is None && a.payload is BLS
    }

    fn is_compatible(addr: &Address) -> (r: bool) {
        addr.subnet.is_none() && match &addr.payload {
            crate::address::Payload::BLS(_) => true,
            _ => false,
        }
    }
}

impl AddressType for AnyRawAddr {
    open spec fn admits(a: AddressView) -> bool {
        a.subnet is None
    }

    fn is_compatible(addr: &Address) -> (r: bool) {
        addr.subnet.is_none()
    }
}

impl<A: AddressType> AddressType for Hierarchical<A> {
    open spec fn admits(a: AddressView) -> bool {
        a.subnet is Some && A::admits(a.raw())
    }

    fn is_compatible(addr: &Address) -> (r: bool) {
        match addr.raw_addr() {
            Ok(raw) => A::is_compatible(&raw),
            Err(_) => false,
        }
    }
}

impl<T: AddressType> View for TAddress<T> {
    type V = AddressView;

    closed spec fn view(&self) -> AddressView {
        self.addr@
    }
}

impl<T: AddressType> TAddress<T> {
    #[verifier::type_invariant]
    spec fn is_of_kind(self) -> bool {
        T::admits(self.addr@)
    }

    /// The address `value` as one of the kind `T`, which it must be of.
    pub fn try_from(value: Address) -> (r: Result<TAddress<T>, AddressError>)
        ensures
            T::admits(value@) ==> r is Ok && r->Ok_0@ == value@,
            !T::admits(value@) ==> r == Err::<TAddress<T>, AddressError>(
                AddressError::InvalidPayload,
            ),
    {
        if !T::is_compatible(&value) {
            return Err(AddressError::InvalidPayload);
        }
        Ok(TAddress { addr: value, _phantom: PhantomData })
    }

    /// The address without its kind.
    pub fn addr(&self) -> (r: &Address)
        ensures
            r@ == self@,
            T::admits(self@),
    {
        proof {
            use_type_invariant(self);
        }
        &self.addr
    }

    /// The address without its kind, by value.
    pub fn into_address(self) -> (r: Address)
        ensures
            r@ == self@,
            T::admits(self@),
    {
        proof {
            use_type_invariant(&self);
        }
        self.addr
    }

    /// The canonical byte form of the address.
    pub fn to_bytes(&self) -> (r: Vec<u8>)
        ensures
            r@ == self@.encoding(),
    {
        self.addr.to_bytes()
    }
}

impl<A: AddressType> TAddress<Hierarchical<A>> {
    /// The subnet of the address.
    pub fn subnet(&self) -> (r: SubnetID)
        ensures
            self@.subnet == Some(r@),
    {
        proof {
            use_type_invariant(self);
        }
        match &self.addr.subnet {
            Some(s) => s.clone(),
            None => SubnetID::root(),
        }
    }

    /// The raw address inside.
    pub fn raw_addr(&self) -> (r: TAddress<A>)
        ensures
            r@ == self@.raw(),
    {
        proof {
            use_type_invariant(self);
        }
        TAddress {
            addr: Address { subnet: None, payload: self.addr.payload.clone() },
            _phantom: PhantomData,
        }
    }
}

} // verus!
