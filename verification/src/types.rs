//! Cross-net messages and their direction.

use crate::address::{Address, AddressError, AddressView, BURNT_FUNDS_ACTOR_ID};
use crate::econ::{
    atto, signed_be_bytes, signed_be_value, token_bytes, token_clone, token_zero,
};
use crate::encoding::{
    cbor_array_head, cbor_bytes, cbor_uint, push_array_head, push_bytes, push_uint, Encode,
};
use crate::hash::bytes_clone;
use crate::subnet_id::{common_parent_of, common_prefix_len, SubnetID};
use fvm_shared::econ::TokenAmount;
use vstd::prelude::*;

verus! {

/// The number of a method of an actor.
pub type MethodNum = u64;

/// The method that only transfers value.
pub const METHOD_SEND: MethodNum = 0;

/// The method that constructs an actor.
pub const METHOD_CONSTRUCTOR: MethodNum = 1;

/// All that is needed to carry a message out in another subnet.
#[derive(Debug)]
pub struct StorableMsg {
    pub from: Address,
    pub to: Address,
    pub method: MethodNum,
    pub params: Vec<u8>,
    pub value: TokenAmount,
    pub nonce: u64,
}

/// A message as a mathematical value.
pub struct StorableMsgView {
    pub from: AddressView,
    pub to: AddressView,
    pub method: MethodNum,
    pub params: Seq<u8>,
    pub value: int,
    pub nonce: u64,
}

/// The direction of a cross-net message.
#[derive(Debug, Clone, Copy, PartialEq, Eq, Structural)]
pub enum HCMsgType {
    Unknown,
    BottomUp,
    TopDown,
}

/// A message from `from` to `to` starts upward exactly when `from` lies
/// strictly below the common parent of the two.
pub open spec fn bottomup(from: Seq<u64>, to: Seq<u64>) -> bool {
    common_prefix_len(from, to) < from.len()
}

/// The direction of a message between two subnets.
pub open spec fn direction(from: Seq<u64>, to: Seq<u64>) -> HCMsgType {
    if bottomup(from, to) {
        HCMsgType::BottomUp
    } else {
        HCMsgType::TopDown
    }
}

/// The direction in which a message is applied in the subnet `curr`: upward
/// only where the message itself goes upward and `curr` meets the destination
/// at the same common parent as the source does.
pub open spec fn direction_at(curr: Seq<u64>, from: Seq<u64>, to: Seq<u64>) -> HCMsgType {
    if common_parent_of(curr, to) == common_parent_of(from, to) && bottomup(from, to) {
        HCMsgType::BottomUp
    } else {
        HCMsgType::TopDown
    }
}

/// The canonical byte form of an amount.
pub open spec fn amount_encoding(v: int) -> Seq<u8> {
    cbor_bytes(signed_be_bytes(v))
}

/// Appends the canonical byte form of an amount. The bytes spell the amount.
pub fn push_amount(out: &mut Vec<u8>, value: &TokenAmount)
    ensures
        final(out)@ == old(out)@ + amount_encoding(atto(*value)),
        signed_be_value(signed_be_bytes(atto(*value))) == atto(*value),
{
    let bytes = token_bytes(value);
    push_bytes(out, &bytes);
}

impl View for StorableMsg {
    type V = StorableMsgView;

    open spec fn view(&self) -> StorableMsgView {
        StorableMsgView {
            from: self.from@,
            to: self.to@,
            method: self.method,
            params: self.params@,
            value: atto(self.value),
            nonce: self.nonce,
        }
    }
}

impl StorableMsgView {
    /// Whether both ends are hierarchical addresses, as they are in transit.
    pub open spec fn in_transit(self) -> bool {
        self.from.subnet is Some && self.to.subnet is Some
    }

    /// The direction of the message.
    pub open spec fn hc_type(self) -> HCMsgType {
        direction(self.from.subnet->Some_0, self.to.subnet->Some_0)
    }

    /// The direction in which the message is applied in `curr`.
    pub open spec fn apply_type(self, curr: Seq<u64>) -> HCMsgType {
        direction_at(curr, self.from.subnet->Some_0, self.to.subnet->Some_0)
    }

    /// The same message with another nonce.
    pub open spec fn with_nonce(self, nonce: u64) -> StorableMsgView {
        StorableMsgView { nonce, ..self }
    }

    /// The canonical byte form: the six fields in order.
    pub open spec fn encoding(self) -> Seq<u8> {
        cbor_array_head(6) + self.from.encoding() + self.to.encoding() + cbor_uint(self.method)
            + cbor_bytes(self.params) + amount_encoding(self.value) + cbor_uint(self.nonce)
    }
}

/// Whether a message from `from` to `to` starts upward.
pub fn is_bottomup(from: &SubnetID, to: &SubnetID) -> (r: bool)
    ensures
        r == bottomup(from@, to@),
{
    match from.common_parent(to) {
        Some((depth, _)) => from.depth() > depth,
        None => false,
    }
}

impl StorableMsg {
    /// The message that releases `value` from the subnet `sub_id` to
    /// `sig_addr` in its parent: it goes from the burn sink of `sub_id` to
    /// `sig_addr` in the parent, and only transfers value.
    pub fn new_release_msg(
        sub_id: &SubnetID,
        sig_addr: &Address,
        value: TokenAmount,
        nonce: u64,
    ) -> (r: Result<StorableMsg, AddressError>)
        ensures
            sub_id@.len() == 0 ==> r == Err::<StorableMsg, AddressError>(AddressError::NoParent),
            sub_id@.len() > 0 && sig_addr@.is_hierarchical() ==> r == Err::<
                StorableMsg,
                AddressError,
            >(AddressError::InvalidPayload),
            sub_id@.len() > 0 && !sig_addr@.is_hierarchical() ==> r is Ok && r->Ok_0@ == (
            StorableMsgView {
                from: AddressView::id(BURNT_FUNDS_ACTOR_ID).within(sub_id@),
                to: sig_addr@.within(sub_id@.drop_last()),
                method: METHOD_SEND,
                params: Seq::<u8>::empty(),
                value: atto(value),
                nonce,
            }),
    {
        let parent = match sub_id.parent() {
            Some(p) => p,
            None => {
                return Err(AddressError::NoParent);
            },
        };
        let to = match Address::new_hierarchical(&parent, sig_addr) {
            Ok(a) => a,
            Err(e) => {
                return Err(e);
            },
        };
        let from = match Address::new_hierarchical(sub_id, &Address::new_id(BURNT_FUNDS_ACTOR_ID)) {
            Ok(a) => a,
            Err(e) => {
                return Err(e);
            },
        };
        Ok(StorableMsg { from, to, method: METHOD_SEND, params: Vec::new(), value, nonce })
    }

    /// The message that funds `sig_addr` in the subnet `sub_id` with `value`
    /// from the same address in its parent. Its nonce is 0 until the message
    /// is committed.
    pub fn new_fund_msg(sub_id: &SubnetID, sig_addr: &Address, value: TokenAmount) -> (r: Result<
        StorableMsg,
        AddressError,
    >)
        ensures
            sub_id@.len() == 0 ==> r == Err::<StorableMsg, AddressError>(AddressError::NoParent),
            sub_id@.len() > 0 && sig_addr@.is_hierarchical() ==> r == Err::<
                StorableMsg,
                AddressError,
            >(AddressError::InvalidPayload),
            sub_id@.len() > 0 && !sig_addr@.is_hierarchical() ==> r is Ok && r->Ok_0@ == (
            StorableMsgView {
                from: sig_addr@.within(sub_id@.drop_last()),
                to: sig_addr@.within(sub_id@),
                method: METHOD_SEND,
                params: Seq::<u8>::empty(),
                value: atto(value),
                nonce: 0,
            }),
    {
        let parent = match sub_id.parent() {
            Some(p) => p,
            None => {
                return Err(AddressError::NoParent);
            },
        };
        let from = match Address::new_hierarchical(&parent, sig_addr) {
            Ok(a) => a,
            Err(e) => {
                return Err(e);
            },
        };
        let to = match Address::new_hierarchical(sub_id, sig_addr) {
            Ok(a) => a,
            Err(e) => {
                return Err(e);
            },
        };
        Ok(StorableMsg { from, to, method: METHOD_SEND, params: Vec::new(), value, nonce: 0 })
    }

    /// The direction of the message. Both ends must be hierarchical.
    pub fn hc_type(&self) -> (r: Result<HCMsgType, AddressError>)
        ensures
            self@.in_transit() ==> r == Ok::<HCMsgType, AddressError>(self@.hc_type()),
            !self@.in_transit() ==> r == Err::<HCMsgType, AddressError>(
                AddressError::NotHierarchical,
            ),
    {
        let sto = match &self.to.subnet {
            Some(s) => s,
            None => {
                return Err(AddressError::NotHierarchical);
            },
        };
        let sfrom = match &self.from.subnet {
            Some(s) => s,
            None => {
                return Err(AddressError::NotHierarchical);
            },
        };
        if is_bottomup(sfrom, sto) {
            return Ok(HCMsgType::BottomUp);
        }
        Ok(HCMsgType::TopDown)
    }

    /// The direction in which the message is applied in the subnet `curr`.
    /// Both ends must be hierarchical.
    pub fn apply_type(&self, curr: &SubnetID) -> (r: Result<HCMsgType, AddressError>)
        ensures
            self@.in_transit() ==> r == Ok::<HCMsgType, AddressError>(self@.apply_type(curr@)),
            !self@.in_transit() ==> r == Err::<HCMsgType, AddressError>(
                AddressError::NotHierarchical,
            ),
    {
        let sto = match &self.to.subnet {
            Some(s) => s,
            None => {
                return Err(AddressError::NotHierarchical);
            },
        };
        let sfrom = match &self.from.subnet {
            Some(s) => s,
            None => {
                return Err(AddressError::NotHierarchical);
            },
        };
        let here = curr.common_parent(sto);
        let there = sfrom.common_parent(sto);
        let same = match (here, there) {
            (Some((_, a)), Some((_, b))) => a == b,
            _ => false,
        };
        if same && is_bottomup(sfrom, sto) {
            return Ok(HCMsgType::BottomUp);
        }
        Ok(HCMsgType::TopDown)
    }
}

impl Encode for StorableMsg {
    open spec fn encoding(&self) -> Seq<u8> {
        self@.encoding()
    }

    fn encode(&self, out: &mut Vec<u8>)
        ensures
            signed_be_value(signed_be_bytes(self@.value)) == self@.value,
    {
        let ghost before = out@;
        push_array_head(out, 6);
        self.from.encode(out);
        self.to.encode(out);
        push_uint(out, self.method);
        push_bytes(out, &self.params);
        push_amount(out, &self.value);
        push_uint(out, self.nonce);
        assert(out@ =~= before + self.encoding());
    }
}

impl Clone for StorableMsg {
    fn clone(&self) -> (r: StorableMsg)
        ensures
            r@ == self@,
    {
        StorableMsg {
            from: self.from.clone(),
            to: self.to.clone(),
            method: self.method,
            params: bytes_clone(&self.params),
            value: token_clone(&self.value),
            nonce: self.nonce,
        }
    }
}

impl Default for StorableMsg {
    fn default() -> (r: StorableMsg)
        ensures
            r@ == (StorableMsgView {
                from: AddressView::id(0),
                to: AddressView::id(0),
                method: 0,
                params: Seq::<u8>::empty(),
                value: 0,
                nonce: 0,
            }),
    {
        StorableMsg {
            from: Address::new_id(0),
            to: Address::new_id(0),
            method: 0,
            params: Vec::new(),
            value: token_zero(),
            nonce: 0,
        }
    }
}

} // verus!
