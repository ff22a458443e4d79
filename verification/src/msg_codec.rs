//! Reading cross-net messages back from their canonical byte form.

use crate::address::{Address, AddressView, Payload, PayloadView};
use crate::decoding::{
    bytes_at, head_at, lemma_bytes_at_within, lemma_head_at_within, lemma_head_round_trip,
    read_bytes, read_head,
};
use crate::econ::{atto, signed_be_bytes, signed_be_value, token_from_bytes};
use crate::encoding::{
    cbor_array, cbor_array_head, cbor_bytes, cbor_uint, concat_encodings, Encode, MAJOR_ARRAY,
    MAJOR_UNSIGNED,
};
use crate::subnet_id::SubnetID;
use crate::types::{amount_encoding, StorableMsg, StorableMsgView};
use vstd::prelude::*;

verus! {

/// The unsigned integer at position `i`, if there is one, and the position
/// behind it.
pub open spec fn uint_at(s: Seq<u8>, i: int) -> Option<(u64, int)> {
    match head_at(s, i) {
        Some(h) => if h.major == MAJOR_UNSIGNED {
            Some((h.value, h.next))
        } else {
            None
        },
        None => None,
    }
}

/// The `count` unsigned integers from position `i` on, behind those of
/// `acc`, if they are there, and the position behind them.
pub open spec fn uints_from(s: Seq<u8>, i: int, count: nat, acc: Seq<u64>) -> Option<
    (Seq<u64>, int),
>
    decreases count,
{
    if count == 0 {
        Some((acc, i))
    } else {
        match uint_at(s, i) {
            Some((v, next)) => uints_from(s, next, (count - 1) as nat, acc.push(v)),
            None => None,
        }
    }
}

/// The subnet path at position `i`, if there is one, and the position behind
/// it: an array of unsigned integers.
pub open spec fn path_at(s: Seq<u8>, i: int) -> Option<(Seq<u64>, int)> {
    match head_at(s, i) {
        Some(h) => if h.major == MAJOR_ARRAY {
            uints_from(s, h.next, h.value as nat, Seq::<u64>::empty())
        } else {
            None
        },
        None => None,
    }
}

/// The payload at position `i`, if there is one, and the position behind it:
/// an array of the protocol and of an id or a key.
pub open spec fn payload_at(s: Seq<u8>, i: int) -> Option<(PayloadView, int)> {
    match head_at(s, i) {
        Some(h) => if h.major == MAJOR_ARRAY && h.value == 2 {
            match uint_at(s, h.next) {
                Some((protocol, at)) => if protocol == 0 {
                    match uint_at(s, at) {
                        Some((id, end)) => Some((PayloadView::ID(id), end)),
                        None => None,
                    }
                } else if protocol <= 3 {
                    match bytes_at(s, at) {
                        Some((key, end)) => Some(
                            (
                                if protocol == 1 {
                                    PayloadView::Secp256k1(key)
                                } else if protocol == 2 {
                                    PayloadView::Actor(key)
                                } else {
                                    PayloadView::BLS(key)
                                },
                                end,
                            ),
                        ),
                        None => None,
                    }
                } else {
                    None
                },
                None => None,
            }
        } else {
            None
        },
        None => None,
    }
}

/// The address at position `i`, if there is one, and the position behind it:
/// a payload, or an array of a subnet path and a payload.
pub open spec fn address_at(s: Seq<u8>, i: int) -> Option<(AddressView, int)> {
    match head_at(s, i) {
        Some(h) => if h.major == MAJOR_ARRAY && h.value == 2 {
            match head_at(s, h.next) {
                Some(first) => if first.major == MAJOR_UNSIGNED {
                    match payload_at(s, i) {
                        Some((payload, end)) => Some((AddressView { subnet: None, payload }, end)),
                        None => None,
                    }
                } else {
                    match path_at(s, h.next) {
                        Some((subnet, at)) => match payload_at(s, at) {
                            Some((payload, end)) => Some(
                                (AddressView { subnet: Some(subnet), payload }, end),
                            ),
                            None => None,
                        },
                        None => None,
                    }
                },
                None => None,
            }
        } else {
            None
        },
        None => None,
    }
}

/// A message as its bytes spell it: the value is still the bytes of its
/// units.
pub struct ParsedMsg {
    pub from: AddressView,
    pub to: AddressView,
    pub method: u64,
    pub params: Seq<u8>,
    pub value: Seq<u8>,
    pub nonce: u64,
}

/// The message that a byte string holds, if it holds one: an array of the six
/// fields, with nothing behind it.
pub open spec fn parse_msg(s: Seq<u8>) -> Option<ParsedMsg> {
    match head_at(s, 0) {
        Some(h) => if h.major == MAJOR_ARRAY && h.value == 6 {
            match address_at(s, h.next) {
                Some((from, a)) => match address_at(s, a) {
                    Some((to, b)) => match uint_at(s, b) {
                        Some((method, c)) => match bytes_at(s, c) {
                            Some((params, d)) => match bytes_at(s, d) {
                                Some((value, e)) => match uint_at(s, e) {
                                    Some((nonce, end)) => if end == s.len() {
                                        Some(ParsedMsg { from, to, method, params, value, nonce })
                                    } else {
                                        None
                                    },
                                    None => None,
                                },
                                None => None,
                            },
                            None => None,
                        },
                        None => None,
                    },
                    None => None,
                },
                None => None,
            }
        } else {
            None
        },
        None => None,
    }
}

/// Whether the lengths of an address fit where they are written.
pub open spec fn address_fits(a: AddressView) -> bool {
    &&& match a.subnet {
        Some(s) => s.len() <= u64::MAX,
        None => true,
    }
    &&& match a.payload {
        PayloadView::ID(_) => true,
        PayloadView::Secp256k1(k) => k.len() <= u64::MAX,
        PayloadView::Actor(k) => k.len() <= u64::MAX,
        PayloadView::BLS(k) => k.len() <= u64::MAX,
    }
}

/// An unsigned integer is read from where it stands.
pub proof fn lemma_uint_at_within(pre: Seq<u8>, v: u64, post: Seq<u8>)
    ensures
        uint_at(pre + cbor_uint(v) + post, pre.len() as int) == Some(
            (v, (pre.len() + cbor_uint(v).len()) as int),
        ),
{
    lemma_head_at_within(pre, MAJOR_UNSIGNED, v, post);
}

/// The byte forms of a list are that of its first item and those of the
/// rest.
pub proof fn lemma_concat_first(ids: Seq<u64>)
    requires
        ids.len() > 0,
    ensures
        concat_encodings(ids) == cbor_uint(ids[0]) + concat_encodings(ids.skip(1)),
    decreases ids.len(),
{
    if ids.len() == 1 {
        assert(ids.drop_last() =~= Seq::<u64>::empty());
        assert(ids.skip(1) =~= Seq::<u64>::empty());
        assert(concat_encodings(ids.drop_last()) =~= Seq::<u8>::empty());
        assert(concat_encodings(ids) =~= cbor_uint(ids[0]) + concat_encodings(ids.skip(1)));
    } else {
        lemma_concat_first(ids.drop_last());
        assert(ids.drop_last().skip(1) =~= ids.skip(1).drop_last());
        assert(ids.skip(1).last() == ids.last());
        assert(ids.drop_last()[0] == ids[0]);
        assert(concat_encodings(ids) =~= cbor_uint(ids[0]) + concat_encodings(ids.skip(1)));
    }
}

/// The unsigned integers of a list are read from where they stand.
pub proof fn lemma_uints_from_within(pre: Seq<u8>, ids: Seq<u64>, post: Seq<u8>, acc: Seq<u64>)
    ensures
        uints_from(pre + concat_encodings(ids) + post, pre.len() as int, ids.len(), acc) == Some(
            (acc + ids, (pre.len() + concat_encodings(ids).len()) as int),
        ),
    decreases ids.len(),
{
    let s = pre + concat_encodings(ids) + post;
    if ids.len() == 0 {
        assert(acc + ids =~= acc);
        assert(concat_encodings(ids) =~= Seq::<u8>::empty());
    } else {
        lemma_concat_first(ids);
        let first = cbor_uint(ids[0]);
        let rest = ids.skip(1);
        assert(s =~= pre + first + (concat_encodings(rest) + post));
        lemma_uint_at_within(pre, ids[0], concat_encodings(rest) + post);
        assert(s =~= (pre + first) + concat_encodings(rest) + post);
        lemma_uints_from_within(pre + first, rest, post, acc.push(ids[0]));
        assert(acc.push(ids[0]) + rest =~= acc + ids);
    }
}

/// A subnet path is read from where it stands.
pub proof fn lemma_path_at_within(pre: Seq<u8>, path: Seq<u64>, post: Seq<u8>)
    requires
        path.len() <= u64::MAX,
    ensures
        path_at(pre + cbor_array(path) + post, pre.len() as int) == Some(
            (path, (pre.len() + cbor_array(path).len()) as int),
        ),
{
    let head = cbor_array_head(path.len());
    let s = pre + cbor_array(path) + post;
    assert(s =~= pre + head + (concat_encodings(path) + post));
    lemma_head_at_within(pre, MAJOR_ARRAY, path.len() as u64, concat_encodings(path) + post);
    assert(s =~= (pre + head) + concat_encodings(path) + post);
    lemma_uints_from_within(pre + head, path, post, Seq::<u64>::empty());
    assert(Seq::<u64>::empty() + path =~= path);
}

/// A payload is read from where it stands.
pub proof fn lemma_payload_at_within(pre: Seq<u8>, p: PayloadView, post: Seq<u8>)
    requires
        address_fits(AddressView { subnet: None, payload: p }),
    ensures
        payload_at(pre + p.encoding() + post, pre.len() as int) == Some(
            (p, (pre.len() + p.encoding().len()) as int),
        ),
{
    let head = cbor_array_head(2);
    let proto = cbor_uint(p.protocol());
    let s = pre + p.encoding() + post;
    match p {
        PayloadView::ID(id) => {
            let body = cbor_uint(id);
            assert(s =~= pre + head + (proto + body + post));
            lemma_head_at_within(pre, MAJOR_ARRAY, 2, proto + body + post);
            assert(s =~= (pre + head) + proto + (body + post));
            lemma_uint_at_within(pre + head, 0, body + post);
            assert(s =~= (pre + head + proto) + body + post);
            lemma_uint_at_within(pre + head + proto, id, post);
        },
        PayloadView::Secp256k1(k) => {
            let body = cbor_bytes(k);
            assert(s =~= pre + head + (proto + body + post));
            lemma_head_at_within(pre, MAJOR_ARRAY, 2, proto + body + post);
            assert(s =~= (pre + head) + proto + (body + post));
            lemma_uint_at_within(pre + head, 1, body + post);
            assert(s =~= (pre + head + proto) + body + post);
            lemma_bytes_at_within(pre + head + proto, k, post);
        },
        PayloadView::Actor(k) => {
            let body = cbor_bytes(k);
            assert(s =~= pre + head + (proto + body + post));
            lemma_head_at_within(pre, MAJOR_ARRAY, 2, proto + body + post);
            assert(s =~= (pre + head) + proto + (body + post));
            lemma_uint_at_within(pre + head, 2, body + post);
            assert(s =~= (pre + head + proto) + body + post);
            lemma_bytes_at_within(pre + head + proto, k, post);
        },
        PayloadView::BLS(k) => {
            let body = cbor_bytes(k);
            assert(s =~= pre + head + (proto + body + post));
            lemma_head_at_within(pre, MAJOR_ARRAY, 2, proto + body + post);
            assert(s =~= (pre + head) + proto + (body + post));
            lemma_uint_at_within(pre + head, 3, body + post);
            assert(s =~= (pre + head + proto) + body + post);
            lemma_bytes_at_within(pre + head + proto, k, post);
        },
    }
}

/// An address is read from where it stands.
pub proof fn lemma_address_at_within(pre: Seq<u8>, a: AddressView, post: Seq<u8>)
    requires
        address_fits(a),
    ensures
        address_at(pre + a.encoding() + post, pre.len() as int) == Some(
            (a, (pre.len() + a.encoding().len()) as int),
        ),
{
    let head = cbor_array_head(2);
    let s = pre + a.encoding() + post;
    let pay = a.payload.encoding();
    match a.subnet {
        None => {
            // the payload's own array, whose first item is the protocol
            let proto = cbor_uint(a.payload.protocol());
            let body = match a.payload {
                PayloadView::ID(id) => cbor_uint(id),
                PayloadView::Secp256k1(k) => cbor_bytes(k),
                PayloadView::Actor(k) => cbor_bytes(k),
                PayloadView::BLS(k) => cbor_bytes(k),
            };
            assert(pay =~= head + proto + body);
            assert(s =~= pre + head + (proto + body + post));
            lemma_head_at_within(pre, MAJOR_ARRAY, 2, proto + body + post);
            assert(s =~= (pre + head) + proto + (body + post));
            lemma_head_at_within(pre + head, MAJOR_UNSIGNED, a.payload.protocol(), body + post);
            lemma_payload_at_within(pre, a.payload, post);
        },
        Some(path) => {
            let sub = cbor_array(path);
            let sub_head = cbor_array_head(path.len());
            assert(s =~= pre + head + (sub + pay + post));
            lemma_head_at_within(pre, MAJOR_ARRAY, 2, sub + pay + post);
            assert(s =~= (pre + head) + sub_head + (concat_encodings(path) + pay + post));
            lemma_head_at_within(
                pre + head,
                MAJOR_ARRAY,
                path.len() as u64,
                concat_encodings(path) + pay + post,
            );
            assert(s =~= (pre + head) + sub + (pay + post));
            lemma_path_at_within(pre + head, path, pay + post);
            assert(s =~= (pre + head + sub) + pay + post);
            lemma_payload_at_within(pre + head + sub, a.payload, post);
        },
    }
}

/// Whether the lengths of a message fit where they are written.
pub open spec fn msg_fits(m: StorableMsgView) -> bool {
    &&& address_fits(m.from)
    &&& address_fits(m.to)
    &&& m.params.len() <= u64::MAX
    &&& signed_be_bytes(m.value).len() <= u64::MAX
}

/// A message that is written is read back as it was: with the same ends, the
/// same method, parameters and nonce, and the bytes of its value.
pub proof fn law_msg_round_trip(m: StorableMsgView)
    requires
        msg_fits(m),
    ensures
        parse_msg(m.encoding()) == Some(
            ParsedMsg {
                from: m.from,
                to: m.to,
                method: m.method,
                params: m.params,
                value: signed_be_bytes(m.value),
                nonce: m.nonce,
            },
        ),
{
    let s = m.encoding();
    let empty = Seq::<u8>::empty();
    let head = cbor_array_head(6);
    let from = m.from.encoding();
    let to = m.to.encoding();
    let method = cbor_uint(m.method);
    let params = cbor_bytes(m.params);
    let value = amount_encoding(m.value);
    let nonce = cbor_uint(m.nonce);
    assert(s =~= empty + head + (from + to + method + params + value + nonce));
    lemma_head_at_within(empty, MAJOR_ARRAY, 6, from + to + method + params + value + nonce);
    lemma_head_round_trip(MAJOR_ARRAY, 6);
    assert(s =~= head + from + (to + method + params + value + nonce));
    lemma_address_at_within(head, m.from, to + method + params + value + nonce);
    assert(s =~= (head + from) + to + (method + params + value + nonce));
    lemma_address_at_within(head + from, m.to, method + params + value + nonce);
    assert(s =~= (head + from + to) + method + (params + value + nonce));
    lemma_uint_at_within(head + from + to, m.method, params + value + nonce);
    assert(s =~= (head + from + to + method) + params + (value + nonce));
    lemma_bytes_at_within(head + from + to + method, m.params, value + nonce);
    assert(s =~= (head + from + to + method + params) + value + nonce);
    lemma_bytes_at_within(head + from + to + method + params, signed_be_bytes(m.value), nonce);
    assert(s =~= (head + from + to + method + params + value) + nonce + empty);
    lemma_uint_at_within(head + from + to + method + params + value, m.nonce, empty);
}

/// The direction in which a message is applied is the same before it is
/// written and after it is read back.
pub proof fn law_classification_survives_serialization(m: StorableMsgView, curr: Seq<u64>)
    requires
        msg_fits(m),
    ensures
        parse_msg(m.encoding()) is Some,
        crate::types::direction_at(
            curr,
            parse_msg(m.encoding())->Some_0.from.subnet->Some_0,
            parse_msg(m.encoding())->Some_0.to.subnet->Some_0,
        ) == m.apply_type(curr),
        parse_msg(m.encoding())->Some_0.from.subnet is Some && parse_msg(
            m.encoding(),
        )->Some_0.to.subnet is Some <==> m.in_transit(),
{
    law_msg_round_trip(m);
}

/// Reads the unsigned integer at position `i`.
pub fn read_uint(b: &Vec<u8>, i: usize) -> (r: Option<(u64, usize)>)
    ensures
        match r {
            Some((v, next)) => uint_at(b@, i as int) == Some((v, next as int)) && i < next
                <= b@.len(),
            None => uint_at(b@, i as int) is None,
        },
{
    match read_head(b, i) {
        Some((major, value, next)) => if major == MAJOR_UNSIGNED {
            Some((value, next))
        } else {
            None
        },
        None => None,
    }
}

/// Reads the subnet path at position `i`.
pub fn read_path(b: &Vec<u8>, i: usize) -> (r: Option<(SubnetID, usize)>)
    ensures
        match r {
            Some((id, next)) => path_at(b@, i as int) == Some((id@, next as int)) && i < next
                <= b@.len(),
            None => path_at(b@, i as int) is None,
        },
{
    let (major, count, start) = match read_head(b, i) {
        Some(h) => h,
        None => {
            return None;
        },
    };
    if major != MAJOR_ARRAY {
        return None;
    }
    let mut children: Vec<u64> = Vec::new();
    let mut at: usize = start;
    let mut k: u64 = 0;
    while k < count
        invariant
            0 <= k <= count,
            i < start <= at <= b@.len(),
            path_at(b@, i as int) == uints_from(
                b@,
                start as int,
                count as nat,
                Seq::<u64>::empty(),
            ),
            uints_from(b@, start as int, count as nat, Seq::<u64>::empty()) == uints_from(
                b@,
                at as int,
                (count - k) as nat,
                children@,
            ),
        decreases count - k,
    {
        match read_uint(b, at) {
            Some((v, next)) => {
                children.push(v);
                at = next;
            },
            None => {
                assert(uints_from(b@, at as int, (count - k) as nat, children@) is None);
                return None;
            },
        }
        k += 1;
    }
    Some((SubnetID { children }, at))
}

/// Reads the payload at position `i`.
pub fn read_payload(b: &Vec<u8>, i: usize) -> (r: Option<(Payload, usize)>)
    ensures
        match r {
            Some((p, next)) => payload_at(b@, i as int) == Some((p@, next as int)) && i < next
                <= b@.len(),
            None => payload_at(b@, i as int) is None,
        },
{
    let (major, count, at) = match read_head(b, i) {
        Some(h) => h,
        None => {
            return None;
        },
    };
    if major != MAJOR_ARRAY || count != 2 {
        return None;
    }
    let (protocol, at) = match read_uint(b, at) {
        Some(u) => u,
        None => {
            return None;
        },
    };
    if protocol == 0 {
        return match read_uint(b, at) {
            Some((id, end)) => Some((Payload::ID(id), end)),
            None => None,
        };
    }
    if protocol > 3 {
        return None;
    }
    match read_bytes(b, at) {
        Some((key, end)) => Some(
            (
                if protocol == 1 {
                    Payload::Secp256k1(key)
                } else if protocol == 2 {
                    Payload::Actor(key)
                } else {
                    Payload::BLS(key)
                },
                end,
            ),
        ),
        None => None,
    }
}

/// Reads the address at position `i`.
pub fn read_address(b: &Vec<u8>, i: usize) -> (r: Option<(Address, usize)>)
    ensures
        match r {
            Some((a, next)) => address_at(b@, i as int) == Some((a@, next as int)) && i < next
                <= b@.len(),
            None => address_at(b@, i as int) is None,
        },
{
    let (major, count, at) = match read_head(b, i) {
        Some(h) => h,
        None => {
            return None;
        },
    };
    if major != MAJOR_ARRAY || count != 2 {
        return None;
    }
    let (first, _, _) = match read_head(b, at) {
        Some(h) => h,
        None => {
            return None;
        },
    };
    if first == MAJOR_UNSIGNED {
        return match read_payload(b, i) {
            Some((payload, end)) => Some((Address { subnet: None, payload }, end)),
            None => None,
        };
    }
    let (subnet, at) = match read_path(b, at) {
        Some(p) => p,
        None => {
            return None;
        },
    };
    match read_payload(b, at) {
        Some((payload, end)) => Some((Address { subnet: Some(subnet), payload }, end)),
        None => None,
    }
}

/// The message that a byte string holds, if it holds one: what is parsed
/// from it, with the value that the bytes of the value spell.
pub open spec fn msg_read(b: Seq<u8>) -> Option<StorableMsgView> {
    match parse_msg(b) {
        Some(p) => Some(
            StorableMsgView {
                from: p.from,
                to: p.to,
                method: p.method,
                params: p.params,
                value: signed_be_value(p.value),
                nonce: p.nonce,
            },
        ),
        None => None,
    }
}

impl StorableMsg {
    /// The canonical byte form. A message whose lengths fit is read back
    /// from it as it is, its value included.
    pub fn to_bytes(&self) -> (r: Vec<u8>)
        ensures
            r@ == self@.encoding(),
            msg_fits(self@) ==> msg_read(r@) == Some(self@),
    {
        let mut out: Vec<u8> = Vec::new();
        self.encode(&mut out);
        assert(out@ =~= self@.encoding());
        proof {
            if msg_fits(self@) {
                law_msg_round_trip(self@);
            }
        }
        out
    }

    /// Reads a message from its byte form. Its value is what the bytes of the
    /// value spell.
    pub fn from_bytes(b: &Vec<u8>) -> (r: Option<StorableMsg>)
        ensures
            match r {
                Some(m) => {
                    &&& parse_msg(b@) is Some
                    &&& m@.from == parse_msg(b@)->Some_0.from
                    &&& m@.to == parse_msg(b@)->Some_0.to
                    &&& m.method == parse_msg(b@)->Some_0.method
                    &&& m.params@ == parse_msg(b@)->Some_0.params
                    &&& atto(m.value) == signed_be_value(parse_msg(b@)->Some_0.value)
                    &&& m.nonce == parse_msg(b@)->Some_0.nonce
                    &&& msg_read(b@) == Some(m@)
                },
                None => parse_msg(b@) is None && msg_read(b@) is None,
            },
    {
        let (major, count, at) = match read_head(b, 0) {
            Some(h) => h,
            None => {
                return None;
            },
        };
        if major != MAJOR_ARRAY || count != 6 {
            return None;
        }
        let (from, at) = match read_address(b, at) {
            Some(a) => a,
            None => {
                return None;
            },
        };
        let (to, at) = match read_address(b, at) {
            Some(a) => a,
            None => {
                return None;
            },
        };
        let (method, at) = match read_uint(b, at) {
            Some(u) => u,
            None => {
                return None;
            },
        };
        let (params, at) = match read_bytes(b, at) {
            Some(p) => p,
            None => {
                return None;
            },
        };
        let (value, at) = match read_bytes(b, at) {
            Some(v) => v,
            None => {
                return None;
            },
        };
        let (nonce, end) = match read_uint(b, at) {
            Some(u) => u,
            None => {
                return None;
            },
        };
        if end != b.len() {
            return None;
        }
        Some(StorableMsg { from, to, method, params, value: token_from_bytes(&value), nonce })
    }
}

} // verus!
