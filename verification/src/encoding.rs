//! The canonical byte form of the coordinator's values.
//!
//! Every value is written as a CBOR data item: unsigned and negative
//! integers, byte strings, tagged links and arrays of definite length. A
//! record is the array of its fields in declaration order, never a map.

use vstd::prelude::*;

verus! {

/// Major type of unsigned integers.
pub const MAJOR_UNSIGNED: u8 = 0;

/// Major type of negative integers.
pub const MAJOR_NEGATIVE: u8 = 1;

/// Major type of byte strings.
pub const MAJOR_BYTES: u8 = 2;

/// Major type of arrays.
pub const MAJOR_ARRAY: u8 = 4;

/// Major type of tags.
pub const MAJOR_TAG: u8 = 6;

/// The tag that marks a content identifier.
pub const TAG_LINK: u64 = 42;

/// The low byte of `v / 256^k`.
pub open spec fn byte_at(v: u64, k: nat) -> u8 {
    ((v as int / pow256(k)) % 256) as u8
}

/// 256 to the power `k`.
pub open spec fn pow256(k: nat) -> int
    decreases k,
{
    if k == 0 {
        1
    } else {
        256 * pow256((k - 1) as nat)
    }
}

/// The head of a data item: the major type in the top three bits of the first
/// byte, and the argument in the shortest of the five forms that holds it.
#[verifier::opaque]
pub open spec fn cbor_head(major: u8, v: u64) -> Seq<u8> {
    let m = major as int * 32;
    if v < 24 {
        seq![(m + v) as u8]
    } else if v < 0x100 {
        seq![(m + 24) as u8, byte_at(v, 0)]
    } else if v < 0x1_0000 {
        seq![(m + 25) as u8, byte_at(v, 1), byte_at(v, 0)]
    } else if v < 0x1_0000_0000 {
        seq![(m + 26) as u8, byte_at(v, 3), byte_at(v, 2), byte_at(v, 1), byte_at(v, 0)]
    } else {
        seq![
            (m + 27) as u8,
            byte_at(v, 7),
            byte_at(v, 6),
            byte_at(v, 5),
            byte_at(v, 4),
            byte_at(v, 3),
            byte_at(v, 2),
            byte_at(v, 1),
            byte_at(v, 0),
        ]
    }
}

/// An unsigned integer.
pub open spec fn cbor_uint(v: u64) -> Seq<u8> {
    cbor_head(MAJOR_UNSIGNED, v)
}

/// A signed integer: itself where it is not negative, else `-1 - v` under the
/// negative major type.
pub open spec fn cbor_int(v: i64) -> Seq<u8> {
    if v >= 0 {
        cbor_head(MAJOR_UNSIGNED, v as u64)
    } else {
        cbor_head(MAJOR_NEGATIVE, (-1 - v) as u64)
    }
}

/// A byte string: its length, then its bytes.
pub open spec fn cbor_bytes(b: Seq<u8>) -> Seq<u8> {
    cbor_head(MAJOR_BYTES, b.len() as u64) + b
}

/// A link: the tag, then the identifier's bytes behind a zero byte, as a byte
/// string.
pub open spec fn cbor_link(cid: Seq<u8>) -> Seq<u8> {
    cbor_head(MAJOR_TAG, TAG_LINK) + cbor_bytes(seq![0u8] + cid)
}

/// The head of an array of `n` items.
pub open spec fn cbor_array_head(n: nat) -> Seq<u8> {
    cbor_head(MAJOR_ARRAY, n as u64)
}

/// A value with a canonical byte form.
pub trait Encode {
    /// The canonical byte form.
    spec fn encoding(&self) -> Seq<u8>;

    /// Appends the canonical byte form to `out`.
    fn encode(&self, out: &mut Vec<u8>)
        ensures
            final(out)@ == old(out)@ + self.encoding(),
    ;
}

/// The byte forms of the items of a sequence, one after the other.
pub open spec fn concat_encodings<T: Encode>(s: Seq<T>) -> Seq<u8>
    decreases s.len(),
{
    if s.len() == 0 {
        Seq::<u8>::empty()
    } else {
        concat_encodings(s.drop_last()) + s.last().encoding()
    }
}

/// An array: its head, then its items.
pub open spec fn cbor_array<T: Encode>(s: Seq<T>) -> Seq<u8> {
    cbor_array_head(s.len()) + concat_encodings(s)
}

fn low_byte(v: u64) -> (r: u8)
    ensures
        r == byte_at(v, 0),
        r as int == v as int % 256,
{
    assert(pow256(0) == 1);
    (v % 256) as u8
}

proof fn lemma_pow256()
    ensures
        pow256(0) == 1,
        pow256(1) == 0x100,
        pow256(2) == 0x1_0000,
        pow256(3) == 0x100_0000,
        pow256(4) == 0x1_0000_0000,
        pow256(5) == 0x100_0000_0000,
        pow256(6) == 0x1_0000_0000_0000,
        pow256(7) == 0x100_0000_0000_0000,
{
    reveal_with_fuel(pow256, 9);
}

/// Appends the head of a data item.
pub fn push_head(out: &mut Vec<u8>, major: u8, v: u64)
    requires
        major < 8,
    ensures
        final(out)@ == old(out)@ + cbor_head(major, v),
{
    proof {
        lemma_pow256();
        reveal(cbor_head);
    }
    let m: u8 = major * 32;
    let ghost before = out@;
    if v < 24 {
        out.push(m + (v as u8));
        assert(out@ =~= before + cbor_head(major, v));
    } else if v < 0x100 {
        out.push(m + 24);
        out.push(low_byte(v));
        assert(out@ =~= before + cbor_head(major, v));
    } else if v < 0x1_0000 {
        out.push(m + 25);
        out.push(low_byte(v / 0x100));
        out.push(low_byte(v));
        assert(out@ =~= before + cbor_head(major, v));
    } else if v < 0x1_0000_0000 {
        out.push(m + 26);
        out.push(low_byte(v / 0x100_0000));
        out.push(low_byte(v / 0x1_0000));
        out.push(low_byte(v / 0x100));
        out.push(low_byte(v));
        assert(out@ =~= before + cbor_head(major, v));
    } else {
        out.push(m + 27);
        out.push(low_byte(v / 0x100_0000_0000_0000));
        out.push(low_byte(v / 0x1_0000_0000_0000));
        out.push(low_byte(v / 0x100_0000_0000));
        out.push(low_byte(v / 0x1_0000_0000));
        out.push(low_byte(v / 0x100_0000));
        out.push(low_byte(v / 0x1_0000));
        out.push(low_byte(v / 0x100));
        out.push(low_byte(v));
        assert(out@ =~= before + cbor_head(major, v));
    }
}

/// Appends an unsigned integer.
pub fn push_uint(out: &mut Vec<u8>, v: u64)
    ensures
        final(out)@ == old(out)@ + cbor_uint(v),
{
    push_head(out, MAJOR_UNSIGNED, v);
}

/// Appends a signed integer.
pub fn push_int(out: &mut Vec<u8>, v: i64)
    ensures
        final(out)@ == old(out)@ + cbor_int(v),
{
    if v >= 0 {
        push_head(out, MAJOR_UNSIGNED, v as u64);
    } else {
        push_head(out, MAJOR_NEGATIVE, (-1 - v) as u64);
    }
}

/// Appends raw bytes, with no head.
pub fn push_raw(out: &mut Vec<u8>, b: &Vec<u8>)
    ensures
        final(out)@ == old(out)@ + b@,
{
    let ghost before = out@;
    let mut i: usize = 0;
    while i < b.len()
        invariant
            0 <= i <= b.len(),
            out@ == before + b@.take(i as int),
        decreases b.len() - i,
    {
        out.push(b[i]);
        assert(out@ =~= before + b@.take(i as int + 1));
        i += 1;
    }
    assert(b@.take(b.len() as int) =~= b@);
}

/// Appends a byte string.
pub fn push_bytes(out: &mut Vec<u8>, b: &Vec<u8>)
    ensures
        final(out)@ == old(out)@ + cbor_bytes(b@),
{
    let ghost before = out@;
    push_head(out, MAJOR_BYTES, b.len() as u64);
    push_raw(out, b);
    assert(out@ =~= before + cbor_bytes(b@));
}

/// Appends a link to the content that `cid` identifies.
pub fn push_link(out: &mut Vec<u8>, cid: &Vec<u8>)
    ensures
        final(out)@ == old(out)@ + cbor_link(cid@),
{
    let ghost before = out@;
    let mut framed: Vec<u8> = Vec::new();
    framed.push(0u8);
    push_raw(&mut framed, cid);
    assert(framed@ =~= seq![0u8] + cid@);
    push_head(out, MAJOR_TAG, TAG_LINK);
    push_bytes(out, &framed);
    assert(out@ =~= before + cbor_link(cid@));
}

/// Appends the head of an array of `n` items.
pub fn push_array_head(out: &mut Vec<u8>, n: usize)
    ensures
        final(out)@ == old(out)@ + cbor_array_head(n as nat),
{
    push_head(out, MAJOR_ARRAY, n as u64);
}

/// Appends an array of values.
pub fn push_array<T: Encode>(out: &mut Vec<u8>, items: &Vec<T>)
    ensures
        final(out)@ == old(out)@ + cbor_array(items@),
{
    let ghost before = out@;
    push_array_head(out, items.len());
    let ghost headed = out@;
    let mut i: usize = 0;
    while i < items.len()
        invariant
            0 <= i <= items.len(),
            headed == before + cbor_array_head(items@.len()),
            out@ == headed + concat_encodings(items@.take(i as int)),
        decreases items.len() - i,
    {
        let ghost prev = out@;
        items[i].encode(out);
        proof {
            let t = items@.take(i as int + 1);
            assert(t.drop_last() =~= items@.take(i as int));
            assert(t.last() == items@[i as int]);
            assert(out@ =~= headed + concat_encodings(t));
        }
        i += 1;
    }
    assert(items@.take(items.len() as int) =~= items@);
    assert(out@ =~= before + cbor_array(items@));
}

} // verus!
