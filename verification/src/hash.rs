//! Content identifiers.
//!
//! A [`Cid`] is held as the bytes of its binary form. The identifier of a
//! payload is computed by the `cid` and `multihash-codetable` crates: a
//! version 1 identifier under the DAG-CBOR codec over the payload's
//! BLAKE2b-256 digest.

use multihash_codetable::MultihashDigest;
use vstd::prelude::*;

verus! {

/// A content identifier in its binary form.
#[derive(Debug)]
pub struct Cid {
    bytes: Vec<u8>,
}

/// The binary form of the identifier of `data`: version 1, DAG-CBOR,
/// BLAKE2b-256.
pub uninterp spec fn blake2b256_cid(data: Seq<u8>) -> Seq<u8>;

/// `Cid::new_v1` with the DAG-CBOR codec on `Code::Blake2b256.digest(data)`,
/// written out with `Cid::to_bytes`: the bytes depend on `data` alone.
#[verifier::external_body]
fn blake2b256_cid_bytes(data: &Vec<u8>) -> (r: Vec<u8>)
    ensures
        r@ == blake2b256_cid(data@),
{
    let digest = multihash_codetable::Code::Blake2b256.digest(data.as_slice());
    cid::Cid::new_v1(fvm_ipld_encoding::DAG_CBOR, digest).to_bytes()
}

/// Whether two byte strings hold the same bytes.
pub fn bytes_eq(a: &Vec<u8>, b: &Vec<u8>) -> (r: bool)
    ensures
        r == (a@ == b@),
{
    if a.len() != b.len() {
        return false;
    }
    let mut i: usize = 0;
    while i < a.len()
        invariant
            a.len() == b.len(),
            0 <= i <= a.len(),
            forall|j: int| 0 <= j < i ==> a@[j] == b@[j],
        decreases a.len() - i,
    {
        if a[i] != b[i] {
            return false;
        }
        i += 1;
    }
    assert(a@ =~= b@);
    true
}

/// A copy of a byte string.
pub fn bytes_clone(a: &Vec<u8>) -> (r: Vec<u8>)
    ensures
        r@ == a@,
{
    let mut out: Vec<u8> = Vec::new();
    let mut i: usize = 0;
    while i < a.len()
        invariant
            0 <= i <= a.len(),
            out@ == a@.take(i as int),
        decreases a.len() - i,
    {
        out.push(a[i]);
        assert(a@.take(i as int).push(a@[i as int]) =~= a@.take(i as int + 1));
        i += 1;
    }
    assert(a@.take(a.len() as int) =~= a@);
    out
}

impl View for Cid {
    type V = Seq<u8>;

    closed spec fn view(&self) -> Seq<u8> {
        self.bytes@
    }
}

impl Cid {
    /// The identifier that refers to nothing: it has no bytes.
    pub fn undefined() -> (r: Cid)
        ensures
            r@ == Seq::<u8>::empty(),
    {
        Cid { bytes: Vec::new() }
    }

    /// An identifier from its binary form.
    pub fn from_bytes(bytes: Vec<u8>) -> (r: Cid)
        ensures
            r@ == bytes@,
    {
        Cid { bytes }
    }

    /// The binary form.
    pub fn to_bytes(&self) -> (r: Vec<u8>)
        ensures
            r@ == self@,
    {
        bytes_clone(&self.bytes)
    }

    /// The identifier of a payload.
    pub fn of(data: &Vec<u8>) -> (r: Cid)
        ensures
            r@ == blake2b256_cid(data@),
    {
        Cid { bytes: blake2b256_cid_bytes(data) }
    }

    /// Whether this identifier refers to nothing.
    pub fn is_undefined(&self) -> (r: bool)
        ensures
            r == (self@.len() == 0),
    {
        self.bytes.len() == 0
    }
}

impl Clone for Cid {
    fn clone(&self) -> (r: Cid)
        ensures
            r@ == self@,
    {
        Cid { bytes: bytes_clone(&self.bytes) }
    }
}

impl PartialEq for Cid {
    fn eq(&self, other: &Cid) -> (r: bool) {
        bytes_eq(&self.bytes, &other.bytes)
    }
}

impl vstd::std_specs::cmp::PartialEqSpecImpl for Cid {
    open spec fn obeys_eq_spec() -> bool {
        true
    }

    open spec fn eq_spec(&self, other: &Cid) -> bool {
        self@ == other@
    }
}

impl Default for Cid {
    fn default() -> (r: Cid)
        ensures
            r@ == Seq::<u8>::empty(),
    {
        Cid::undefined()
    }
}

} // verus!
