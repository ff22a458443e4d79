//! Reading data items back from their canonical byte form.

use crate::encoding::{
    cbor_bytes, cbor_head, cbor_link, pow256, MAJOR_BYTES, MAJOR_TAG, TAG_LINK,
};
use crate::hash::Cid;
use vstd::prelude::*;

verus! {

/// The head of a data item: its major type, its argument, and the position
/// behind it.
pub struct Head {
    pub major: u8,
    pub value: u64,
    pub next: int,
}

/// The number that the `n` bytes from position `i` on spell, the first byte
/// the most significant.
pub open spec fn be_value(s: Seq<u8>, i: int, n: nat) -> int
    decreases n,
{
    if n == 0 {
        0
    } else {
        be_value(s, i, (n - 1) as nat) * 256 + s[i + n - 1] as int
    }
}

/// The number of bytes that follow a first byte with the low bits `low`.
pub open spec fn argument_len(low: int) -> int {
    if low < 24 {
        0
    } else if low == 24 {
        1
    } else if low == 25 {
        2
    } else if low == 26 {
        4
    } else {
        8
    }
}

/// The head of the data item at position `i`, if there is one: the major
/// type in the top three bits of the first byte, and the argument in the low
/// five bits or in the one, two, four or eight bytes behind it.
#[verifier::opaque]
pub open spec fn head_at(s: Seq<u8>, i: int) -> Option<Head> {
    if !(0 <= i < s.len()) {
        None
    } else {
        let low = s[i] as int % 32;
        let n = argument_len(low);
        if low > 27 || i + 1 + n > s.len() {
            None
        } else if low < 24 {
            Some(Head { major: (s[i] / 32) as u8, value: low as u64, next: i + 1 })
        } else {
            Some(
                Head {
                    major: (s[i] / 32) as u8,
                    value: be_value(s, i + 1, n as nat) as u64,
                    next: i + 1 + n,
                },
            )
        }
    }
}

/// The byte string at position `i`, if there is one, and the position behind
/// it.
pub open spec fn bytes_at(s: Seq<u8>, i: int) -> Option<(Seq<u8>, int)> {
    match head_at(s, i) {
        Some(h) => if h.major == MAJOR_BYTES && h.next + h.value <= s.len() {
            Some((s.subrange(h.next, h.next + h.value as int), h.next + h.value as int))
        } else {
            None
        },
        None => None,
    }
}

/// The link at position `i`, if there is one, and the position behind it:
/// the tag of links, and a byte string that starts with a zero byte.
pub open spec fn link_at(s: Seq<u8>, i: int) -> Option<(Seq<u8>, int)> {
    match head_at(s, i) {
        Some(h) => if h.major == MAJOR_TAG && h.value == TAG_LINK {
            match bytes_at(s, h.next) {
                Some((b, next)) => if b.len() > 0 && b[0] == 0 {
                    Some((b.skip(1), next))
                } else {
                    None
                },
                None => None,
            }
        } else {
            None
        },
        None => None,
    }
}

proof fn lemma_be_bound(s: Seq<u8>, i: int, n: nat)
    ensures
        0 <= be_value(s, i, n) < pow256(n),
    decreases n,
{
    if n > 0 {
        lemma_be_bound(s, i, (n - 1) as nat);
    }
}

/// The number that bytes spell depends on those bytes alone.
pub proof fn lemma_be_value_local(s: Seq<u8>, i: int, t: Seq<u8>, j: int, n: nat)
    requires
        0 <= i,
        0 <= j,
        i + n <= s.len(),
        j + n <= t.len(),
        s.subrange(i, i + n) == t.subrange(j, j + n),
    ensures
        be_value(s, i, n) == be_value(t, j, n),
    decreases n,
{
    if n > 0 {
        let a = s.subrange(i, i + n);
        let b = t.subrange(j, j + n);
        assert(s.subrange(i, i + n - 1) =~= a.subrange(0, n - 1));
        assert(t.subrange(j, j + n - 1) =~= b.subrange(0, n - 1));
        lemma_be_value_local(s, i, t, j, (n - 1) as nat);
        assert(s[i + n - 1] == a[n - 1]);
        assert(t[j + n - 1] == b[n - 1]);
    }
}

/// The bytes above a place and the byte at the place spell what stands
/// from the place on.
proof fn lemma_next_byte(v: int, c: int)
    requires
        0 <= v,
        0 < c,
    ensures
        (v / (c * 256)) * 256 + (v / c) % 256 == v / c,
{
    vstd::arithmetic::div_mod::lemma_div_denominator(v, c, 256);
    vstd::arithmetic::div_mod::lemma_fundamental_div_mod(v / c, 256);
}

/// The head that is written for an argument is read back as that argument.
pub proof fn lemma_head_round_trip(major: u8, v: u64)
    requires
        major < 8,
    ensures
        head_at(cbor_head(major, v), 0) == Some(
            Head { major, value: v, next: cbor_head(major, v).len() as int },
        ),
        1 <= cbor_head(major, v).len() <= 9,
{
    let s = cbor_head(major, v);
    reveal_with_fuel(pow256, 9);
    reveal(cbor_head);
    reveal(head_at);
    let m = major as int * 32;
    let x = v as int;
    if v < 24 {
        assert(s[0] as int == m + v);
    } else if v < 0x100 {
        assert(s[0] as int == m + 24);
        reveal_with_fuel(be_value, 2);
        assert(be_value(s, 1, 1) == v);
    } else if v < 0x1_0000 {
        assert(s[0] as int == m + 25);
        reveal_with_fuel(be_value, 3);
        assert(be_value(s, 1, 2) == v);
    } else if v < 0x1_0000_0000 {
        assert(s[0] as int == m + 26);
        assert(be_value(s, 1, 0) == 0);
        assert(be_value(s, 1, 1) == x / 0x100_0000) by {
            reveal_with_fuel(be_value, 2);
        }
        assert(be_value(s, 1, 2) == x / 0x1_0000) by {
            lemma_next_byte(x, 0x1_0000);
            assert(be_value(s, 1, 2) == be_value(s, 1, 1) * 256 + s[2] as int);
        }
        assert(be_value(s, 1, 3) == x / 0x100) by {
            lemma_next_byte(x, 0x100);
            assert(be_value(s, 1, 3) == be_value(s, 1, 2) * 256 + s[3] as int);
        }
        assert(be_value(s, 1, 4) == x) by {
            lemma_next_byte(x, 1);
            assert(be_value(s, 1, 4) == be_value(s, 1, 3) * 256 + s[4] as int);
        }
    } else {
        assert(s[0] as int == m + 27);
        assert(be_value(s, 1, 0) == 0);
        assert(be_value(s, 1, 1) == x / 0x100_0000_0000_0000) by {
            reveal_with_fuel(be_value, 2);
        }
        assert(be_value(s, 1, 2) == x / 0x1_0000_0000_0000) by {
            lemma_next_byte(x, 0x1_0000_0000_0000);
            assert(be_value(s, 1, 2) == be_value(s, 1, 1) * 256 + s[2] as int);
        }
        assert(be_value(s, 1, 3) == x / 0x100_0000_0000) by {
            lemma_next_byte(x, 0x100_0000_0000);
            assert(be_value(s, 1, 3) == be_value(s, 1, 2) * 256 + s[3] as int);
        }
        assert(be_value(s, 1, 4) == x / 0x1_0000_0000) by {
            lemma_next_byte(x, 0x1_0000_0000);
            assert(be_value(s, 1, 4) == be_value(s, 1, 3) * 256 + s[4] as int);
        }
        assert(be_value(s, 1, 5) == x / 0x100_0000) by {
            lemma_next_byte(x, 0x100_0000);
            assert(be_value(s, 1, 5) == be_value(s, 1, 4) * 256 + s[5] as int);
        }
        assert(be_value(s, 1, 6) == x / 0x1_0000) by {
            lemma_next_byte(x, 0x1_0000);
            assert(be_value(s, 1, 6) == be_value(s, 1, 5) * 256 + s[6] as int);
        }
        assert(be_value(s, 1, 7) == x / 0x100) by {
            lemma_next_byte(x, 0x100);
            assert(be_value(s, 1, 7) == be_value(s, 1, 6) * 256 + s[7] as int);
        }
        assert(be_value(s, 1, 8) == x) by {
            lemma_next_byte(x, 1);
            assert(be_value(s, 1, 8) == be_value(s, 1, 7) * 256 + s[8] as int);
        }
    }
}

/// A head is read from where it stands, whatever stands before and behind it.
pub proof fn lemma_head_at_within(pre: Seq<u8>, major: u8, v: u64, post: Seq<u8>)
    requires
        major < 8,
    ensures
        head_at(pre + cbor_head(major, v) + post, pre.len() as int) == Some(
            Head { major, value: v, next: (pre.len() + cbor_head(major, v).len()) as int },
        ),
{
    let h = cbor_head(major, v);
    let s = pre + h + post;
    let i = pre.len() as int;
    reveal(head_at);
    lemma_head_round_trip(major, v);
    assert(s[i] == h[0]);
    let low = h[0] as int % 32;
    let n = argument_len(low);
    assert(h.len() == 1 + n);
    if n > 0 {
        assert(s.subrange(i + 1, i + 1 + n) =~= h.subrange(1, 1 + n));
        lemma_be_value_local(s, i + 1, h, 1, n as nat);
    }
}

/// Reads the head of the data item at position `i`.
pub fn read_head(b: &Vec<u8>, i: usize) -> (r: Option<(u8, u64, usize)>)
    ensures
        match r {
            Some((major, value, next)) => head_at(b@, i as int) == Some(
                Head { major, value, next: next as int },
            ) && i < next <= b@.len(),
            None => head_at(b@, i as int) is None,
        },
{
    proof {
        reveal(head_at);
    }
    if i >= b.len() {
        return None;
    }
    let first = b[i];
    let major = first / 32;
    let low = first % 32;
    if low < 24 {
        return Some((major, low as u64, i + 1));
    }
    if low > 27 {
        return None;
    }
    let n: usize = if low == 24 {
        1
    } else if low == 25 {
        2
    } else if low == 26 {
        4
    } else {
        8
    };
    if n > b.len() - i - 1 {
        return None;
    }
    let total = b.len();
    let mut value: u64 = 0;
    let mut k: usize = 0;
    while k < n
        invariant
            0 <= k <= n <= 8,
            total == b@.len(),
            i + 1 + n <= b@.len(),
            value == be_value(b@, i as int + 1, k as nat),
        decreases n - k,
    {
        proof {
            lemma_be_bound(b@, i as int + 1, k as nat);
            reveal_with_fuel(pow256, 9);
        }
        value = value * 256 + b[i + 1 + k] as u64;
        k += 1;
    }
    proof {
        lemma_be_bound(b@, i as int + 1, n as nat);
        reveal_with_fuel(pow256, 9);
    }
    Some((major, value, i + 1 + n))
}

/// Reads the byte string at position `i`.
pub fn read_bytes(b: &Vec<u8>, i: usize) -> (r: Option<(Vec<u8>, usize)>)
    ensures
        match r {
            Some((bytes, next)) => bytes_at(b@, i as int) == Some((bytes@, next as int)) && i
                < next <= b@.len(),
            None => bytes_at(b@, i as int) is None,
        },
{
    let (major, len, start) = match read_head(b, i) {
        Some(h) => h,
        None => {
            return None;
        },
    };
    if major != MAJOR_BYTES || len > (b.len() - start) as u64 {
        return None;
    }
    let end = start + len as usize;
    let mut out: Vec<u8> = Vec::new();
    let mut k: usize = start;
    while k < end
        invariant
            start <= k <= end <= b@.len(),
            out@ == b@.subrange(start as int, k as int),
        decreases end - k,
    {
        out.push(b[k]);
        assert(b@.subrange(start as int, k as int).push(b@[k as int]) =~= b@.subrange(
            start as int,
            k as int + 1,
        ));
        k += 1;
    }
    Some((out, end))
}

/// Reads the link at position `i`.
pub fn read_link(b: &Vec<u8>, i: usize) -> (r: Option<(Cid, usize)>)
    ensures
        match r {
            Some((cid, next)) => link_at(b@, i as int) == Some((cid@, next as int)) && i < next
                <= b@.len(),
            None => link_at(b@, i as int) is None,
        },
{
    let (major, tag, start) = match read_head(b, i) {
        Some(h) => h,
        None => {
            return None;
        },
    };
    if major != MAJOR_TAG || tag != TAG_LINK {
        return None;
    }
    let (framed, next) = match read_bytes(b, start) {
        Some(f) => f,
        None => {
            return None;
        },
    };
    if framed.len() == 0 || framed[0] != 0 {
        return None;
    }
    let mut bytes: Vec<u8> = Vec::new();
    let mut k: usize = 1;
    while k < framed.len()
        invariant
            1 <= k <= framed@.len(),
            bytes@ == framed@.subrange(1, k as int),
        decreases framed.len() - k,
    {
        bytes.push(framed[k]);
        assert(framed@.subrange(1, k as int).push(framed@[k as int]) =~= framed@.subrange(
            1,
            k as int + 1,
        ));
        k += 1;
    }
    assert(framed@.subrange(1, framed@.len() as int) =~= framed@.skip(1));
    Some((Cid::from_bytes(bytes), next))
}

/// A byte string is read from where it stands, whatever stands before and
/// behind it.
pub proof fn lemma_bytes_at_within(pre: Seq<u8>, b: Seq<u8>, post: Seq<u8>)
    requires
        b.len() <= u64::MAX,
    ensures
        bytes_at(pre + cbor_bytes(b) + post, pre.len() as int) == Some(
            (b, (pre.len() + cbor_bytes(b).len()) as int),
        ),
{
    let h = cbor_head(MAJOR_BYTES, b.len() as u64);
    let s = pre + cbor_bytes(b) + post;
    assert(s =~= pre + h + (b + post));
    lemma_head_at_within(pre, MAJOR_BYTES, b.len() as u64, b + post);
    lemma_head_round_trip(MAJOR_BYTES, b.len() as u64);
    let start = pre.len() + h.len();
    assert(s.subrange(start as int, (start + b.len()) as int) =~= b);
}

/// A link is read from where it stands, whatever stands before and behind
/// it.
pub proof fn lemma_link_at_within(pre: Seq<u8>, cid: Seq<u8>, post: Seq<u8>)
    requires
        cid.len() < u64::MAX,
    ensures
        link_at(pre + cbor_link(cid) + post, pre.len() as int) == Some(
            (cid, (pre.len() + cbor_link(cid).len()) as int),
        ),
{
    let tag = cbor_head(MAJOR_TAG, TAG_LINK);
    let framed = seq![0u8] + cid;
    let s = pre + cbor_link(cid) + post;
    assert(s =~= pre + tag + (cbor_bytes(framed) + post));
    lemma_head_at_within(pre, MAJOR_TAG, TAG_LINK, cbor_bytes(framed) + post);
    lemma_head_round_trip(MAJOR_TAG, TAG_LINK);
    assert(s =~= (pre + tag) + cbor_bytes(framed) + post);
    lemma_bytes_at_within(pre + tag, framed, post);
    assert(framed.skip(1) =~= cid);
}

} // verus!
