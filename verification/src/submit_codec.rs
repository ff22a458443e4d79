//! The byte form of a submission to an atomic execution, as it travels in
//! the parameters of a cross-net message.

use crate::atomic::SerializedState;
use crate::decoding::{
    bytes_at, head_at, lemma_bytes_at_within, lemma_head_at_within, lemma_head_round_trip,
    lemma_link_at_within, link_at, read_bytes, read_head, read_link,
};
use crate::encoding::{
    cbor_array_head, cbor_bytes, cbor_link, push_array_head, push_bytes, push_link, MAJOR_ARRAY,
};
use crate::exec::{SubmitExecParams, SubmitView};
use vstd::prelude::*;

verus! {

/// The first byte of the truth value `false`.
pub const SIMPLE_FALSE: u8 = 0xf4;

/// The first byte of the truth value `true`.
pub const SIMPLE_TRUE: u8 = 0xf5;

/// The submission that a byte string holds, if it holds one: an array of the
/// execution's link, a truth value, and an array of the one byte string of
/// the output, with nothing behind it.
pub open spec fn parse_submit(s: Seq<u8>) -> Option<SubmitView> {
    match head_at(s, 0) {
        Some(h) => if h.major == MAJOR_ARRAY && h.value == 3 {
            match link_at(s, h.next) {
                Some((cid, at)) => if at < s.len() && (s[at] == SIMPLE_FALSE || s[at]
                    == SIMPLE_TRUE) {
                    match head_at(s, at + 1) {
                        Some(inner) => if inner.major == MAJOR_ARRAY && inner.value == 1 {
                            match bytes_at(s, inner.next) {
                                Some((output, end)) => if end == s.len() {
                                    Some(SubmitView { cid, abort: s[at] == SIMPLE_TRUE, output })
                                } else {
                                    None
                                },
                                None => None,
                            }
                        } else {
                            None
                        },
                        None => None,
                    }
                } else {
                    None
                },
                None => None,
            }
        } else {
            None
        },
        None => None,
    }
}

/// The canonical byte form of a submission.
pub open spec fn submit_encoding(p: SubmitView) -> Seq<u8> {
    cbor_array_head(3) + cbor_link(p.cid) + seq![
        if p.abort {
            SIMPLE_TRUE
        } else {
            SIMPLE_FALSE
        },
    ] + cbor_array_head(1) + cbor_bytes(p.output)
}

impl SubmitExecParams {
    /// The canonical byte form.
    pub fn to_bytes(&self) -> (r: Vec<u8>)
        ensures
            r@ == submit_encoding(self@),
    {
        let mut out: Vec<u8> = Vec::new();
        push_array_head(&mut out, 3);
        let cid = self.cid.to_bytes();
        push_link(&mut out, &cid);
        out.push(if self.abort {
            SIMPLE_TRUE
        } else {
            SIMPLE_FALSE
        });
        push_array_head(&mut out, 1);
        let output = self.output.bytes();
        push_bytes(&mut out, &output);
        assert(out@ =~= submit_encoding(self@));
        out
    }

    /// Reads a submission from its byte form.
    pub fn from_bytes(b: &Vec<u8>) -> (r: Option<SubmitExecParams>)
        ensures
            match r {
                Some(p) => parse_submit(b@) == Some(p@),
                None => parse_submit(b@) is None,
            },
    {
        let (major, count, at) = match read_head(b, 0) {
            Some(h) => h,
            None => {
                return None;
            },
        };
        if major != MAJOR_ARRAY || count != 3 {
            return None;
        }
        let (cid, at) = match read_link(b, at) {
            Some(l) => l,
            None => {
                return None;
            },
        };
        if at >= b.len() {
            return None;
        }
        let flag = b[at];
        if flag != SIMPLE_FALSE && flag != SIMPLE_TRUE {
            return None;
        }
        let (major, count, at) = match read_head(b, at + 1) {
            Some(h) => h,
            None => {
                return None;
            },
        };
        if major != MAJOR_ARRAY || count != 1 {
            return None;
        }
        let (output, end) = match read_bytes(b, at) {
            Some(o) => o,
            None => {
                return None;
            },
        };
        if end != b.len() {
            return None;
        }
        Some(
            SubmitExecParams {
                cid,
                abort: flag == SIMPLE_TRUE,
                output: SerializedState::new(output),
            },
        )
    }
}

/// A submission that is written is read back as it was.
pub proof fn law_submit_round_trip(p: SubmitView)
    requires
        p.cid.len() < u64::MAX,
        p.output.len() <= u64::MAX,
    ensures
        parse_submit(submit_encoding(p)) == Some(p),
{
    let flag = seq![
        if p.abort {
            SIMPLE_TRUE
        } else {
            SIMPLE_FALSE
        },
    ];
    let outer = cbor_array_head(3);
    let link = cbor_link(p.cid);
    let inner = cbor_array_head(1);
    let out = cbor_bytes(p.output);
    let s = submit_encoding(p);
    let empty = Seq::<u8>::empty();
    assert(s =~= empty + outer + (link + flag + inner + out));
    lemma_head_at_within(empty, MAJOR_ARRAY, 3, link + flag + inner + out);
    lemma_head_round_trip(MAJOR_ARRAY, 3);
    assert(s =~= outer + link + (flag + inner + out));
    lemma_link_at_within(outer, p.cid, flag + inner + out);
    let at = (outer.len() + link.len()) as int;
    assert(s[at] == flag[0]);
    assert(s =~= (outer + link + flag) + inner + out);
    lemma_head_at_within(outer + link + flag, MAJOR_ARRAY, 1, out);
    lemma_head_round_trip(MAJOR_ARRAY, 1);
    assert(s =~= (outer + link + flag + inner) + out + empty);
    lemma_bytes_at_within(outer + link + flag + inner, p.output, empty);
}

} // verus!
