//! What an actor that takes part in atomic executions is called with.

use crate::decoding::{
    bytes_at, head_at, lemma_bytes_at_within, lemma_head_at_within, read_bytes, read_head,
};
use crate::encoding::{
    cbor_array_head, cbor_bytes, cbor_uint, push_array_head, push_bytes, push_uint, Encode,
    MAJOR_ARRAY, MAJOR_UNSIGNED,
};
use crate::error::ActorError;
use crate::hash::{blake2b256_cid, bytes_clone, Cid};
use crate::tcid::{Blake2b256, TCid, THamt, HAMT_BIT_WIDTH};
use crate::types::MethodNum;
use vstd::prelude::*;

verus! {

/// The method that locks some state of an actor for an execution.
pub const METHOD_LOCK: MethodNum = 2;

/// The method that merges a locked input into the state of an actor.
pub const METHOD_MERGE: MethodNum = 3;

/// The method that tells an actor that an execution was aborted, and unlocks
/// what it had locked for it.
pub const METHOD_ABORT: MethodNum = 4;

/// The method that merges the output of an execution into the state of an
/// actor, and unlocks what it had locked for it.
pub const METHOD_UNLOCK: MethodNum = 5;

/// Why two states could not be merged.
#[derive(Debug, Clone, Copy, PartialEq, Eq, Structural)]
pub enum MergeError {
    /// The two states do not fit together.
    Conflict,
}

/// A state that can be locked for an atomic execution and merged with the
/// states of the other parties. How two states merge is the actor's own
/// affair.
pub trait MergeableState: Sized {
    /// Merges a locked state, not necessarily an output, into this one.
    fn merge(&mut self, other: Self) -> Result<(), MergeError>;

    /// Merges the output of an execution into this one.
    fn merge_output(&mut self, other: Self) -> Result<(), MergeError>;
}

/// What a method of an actor returns: bytes, or nothing.
pub type ActorResult = Result<Option<Vec<u8>>, ActorError>;

/// The map in which an actor keeps the states that it has locked, each under
/// its identifier.
pub type LockedMap<T> = TCid<THamt<Cid, LockableState<T>, HAMT_BIT_WIDTH>, Blake2b256>;

/// The state of an actor that can take part in atomic executions.
pub trait LockableActorState<T: MergeableState> {
    /// The handle to the map of locked states.
    fn locked_map_cid(&self) -> LockedMap<T>;

    /// The state that comes out of the execution that `params` describes.
    fn output(&self, params: LockParams) -> LockableState<T>;
}

/// An actor that can take part in atomic executions.
pub trait LockableActor<T: MergeableState, S: LockableActorState<T>> {
    /// Locks the state that the execution needs.
    fn lock(params: LockParams) -> ActorResult;

    /// Merges the state of another party into the actor's own, to prepare for
    /// the execution.
    fn merge(params: MergeParams<T>) -> ActorResult;

    /// Merges the output of the execution into the actor's state, and unlocks
    /// what was locked for it.
    fn unlock(params: UnlockParams) -> ActorResult;

    /// Unlocks what was locked for an execution that was aborted.
    fn abort(params: LockParams) -> ActorResult;

    /// The lockable state of the actor.
    fn state(params: LockParams) -> S;
}

/// The state of an actor together with its lock.
#[derive(Debug)]
pub struct LockableState<T: MergeableState> {
    pub lock: bool,
    pub state: T,
}

/// The locked state of an actor in serialized form. The coordinator carries
/// it and never looks inside.
#[derive(Debug)]
pub struct SerializedState {
    ser: Vec<u8>,
}

/// What an actor needs to know to lock its state: the method of the execution
/// and its parameters.
#[derive(Debug)]
pub struct LockParams {
    pub method: MethodNum,
    pub params: Vec<u8>,
}

/// What an actor needs to know to merge another party's state.
#[derive(Debug)]
pub struct MergeParams<T: MergeableState> {
    pub state: T,
}

/// What an actor needs to know to unlock: the execution, and its output.
#[derive(Debug)]
pub struct UnlockParams {
    pub params: LockParams,
    pub state: SerializedState,
}

impl View for SerializedState {
    type V = Seq<u8>;

    closed spec fn view(&self) -> Seq<u8> {
        self.ser@
    }
}

impl SerializedState {
    /// The state with the serialized form `ser`.
    pub fn new(ser: Vec<u8>) -> (r: SerializedState)
        ensures
            r@ == ser@,
    {
        SerializedState { ser }
    }

    /// The identifier of the state: that of its serialized form.
    pub fn cid(&self) -> (r: Cid)
        ensures
            r@ == blake2b256_cid(self@),
    {
        Cid::of(&self.ser)
    }

    /// The serialized form.
    pub fn bytes(&self) -> (r: Vec<u8>)
        ensures
            r@ == self@,
    {
        bytes_clone(&self.ser)
    }
}

impl Default for SerializedState {
    fn default() -> (r: SerializedState)
        ensures
            r@ == Seq::<u8>::empty(),
    {
        SerializedState { ser: Vec::new() }
    }
}

impl Clone for SerializedState {
    fn clone(&self) -> (r: SerializedState)
        ensures
            r@ == self@,
    {
        SerializedState { ser: bytes_clone(&self.ser) }
    }
}

impl LockParams {
    /// The parameters for an execution of `method` with `params`.
    pub fn new(method: MethodNum, params: Vec<u8>) -> (r: LockParams)
        ensures
            r.method == method,
            r.params == params,
    {
        LockParams { method, params }
    }

    /// The canonical byte form: the method, then its parameters.
    pub open spec fn encoding(&self) -> Seq<u8> {
        cbor_array_head(2) + cbor_uint(self.method) + cbor_bytes(self.params@)
    }
}

impl Encode for LockParams {
    open spec fn encoding(&self) -> Seq<u8> {
        LockParams::encoding(self)
    }

    fn encode(&self, out: &mut Vec<u8>) {
        let ghost before = out@;
        push_array_head(out, 2);
        push_uint(out, self.method);
        push_bytes(out, &self.params);
        assert(out@ =~= before + self.encoding());
    }
}

/// A message to unlock as a mathematical value.
pub struct UnlockView {
    pub method: MethodNum,
    pub params: Seq<u8>,
    pub state: Seq<u8>,
}

/// The parameters to unlock that a byte string holds, if it holds them: an
/// array of the execution, which is an array of its method and its
/// parameters, and of an array of the one byte string of the output, with
/// nothing behind it.
pub open spec fn parse_unlock(s: Seq<u8>) -> Option<UnlockView> {
    match head_at(s, 0) {
        Some(outer) => if outer.major == MAJOR_ARRAY && outer.value == 2 {
            match head_at(s, outer.next) {
                Some(lock) => if lock.major == MAJOR_ARRAY && lock.value == 2 {
                    match head_at(s, lock.next) {
                        Some(method) => if method.major == MAJOR_UNSIGNED {
                            match bytes_at(s, method.next) {
                                Some((params, at)) => match head_at(s, at) {
                                    Some(inner) => if inner.major == MAJOR_ARRAY && inner.value
                                        == 1 {
                                        match bytes_at(s, inner.next) {
                                            Some((state, end)) => if end == s.len() {
                                                Some(
                                                    UnlockView {
                                                        method: method.value,
                                                        params,
                                                        state,
                                                    },
                                                )
                                            } else {
                                                None
                                            },
                                            None => None,
                                        }
                                    } else {
                                        None
                                    },
                                    None => None,
                                },
                                None => None,
                            }
                        } else {
                            None
                        },
                        None => None,
                    }
                } else {
                    None
                },
                None => None,
            }
        } else {
            None
        },
        None => None,
    }
}

impl View for UnlockParams {
    type V = UnlockView;

    open spec fn view(&self) -> UnlockView {
        UnlockView { method: self.params.method, params: self.params.params@, state: self.state@ }
    }
}

impl UnlockParams {
    /// Reads the parameters to unlock from their byte form.
    pub fn from_raw_bytes(ser: &Vec<u8>) -> (r: Option<UnlockParams>)
        ensures
            match r {
                Some(p) => parse_unlock(ser@) == Some(p@),
                None => parse_unlock(ser@) is None,
            },
    {
        let (major, count, at) = match read_head(ser, 0) {
            Some(h) => h,
            None => {
                return None;
            },
        };
        if major != MAJOR_ARRAY || count != 2 {
            return None;
        }
        let (major, count, at) = match read_head(ser, at) {
            Some(h) => h,
            None => {
                return None;
            },
        };
        if major != MAJOR_ARRAY || count != 2 {
            return None;
        }
        let (major, method, at) = match read_head(ser, at) {
            Some(h) => h,
            None => {
                return None;
            },
        };
        if major != MAJOR_UNSIGNED {
            return None;
        }
        let (params, at) = match read_bytes(ser, at) {
            Some(b) => b,
            None => {
                return None;
            },
        };
        let (major, count, at) = match read_head(ser, at) {
            Some(h) => h,
            None => {
                return None;
            },
        };
        if major != MAJOR_ARRAY || count != 1 {
            return None;
        }
        let (state, end) = match read_bytes(ser, at) {
            Some(b) => b,
            None => {
                return None;
            },
        };
        if end != ser.len() {
            return None;
        }
        Some(UnlockParams { params: LockParams { method, params }, state: SerializedState { ser: state } })
    }

    /// The parameters that hand `state` to the actors of the execution that
    /// `params` describes.
    pub fn new(params: LockParams, state: SerializedState) -> (r: UnlockParams)
        ensures
            r.params == params,
            r.state == state,
    {
        UnlockParams { params, state }
    }

    /// The canonical byte form: the execution, then the output as a byte
    /// string inside an array of one.
    pub open spec fn encoding(&self) -> Seq<u8> {
        cbor_array_head(2) + self.params.encoding() + cbor_array_head(1) + cbor_bytes(self.state@)
    }

    /// The canonical byte form.
    pub fn to_bytes(&self) -> (r: Vec<u8>)
        ensures
            r@ == self.encoding(),
    {
        let mut out: Vec<u8> = Vec::new();
        push_array_head(&mut out, 2);
        self.params.encode(&mut out);
        push_array_head(&mut out, 1);
        let ser = self.state.bytes();
        push_bytes(&mut out, &ser);
        assert(out@ =~= self.encoding());
        out
    }
}

/// Parameters to unlock that are written are read back as they were.
pub proof fn law_unlock_round_trip(p: UnlockParams)
    ensures
        parse_unlock(p.encoding()) == Some(p@),
{
    let outer = cbor_array_head(2);
    let lock = cbor_array_head(2);
    let method = cbor_uint(p.params.method);
    let params = cbor_bytes(p.params.params@);
    let inner = cbor_array_head(1);
    let state = cbor_bytes(p.state@);
    let s = p.encoding();
    let empty = Seq::<u8>::empty();
    assert(p.params.params@.len() == p.params.params.len());
    assert(p.state@.len() == p.state.ser.len());
    assert(s =~= empty + outer + (lock + method + params + inner + state));
    lemma_head_at_within(empty, MAJOR_ARRAY, 2, lock + method + params + inner + state);
    assert(s =~= outer + lock + (method + params + inner + state));
    lemma_head_at_within(outer, MAJOR_ARRAY, 2, method + params + inner + state);
    assert(s =~= (outer + lock) + method + (params + inner + state));
    lemma_head_at_within(outer + lock, MAJOR_UNSIGNED, p.params.method, params + inner + state);
    assert(s =~= (outer + lock + method) + params + (inner + state));
    lemma_bytes_at_within(outer + lock + method, p.params.params@, inner + state);
    assert(s =~= (outer + lock + method + params) + inner + state);
    lemma_head_at_within(outer + lock + method + params, MAJOR_ARRAY, 1, state);
    assert(s =~= (outer + lock + method + params + inner) + state + empty);
    lemma_bytes_at_within(outer + lock + method + params + inner, p.state@, empty);
}

} // verus!
