//! Atomic executions: what the coordinator records of one.

use crate::address::{Address, AddressView, PayloadView};
use crate::atomic::SerializedState;
use crate::cross::{array_of, items_from, lemma_array_of};
use crate::encoding::{cbor_array_head, cbor_link, push_array_head, Encode};
use crate::hash::{blake2b256_cid, Cid};
use crate::keyed::{distinct, find, lemma_position, lemma_push_new_key, present, Keyed};
use crate::subnet_id::{common_parent_of, SubnetID};
use crate::tcid::{
    all_taken, amt_holds, amt_root, entry_map, hamt_holds, hamt_root, map_takes,
    keeps_trees, new_store, no_entries, no_items, Blake2b256, StoreError, TAmt, TCid, THamt,
    TLink, AMT_BIT_WIDTH, HAMT_BIT_WIDTH,
};
use crate::types::StorableMsg;
use fvm_ipld_blockstore::MemoryBlockstore;
use vstd::prelude::*;

verus! {

/// How far an atomic execution has come.
#[derive(Debug, Clone, Copy, PartialEq, Eq, Structural)]
pub enum ExecStatus {
    /// Waiting for the outputs of the parties.
    Initialized,
    /// Every party submitted the same output.
    Success,
    /// A party aborted, or submitted another output than the first.
    Aborted,
}

/// Where the locked state of a party is: its identifier, and the actor that
/// holds it.
#[derive(Debug)]
pub struct LockedStateInfo {
    pub cid: Cid,
    pub actor: Address,
}

/// One party of an execution: its address in its subnet, and its locked state.
#[derive(Debug)]
pub struct ExecInput {
    pub addr: Address,
    pub info: LockedStateInfo,
}

/// The parameters of an execution as a party sends them, the parties named by
/// the addresses they sign with.
#[derive(Debug)]
pub struct AtomicExecParamsRaw {
    pub msgs: Vec<StorableMsg>,
    pub inputs: Vec<ExecInput>,
}

/// The parameters of an execution with every party named by its id address in
/// its subnet.
#[derive(Debug)]
pub struct AtomicExecParams {
    pub msgs: Vec<StorableMsg>,
    pub inputs: Vec<ExecInput>,
}

/// The output that one party submitted.
#[derive(Debug)]
pub struct Submission {
    pub addr: Address,
    pub output: Cid,
}

/// An atomic execution as the coordinator records it.
#[derive(Debug)]
pub struct AtomicExec {
    pub params: AtomicExecParams,
    pub submitted: Vec<Submission>,
    pub status: ExecStatus,
}

/// What a party submits: the execution, and either its output or the wish to
/// abort.
#[derive(Debug)]
pub struct SubmitExecParams {
    pub cid: Cid,
    pub abort: bool,
    pub output: SerializedState,
}

/// A submission as a mathematical value.
pub struct SubmitView {
    pub cid: Seq<u8>,
    pub abort: bool,
    pub output: Seq<u8>,
}

impl View for SubmitExecParams {
    type V = SubmitView;

    open spec fn view(&self) -> SubmitView {
        SubmitView { cid: self.cid@, abort: self.abort, output: self.output@ }
    }
}

/// What a party sends to abort an execution.
#[derive(Debug)]
pub struct AbortExecParams {
    pub exec_cid: Cid,
}

/// What the initialization of an execution returns: its identifier.
#[derive(Debug)]
pub struct LockedOutput {
    pub cid: Cid,
}

/// What a submission returns: the status of the execution after it.
#[derive(Debug, Clone, Copy, PartialEq, Eq, Structural)]
pub struct SubmitOutput {
    pub status: ExecStatus,
}

/// The handles to the array and the map in which a store keeps the
/// parameters of an execution: its messages and its parties.
#[derive(Debug)]
pub struct AtomicExecParamsMeta {
    pub msgs_cid: TCid<TAmt<StorableMsg, AMT_BIT_WIDTH>, Blake2b256>,
    pub inputs_cid: TCid<THamt<Address, LockedStateInfo, HAMT_BIT_WIDTH>, Blake2b256>,
}

impl AtomicExecParamsMeta {
    /// The handles to an array and a map without entries, which are put into
    /// the store.
    pub fn new(store: &mut MemoryBlockstore) -> (r: Result<AtomicExecParamsMeta, StoreError>)
        ensures
            r is Ok,
            amt_holds(*final(store), r->Ok_0.msgs_cid@, AMT_BIT_WIDTH, no_items()),
            hamt_holds(*final(store), r->Ok_0.inputs_cid@, HAMT_BIT_WIDTH, no_entries()),
            keeps_trees(*old(store), *final(store)),
    {
        let msgs_cid = match TCid::new_amt(store) {
            Ok(h) => h,
            Err(e) => {
                return Err(e);
            },
        };
        let ghost mid = *store;
        let inputs_cid = match TCid::new_hamt(store) {
            Ok(h) => h,
            Err(e) => {
                return Err(e);
            },
        };
        proof {
            crate::tcid::lemma_keeps_trees_chain(*old(store), mid, *store);
        }
        Ok(AtomicExecParamsMeta { msgs_cid, inputs_cid })
    }

    /// The canonical byte form: the link to the messages, then the link to
    /// the parties.
    pub open spec fn encoding(&self) -> Seq<u8> {
        meta_encoding(self.msgs_cid@, self.inputs_cid@)
    }

    /// The canonical byte form.
    pub fn to_bytes(&self) -> (r: Vec<u8>)
        ensures
            r@ == self.encoding(),
    {
        let mut out: Vec<u8> = Vec::new();
        push_array_head(&mut out, 2);
        self.msgs_cid.encode(&mut out);
        self.inputs_cid.encode(&mut out);
        assert(out@ =~= self.encoding());
        out
    }
}

/// The byte form of the record of an execution: the links to the root of
/// its messages and to the root of its parties.
pub open spec fn meta_encoding(msgs_root: Seq<u8>, inputs_root: Seq<u8>) -> Seq<u8> {
    cbor_array_head(2) + cbor_link(msgs_root) + cbor_link(inputs_root)
}

/// The first `n` parties as a map: where the locked state of each is, under
/// the bytes of the party's address.
pub open spec fn party_map(inputs: Seq<ExecInput>, n: int) -> Map<Seq<u8>, Seq<u8>>
    decreases n,
{
    if n <= 0 {
        Map::empty()
    } else {
        party_map(inputs, n - 1).insert(
            inputs[n - 1].addr@.encoding(),
            inputs[n - 1].info.encoding(),
        )
    }
}

/// Whether a map takes each of the first `n` parties in turn.
pub open spec fn parties_taken(inputs: Seq<ExecInput>, n: int) -> bool
    decreases n,
{
    if n <= 0 {
        true
    } else {
        parties_taken(inputs, n - 1) && map_takes(
            party_map(inputs, n - 1),
            inputs[n - 1].addr@.encoding(),
            HAMT_BIT_WIDTH,
        )
    }
}

/// Whether `entries` holds, for each party, the bytes of its address and the
/// byte form of where its locked state is.
pub open spec fn entries_of(entries: Seq<(Vec<u8>, Vec<u8>)>, inputs: Seq<ExecInput>) -> bool {
    &&& entries.len() == inputs.len()
    &&& forall|i: int|
        0 <= i < entries.len() ==> (#[trigger] entries[i]).0@ == inputs[i].addr@.encoding()
            && entries[i].1@ == inputs[i].info.encoding()
}

/// The entries of the parties spell the map of the parties, and are taken
/// where the parties are.
pub proof fn lemma_entries_of(entries: Seq<(Vec<u8>, Vec<u8>)>, inputs: Seq<ExecInput>, n: int)
    requires
        entries_of(entries, inputs),
        0 <= n <= entries.len(),
    ensures
        entry_map(entries.take(n)) == party_map(inputs, n),
        all_taken(entries, HAMT_BIT_WIDTH, n) == parties_taken(inputs, n),
    decreases n,
{
    if n > 0 {
        lemma_entries_of(entries, inputs, n - 1);
        assert(entries.take(n).drop_last() =~= entries.take(n - 1));
        assert(entries.take(n).last() == entries[n - 1]);
    }
}

/// The byte form of where a locked state is.
pub fn info_bytes(info: &LockedStateInfo) -> (r: Vec<u8>)
    ensures
        r@ == info.encoding(),
{
    let mut out: Vec<u8> = Vec::new();
    push_array_head(&mut out, 2);
    info.cid.encode(&mut out);
    info.actor.encode(&mut out);
    assert(out@ =~= info.encoding());
    out
}

/// For each party, the bytes of its address and the byte form of where its
/// locked state is.
fn entries_from(inputs: &Vec<ExecInput>) -> (r: Vec<(Vec<u8>, Vec<u8>)>)
    ensures
        entries_of(r@, inputs@),
{
    let mut out: Vec<(Vec<u8>, Vec<u8>)> = Vec::new();
    let mut i: usize = 0;
    while i < inputs.len()
        invariant
            0 <= i <= inputs.len(),
            out@.len() == i,
            forall|j: int|
                0 <= j < i ==> (#[trigger] out@[j]).0@ == inputs@[j].addr@.encoding()
                    && out@[j].1@ == inputs@[j].info.encoding(),
        decreases inputs.len() - i,
    {
        out.push((inputs[i].addr.to_bytes(), info_bytes(&inputs[i].info)));
        i += 1;
    }
    out
}

/// Whether a map takes the parties `inputs`, so that the messages and the
/// parties have an identifier.
pub open spec fn has_exec_cid(inputs: Seq<ExecInput>) -> bool {
    parties_taken(inputs, inputs.len() as int)
}

/// The identifier of the execution of the messages `msgs` between the
/// parties `inputs`: that of the record of the root of the array of the
/// messages and of the root of the map of the parties. It depends on the
/// parties as a map, not on their order.
pub open spec fn exec_cid(msgs: Seq<StorableMsg>, inputs: Seq<ExecInput>) -> Seq<u8> {
    blake2b256_cid(
        meta_encoding(
            amt_root(array_of(msgs, msgs.len() as int), AMT_BIT_WIDTH),
            hamt_root(party_map(inputs, inputs.len() as int), HAMT_BIT_WIDTH),
        ),
    )
}

/// The identifier of an execution: the messages go into an array and the
/// parties into a map in a store of their own, and the identifier is that of
/// the record of the two roots. The one failure is a map that does not take
/// a party.
pub fn compute_exec_cid(msgs: &Vec<StorableMsg>, inputs: &Vec<ExecInput>) -> (r: Result<
    Cid,
    StoreError,
>)
    ensures
        match r {
            Ok(c) => has_exec_cid(inputs@) && c@ == exec_cid(msgs@, inputs@),
            Err(e) => !has_exec_cid(inputs@) && e == StoreError::Unreadable,
        },
{
    let mut store = new_store();
    let mut meta = match AtomicExecParamsMeta::new(&mut store) {
        Ok(m) => m,
        Err(e) => {
            return Err(StoreError::Unreadable);
        },
    };
    let items = items_from(msgs);
    let entries = entries_from(inputs);
    proof {
        lemma_array_of(items@, msgs@, items@.len() as int);
        lemma_entries_of(entries@, inputs@, entries@.len() as int);
        assert(items@.take(items@.len() as int) =~= items@);
        assert(entries@.take(entries@.len() as int) =~= entries@);
        assert(items@.len() == msgs.len());
        assert(crate::tcid::indices_fit(items@));
    }
    match meta.msgs_cid.flush(&mut store, &items) {
        Ok(()) => {},
        Err(_) => {
            return Err(StoreError::Unreadable);
        },
    }
    match meta.inputs_cid.flush(&mut store, &entries) {
        Ok(()) => {},
        Err(_) => {
            return Err(StoreError::Unreadable);
        },
    }
    let record = meta.to_bytes();
    match TCid::<TLink<AtomicExecParamsMeta>, Blake2b256>::new_link(&mut store, &record) {
        Ok(link) => Ok(link.cid()),
        Err(_) => Err(StoreError::Unreadable),
    }
}

/// Two executions with the same messages and, as a map, the same parties
/// have the same identifier, in whatever order the parties are listed.
pub proof fn law_exec_cid_without_order(
    msgs: Seq<StorableMsg>,
    inputs: Seq<ExecInput>,
    others: Seq<ExecInput>,
)
    requires
        party_map(inputs, inputs.len() as int) == party_map(others, others.len() as int),
    ensures
        exec_cid(msgs, inputs) == exec_cid(msgs, others),
{
}

/// The handles that a store keeps of the parameters of an execution.
pub type MetaExec = AtomicExecParamsMeta;

/// Why the parameters of an execution were refused.
#[derive(Debug, Clone, Copy, PartialEq, Eq, Structural)]
pub enum ExecError {
    /// The execution has no party.
    NoInputs,
    /// A party is not named by a hierarchical address.
    NotHierarchical,
    /// The host knows no id for a party, or too few ids were given.
    Unresolved,
    /// Two parties have the same id address in the same subnet.
    DuplicateInput,
}

impl Keyed for ExecInput {
    type Key = Address;

    type KeyV = AddressView;

    open spec fn key(&self) -> AddressView {
        self.addr@
    }

    open spec fn key_of(k: &Address) -> AddressView {
        k@
    }

    fn has_key(&self, k: &Address) -> (r: bool) {
        self.addr == *k
    }

    fn same_key(&self, other: &ExecInput) -> (r: bool) {
        self.addr == other.addr
    }
}

impl Keyed for Submission {
    type Key = Address;

    type KeyV = AddressView;

    open spec fn key(&self) -> AddressView {
        self.addr@
    }

    open spec fn key_of(k: &Address) -> AddressView {
        k@
    }

    fn has_key(&self, k: &Address) -> (r: bool) {
        self.addr == *k
    }

    fn same_key(&self, other: &Submission) -> (r: bool) {
        self.addr == other.addr
    }
}

impl LockedStateInfo {
    /// The canonical byte form: the identifier, then the actor.
    pub open spec fn encoding(&self) -> Seq<u8> {
        cbor_array_head(2) + cbor_link(self.cid@) + self.actor@.encoding()
    }
}

impl Clone for LockedStateInfo {
    fn clone(&self) -> (r: LockedStateInfo)
        ensures
            r.cid@ == self.cid@,
            r.actor@ == self.actor@,
    {
        LockedStateInfo { cid: self.cid.clone(), actor: self.actor.clone() }
    }
}

impl Encode for ExecInput {
    open spec fn encoding(&self) -> Seq<u8> {
        cbor_array_head(2) + self.addr@.encoding() + self.info.encoding()
    }

    fn encode(&self, out: &mut Vec<u8>) {
        let ghost before = out@;
        push_array_head(out, 2);
        self.addr.encode(out);
        push_array_head(out, 2);
        self.info.cid.encode(out);
        self.info.actor.encode(out);
        assert(out@ =~= before + self.encoding());
    }
}

/// Whether every party is named by a hierarchical address.
pub open spec fn all_hierarchical(inputs: Seq<ExecInput>) -> bool {
    forall|i: int| 0 <= i < inputs.len() ==> (#[trigger] inputs[i]).addr@.subnet is Some
}

/// The subnet of the party at `i`.
pub open spec fn input_subnet(inputs: Seq<ExecInput>, i: int) -> Seq<u64> {
    inputs[i].addr@.subnet->Some_0
}

/// The common parent of the subnets of the first `n` parties: that of the
/// first party's subnet with itself, then with each further subnet in turn.
pub open spec fn common_parent_upto(inputs: Seq<ExecInput>, n: int) -> Seq<u64>
    decreases n,
{
    if n <= 0 {
        input_subnet(inputs, 0)
    } else {
        common_parent_of(common_parent_upto(inputs, n - 1), input_subnet(inputs, n - 1))
    }
}

/// The common parent of the subnets of all parties.
pub open spec fn common_parent_all(inputs: Seq<ExecInput>) -> Seq<u64> {
    common_parent_upto(inputs, inputs.len() as int)
}

/// Whether some party has the raw address `raw`, in whatever subnet.
pub open spec fn raw_addr_in(inputs: Seq<ExecInput>, raw: AddressView) -> bool {
    exists|i: int| 0 <= i < inputs.len() && (#[trigger] inputs[i]).addr@.raw() == raw
}

/// Whether `curr` is the common parent of the subnets of all parties. With no
/// party, or with one that is not named by a hierarchical address, there is no
/// common parent to speak of.
pub fn is_common_parent(curr: &SubnetID, inputs: &Vec<ExecInput>) -> (r: Result<bool, ExecError>)
    ensures
        inputs@.len() == 0 ==> r == Err::<bool, ExecError>(ExecError::NoInputs),
        inputs@.len() > 0 && !all_hierarchical(inputs@) ==> r == Err::<bool, ExecError>(
            ExecError::NotHierarchical,
        ),
        inputs@.len() > 0 && all_hierarchical(inputs@) ==> r == Ok::<bool, ExecError>(
            common_parent_all(inputs@) == curr@,
        ),
{
    if inputs.len() == 0 {
        return Err(ExecError::NoInputs);
    }
    let mut cp = match &inputs[0].addr.subnet {
        Some(s) => s.clone(),
        None => {
            return Err(ExecError::NotHierarchical);
        },
    };
    let mut i: usize = 0;
    while i < inputs.len()
        invariant
            0 <= i <= inputs.len(),
            inputs@.len() > 0,
            forall|j: int| 0 <= j < i ==> (#[trigger] inputs@[j]).addr@.subnet is Some,
            inputs@[0].addr@.subnet is Some,
            cp@ == common_parent_upto(inputs@, i as int),
        decreases inputs.len() - i,
    {
        let sn = match &inputs[i].addr.subnet {
            Some(s) => s,
            None => {
                return Err(ExecError::NotHierarchical);
            },
        };
        cp = match cp.common_parent(sn) {
            Some((_, s)) => s,
            None => cp,
        };
        i += 1;
    }
    Ok(cp == *curr)
}

/// Whether `caller`, a raw address, is a party of the execution in some
/// subnet.
pub fn is_addr_in_exec(caller: &Address, inputs: &Vec<ExecInput>) -> (r: bool)
    ensures
        r == raw_addr_in(inputs@, caller@),
{
    let mut i: usize = 0;
    while i < inputs.len()
        invariant
            0 <= i <= inputs.len(),
            forall|j: int| 0 <= j < i ==> (#[trigger] inputs@[j]).addr@.raw() != caller@,
        decreases inputs.len() - i,
    {
        let raw = Address { subnet: None, payload: inputs[i].addr.payload.clone() };
        if raw == *caller {
            return true;
        }
        i += 1;
    }
    false
}

/// The party at `i` named by its id address: the subnet stays, the raw
/// address becomes the id that the host resolved it to.
pub open spec fn resolved_key(inputs: Seq<ExecInput>, ids: Seq<Option<u64>>, i: int) -> AddressView {
    AddressView { subnet: inputs[i].addr@.subnet, payload: PayloadView::ID(ids[i]->Some_0) }
}

/// The first reason to refuse the first `n` parties, if there is one: too few
/// ids, a party without a subnet, one without an id, or one whose id address
/// an earlier party has.
pub open spec fn resolve_failure(inputs: Seq<ExecInput>, ids: Seq<Option<u64>>, n: int) -> Option<
    ExecError,
>
    decreases n,
{
    if n <= 0 {
        if ids.len() < inputs.len() {
            Some(ExecError::Unresolved)
        } else {
            None
        }
    } else {
        let before = resolve_failure(inputs, ids, n - 1);
        if before is Some {
            before
        } else if inputs[n - 1].addr@.subnet is None {
            Some(ExecError::NotHierarchical)
        } else if ids[n - 1] is None {
            Some(ExecError::Unresolved)
        } else if exists|j: int|
            0 <= j < n - 1 && #[trigger] resolved_key(inputs, ids, j) == resolved_key(
                inputs,
                ids,
                n - 1,
            ) {
            Some(ExecError::DuplicateInput)
        } else {
            None
        }
    }
}

/// A reason to refuse the first `k` parties is the reason to refuse more of
/// them.
pub proof fn lemma_resolve_failure_stays(
    inputs: Seq<ExecInput>,
    ids: Seq<Option<u64>>,
    k: int,
    n: int,
)
    requires
        0 <= k <= n,
        resolve_failure(inputs, ids, k) is Some,
    ensures
        resolve_failure(inputs, ids, n) == resolve_failure(inputs, ids, k),
    decreases n - k,
{
    if k < n {
        lemma_resolve_failure_stays(inputs, ids, k, n - 1);
    }
}

impl AtomicExecParamsRaw {
    /// Whether the parameters have an identifier: a map takes the parties.
    pub open spec fn has_cid(&self) -> bool {
        has_exec_cid(self.inputs@)
    }

    /// The identifier of the execution as a mathematical value.
    pub open spec fn spec_cid(&self) -> Seq<u8> {
        exec_cid(self.msgs@, self.inputs@)
    }

    /// The identifier of the execution that these parameters describe. It
    /// is the same for the same parties in another order.
    pub fn cid(&self) -> (r: Result<Cid, StoreError>)
        ensures
            match r {
                Ok(c) => self.has_cid() && c@ == self.spec_cid(),
                Err(e) => !self.has_cid() && e == StoreError::Unreadable,
            },
    {
        compute_exec_cid(&self.msgs, &self.inputs)
    }

    /// Names every party by its id address. `ids` holds, for each party in
    /// order, the id that the host resolved its raw address to, or `None`
    /// where it knows none.
    pub fn input_into_ids(self, ids: &Vec<Option<u64>>) -> (r: Result<AtomicExecParams, ExecError>)
        ensures
            match r {
                Ok(p) => {
                    &&& resolve_failure(self.inputs@, ids@, self.inputs@.len() as int) is None
                    &&& p.msgs == self.msgs
                    &&& p.inputs@.len() == self.inputs@.len()
                    &&& forall|i: int|
                        0 <= i < p.inputs@.len() ==> (#[trigger] p.inputs@[i]).addr@
                            == resolved_key(self.inputs@, ids@, i) && p.inputs@[i].info.cid@
                            == self.inputs@[i].info.cid@ && p.inputs@[i].info.actor@
                            == self.inputs@[i].info.actor@
                    &&& p.wf()
                },
                Err(e) => resolve_failure(self.inputs@, ids@, self.inputs@.len() as int) == Some(e),
            },
    {
        let ghost n = self.inputs@.len() as int;
        if ids.len() < self.inputs.len() {
            proof {
                lemma_resolve_failure_stays(self.inputs@, ids@, 0, n);
            }
            return Err(ExecError::Unresolved);
        }
        let mut out: Vec<ExecInput> = Vec::new();
        let mut i: usize = 0;
        while i < self.inputs.len()
            invariant
                0 <= i <= self.inputs.len() <= ids.len(),
                n == self.inputs@.len(),
                resolve_failure(self.inputs@, ids@, i as int) is None,
                out@.len() == i,
                distinct(out@),
                forall|j: int|
                    0 <= j < i ==> (#[trigger] out@[j]).addr@ == resolved_key(self.inputs@, ids@, j)
                        && out@[j].info.cid@ == self.inputs@[j].info.cid@ && out@[j].info.actor@
                        == self.inputs@[j].info.actor@,
                forall|j: int| 0 <= j < i ==> (#[trigger] out@[j]).addr@.subnet is Some,
                forall|j: int| 0 <= j < i ==> (#[trigger] out@[j]).addr@.payload is ID,
            decreases self.inputs.len() - i,
        {
            let sn = match &self.inputs[i].addr.subnet {
                Some(s) => s.clone(),
                None => {
                    proof {
                        lemma_resolve_failure_stays(self.inputs@, ids@, i as int + 1, n);
                    }
                    return Err(ExecError::NotHierarchical);
                },
            };
            let id = match ids[i] {
                Some(id) => id,
                None => {
                    proof {
                        lemma_resolve_failure_stays(self.inputs@, ids@, i as int + 1, n);
                    }
                    return Err(ExecError::Unresolved);
                },
            };
            let addr = Address { subnet: Some(sn), payload: crate::address::Payload::ID(id) };
            proof {
                lemma_position(out@, addr@);
            }
            if find(&out, &addr).is_some() {
                proof {
                    let j = crate::keyed::position(out@, addr@);
                    assert(out@[j].addr@ == resolved_key(self.inputs@, ids@, j));
                    assert(resolved_key(self.inputs@, ids@, j) == resolved_key(
                        self.inputs@,
                        ids@,
                        i as int,
                    ));
                    lemma_resolve_failure_stays(self.inputs@, ids@, i as int + 1, n);
                }
                return Err(ExecError::DuplicateInput);
            }
            let entry = ExecInput { addr, info: self.inputs[i].info.clone() };
            proof {
                lemma_push_new_key(out@, entry);
                assert forall|j: int| 0 <= j < i implies resolved_key(self.inputs@, ids@, j)
                    != resolved_key(self.inputs@, ids@, i as int) by {
                    assert(out@[j].addr@ == resolved_key(self.inputs@, ids@, j));
                }
            }
            out.push(entry);
            i += 1;
        }
        Ok(AtomicExecParams { msgs: self.msgs, inputs: out })
    }
}

impl AtomicExecParams {
    /// What holds of the parameters of every recorded execution: no party
    /// occurs twice, and each is named by an id address in a subnet.
    pub open spec fn wf(&self) -> bool {
        &&& distinct(self.inputs@)
        &&& forall|i: int|
            0 <= i < self.inputs@.len() ==> (#[trigger] self.inputs@[i]).addr@.subnet is Some
        &&& forall|i: int|
            0 <= i < self.inputs@.len() ==> (#[trigger] self.inputs@[i]).addr@.payload is ID
    }
}

/// Whether all messages of an execution have the method and the destination
/// of the first.
pub open spec fn same_target(msgs: Seq<StorableMsg>) -> bool {
    forall|i: int|
        0 <= i < msgs.len() ==> (#[trigger] msgs[i]).method == msgs[0].method && msgs[i].to@
            == msgs[0].to@
}

impl AtomicExec {
    /// What holds of every recorded execution: its parameters are well
    /// formed, it has at least one message and all its messages call the same
    /// method of the same actor, it has at least two parties, no party has
    /// submitted twice, only parties have submitted, and
    /// the execution succeeded exactly when every party has submitted. While
    /// it waits, at least one party has not.
    pub open spec fn wf(&self) -> bool {
        &&& self.params.wf()
        &&& self.params.msgs@.len() >= 1
        &&& same_target(self.params.msgs@)
        &&& self.params.inputs@.len() >= 2
        &&& distinct(self.submitted@)
        &&& forall|i: int|
            0 <= i < self.submitted@.len() ==> present(
                self.params.inputs@,
                (#[trigger] self.submitted@[i]).addr@,
            )
        &&& self.submitted@.len() <= self.params.inputs@.len()
        &&& (self.status == ExecStatus::Success ==> self.submitted@.len()
            == self.params.inputs@.len())
        &&& (self.status == ExecStatus::Initialized ==> self.submitted@.len()
            < self.params.inputs@.len())
    }

    /// A new execution: it waits for the outputs of its parties.
    pub fn new(params: AtomicExecParams) -> (r: AtomicExec)
        ensures
            r.params == params,
            r.submitted@ == Seq::<Submission>::empty(),
            r.status == ExecStatus::Initialized,
    {
        AtomicExec { params, submitted: Vec::new(), status: ExecStatus::Initialized }
    }

    /// How far the execution has come.
    pub fn status(&self) -> (r: ExecStatus)
        ensures
            r == self.status,
    {
        self.status
    }

    /// The outputs submitted so far.
    pub fn submitted(&self) -> (r: &Vec<Submission>)
        ensures
            *r == self.submitted,
    {
        &self.submitted
    }

    /// The outputs submitted so far, to add to.
    pub fn submitted_mut(&mut self) -> (r: &mut Vec<Submission>)
        ensures
            *r == old(self).submitted,
            final(self).submitted == *final(r),
            final(self).params == old(self).params,
            final(self).status == old(self).status,
    {
        &mut self.submitted
    }

    /// The parameters of the execution.
    pub fn params(&self) -> (r: &AtomicExecParams)
        ensures
            *r == self.params,
    {
        &self.params
    }

    /// Sets how far the execution has come.
    pub fn set_status(&mut self, st: ExecStatus)
        ensures
            final(self).status == st,
            final(self).params == old(self).params,
            final(self).submitted == old(self).submitted,
    {
        self.status = st;
    }
}

} // verus!
