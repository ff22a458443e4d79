//! Checkpoints: what a subnet commits to its parent at the end of a window.

use crate::econ::{atto, token_clone, token_eq, token_zero};
use crate::encoding::{
    cbor_array, cbor_array_head, cbor_int, cbor_link, cbor_uint, push_array, push_array_head,
    push_int, push_link, push_uint, Encode,
};
use crate::hash::{blake2b256_cid, Cid};
use crate::keyed::{
    find, find_rank, lemma_insert_sorted, lemma_position, lemma_sorted_distinct,
    lemma_update_keeps_keys, lemma_update_sorted, position, present, rank, sorted, Keyed,
    Ordered,
};
use crate::subnet_id::{
    lemma_precedes_irreflexive, lemma_precedes_total, lemma_precedes_transitive, path_precedes,
    SubnetID,
};
use crate::types::{amount_encoding, push_amount};
use fvm_shared::econ::TokenAmount;
use vstd::prelude::*;

verus! {

/// The height of a block, as the host counts it.
pub type ChainEpoch = i64;

/// The shortest checkpoint period that a coordinator accepts.
pub const DEFAULT_CHECKPOINT_PERIOD: ChainEpoch = 10;

/// What one subnet sends to another within a checkpoint: the identifier of
/// the messages, and their total value.
#[derive(Debug)]
pub struct CrossMsgMeta {
    pub from: SubnetID,
    pub to: SubnetID,
    pub msgs_cid: Cid,
    pub nonce: u64,
    pub value: TokenAmount,
}

/// A message meta as a mathematical value.
pub struct CrossMsgMetaView {
    pub from: Seq<u64>,
    pub to: Seq<u64>,
    pub msgs_cid: Seq<u8>,
    pub nonce: u64,
    pub value: int,
}

/// The checkpoints that one child has committed in a window.
#[derive(Debug)]
pub struct ChildCheck {
    pub source: SubnetID,
    pub checks: Vec<Cid>,
}

/// The content of a checkpoint.
#[derive(Debug)]
pub struct CheckData {
    pub source: SubnetID,
    pub epoch: ChainEpoch,
    pub prev_check: Cid,
    pub children: Vec<ChildCheck>,
    pub cross_msgs: Vec<CrossMsgMeta>,
}

/// A checkpoint.
#[derive(Debug)]
pub struct Checkpoint {
    pub data: CheckData,
}

/// Why a checkpoint refuses an addition.
#[derive(Debug, Clone, Copy, PartialEq, Eq, Structural)]
pub enum CheckpointError {
    /// The checkpoint already holds a meta for this source and destination.
    DuplicateMeta,
    /// The child has already committed this checkpoint in this window.
    DuplicateCheck,
}

/// The order of the keys of message metas: by source, then by destination.
pub open spec fn route_precedes(a: (Seq<u64>, Seq<u64>), b: (Seq<u64>, Seq<u64>)) -> bool {
    path_precedes(a.0, b.0) || (a.0 == b.0 && path_precedes(a.1, b.1))
}

/// The identifiers of a list, as mathematical values.
pub open spec fn cid_views(s: Seq<Cid>) -> Seq<Seq<u8>> {
    Seq::new(s.len(), |i: int| s[i]@)
}

/// Whether no identifier occurs twice.
pub open spec fn cids_distinct(s: Seq<Cid>) -> bool {
    forall|i: int, j: int| 0 <= i < j < s.len() ==> (#[trigger] s[i])@ != (#[trigger] s[j])@
}

/// The first multiple of `period` that is not below `epoch`.
pub open spec fn window_of(epoch: int, period: int) -> int {
    if epoch % period == 0 {
        epoch
    } else {
        epoch - epoch % period + period
    }
}

/// The window of an epoch is the one multiple of the period in the `period`
/// epochs from `epoch` on.
pub proof fn law_window_is_next_multiple(epoch: int, period: int)
    requires
        period > 0,
    ensures
        window_of(epoch, period) % period == 0,
        epoch <= window_of(epoch, period) < epoch + period,
{
    vstd::arithmetic::div_mod::lemma_fundamental_div_mod(epoch, period);
    let q = epoch / period;
    if epoch % period != 0 {
        assert(window_of(epoch, period) == period * (q + 1)) by (nonlinear_arith)
            requires
                epoch == period * q + epoch % period,
                window_of(epoch, period) == epoch - epoch % period + period,
        ;
        vstd::arithmetic::div_mod::lemma_mod_multiples_basic(q + 1, period);
        assert(period * (q + 1) == (q + 1) * period) by (nonlinear_arith);
    }
}

/// The epoch of the window checkpoint that is open at `epoch`: `epoch` rounded
/// up to a multiple of `period`, or `None` where that exceeds 64 bits.
pub fn window_epoch(epoch: ChainEpoch, period: ChainEpoch) -> (r: Option<ChainEpoch>)
    requires
        epoch >= 0,
        period > 0,
    ensures
        window_of(epoch as int, period as int) <= i64::MAX ==> r == Some(
            window_of(epoch as int, period as int) as i64,
        ),
        window_of(epoch as int, period as int) > i64::MAX ==> r is None,
{
    let rem = epoch % period;
    if rem == 0 {
        return Some(epoch);
    }
    let base = epoch - rem;
    if base > i64::MAX - period {
        return None;
    }
    Some(base + period)
}

impl View for CrossMsgMeta {
    type V = CrossMsgMetaView;

    open spec fn view(&self) -> CrossMsgMetaView {
        CrossMsgMetaView {
            from: self.from@,
            to: self.to@,
            msgs_cid: self.msgs_cid@,
            nonce: self.nonce,
            value: atto(self.value),
        }
    }
}

impl CrossMsgMetaView {
    /// The canonical byte form: the five fields in order.
    pub open spec fn encoding(self) -> Seq<u8> {
        cbor_array_head(5) + cbor_array(self.from) + cbor_array(self.to) + cbor_link(self.msgs_cid)
            + cbor_uint(self.nonce) + amount_encoding(self.value)
    }
}

impl CrossMsgMeta {
    /// A meta from `from` to `to` that names no messages yet and carries no
    /// value.
    pub fn new(from: &SubnetID, to: &SubnetID) -> (r: CrossMsgMeta)
        ensures
            r@ == (CrossMsgMetaView {
                from: from@,
                to: to@,
                msgs_cid: Seq::<u8>::empty(),
                nonce: 0,
                value: 0,
            }),
    {
        CrossMsgMeta {
            from: from.clone(),
            to: to.clone(),
            msgs_cid: Cid::undefined(),
            nonce: 0,
            value: token_zero(),
        }
    }

    /// Whether two metas are the same in every field.
    pub fn same(&self, other: &CrossMsgMeta) -> (r: bool)
        ensures
            r == (self@ == other@),
    {
        self.from == other.from && self.to == other.to && self.msgs_cid == other.msgs_cid
            && self.nonce == other.nonce && token_eq(&self.value, &other.value)
    }
}

impl Clone for CrossMsgMeta {
    fn clone(&self) -> (r: CrossMsgMeta)
        ensures
            r@ == self@,
    {
        CrossMsgMeta {
            from: self.from.clone(),
            to: self.to.clone(),
            msgs_cid: self.msgs_cid.clone(),
            nonce: self.nonce,
            value: token_clone(&self.value),
        }
    }
}

impl Encode for Cid {
    open spec fn encoding(&self) -> Seq<u8> {
        cbor_link(self@)
    }

    fn encode(&self, out: &mut Vec<u8>) {
        let bytes = self.to_bytes();
        push_link(out, &bytes);
    }
}

impl Encode for CrossMsgMeta {
    open spec fn encoding(&self) -> Seq<u8> {
        self@.encoding()
    }

    fn encode(&self, out: &mut Vec<u8>) {
        let ghost before = out@;
        push_array_head(out, 5);
        self.from.encode(out);
        self.to.encode(out);
        self.msgs_cid.encode(out);
        push_uint(out, self.nonce);
        push_amount(out, &self.value);
        assert(out@ =~= before + self.encoding());
    }
}

impl Encode for ChildCheck {
    open spec fn encoding(&self) -> Seq<u8> {
        cbor_array_head(2) + cbor_array(self.source@) + cbor_array(self.checks@)
    }

    fn encode(&self, out: &mut Vec<u8>) {
        let ghost before = out@;
        push_array_head(out, 2);
        self.source.encode(out);
        push_array(out, &self.checks);
        assert(out@ =~= before + self.encoding());
    }
}

impl Keyed for CrossMsgMeta {
    type Key = (SubnetID, SubnetID);

    type KeyV = (Seq<u64>, Seq<u64>);

    open spec fn key(&self) -> (Seq<u64>, Seq<u64>) {
        (self.from@, self.to@)
    }

    open spec fn key_of(k: &(SubnetID, SubnetID)) -> (Seq<u64>, Seq<u64>) {
        (k.0@, k.1@)
    }

    fn has_key(&self, k: &(SubnetID, SubnetID)) -> (r: bool) {
        self.from == k.0 && self.to == k.1
    }

    fn same_key(&self, other: &CrossMsgMeta) -> (r: bool) {
        self.from == other.from && self.to == other.to
    }
}

impl Ordered for CrossMsgMeta {
    open spec fn key_lt(a: (Seq<u64>, Seq<u64>), b: (Seq<u64>, Seq<u64>)) -> bool {
        route_precedes(a, b)
    }

    fn key_before(&self, k: &(SubnetID, SubnetID)) -> (r: bool) {
        self.from.precedes(&k.0) || (self.from == k.0 && self.to.precedes(&k.1))
    }

    fn comes_before(&self, other: &CrossMsgMeta) -> (r: bool) {
        self.from.precedes(&other.from) || (self.from == other.from && self.to.precedes(&other.to))
    }

    proof fn lemma_irreflexive(a: (Seq<u64>, Seq<u64>)) {
        lemma_precedes_irreflexive(a.0);
        lemma_precedes_irreflexive(a.1);
    }

    proof fn lemma_transitive(
        a: (Seq<u64>, Seq<u64>),
        b: (Seq<u64>, Seq<u64>),
        c: (Seq<u64>, Seq<u64>),
    ) {
        if path_precedes(a.0, b.0) && path_precedes(b.0, c.0) {
            lemma_precedes_transitive(a.0, b.0, c.0);
        }
        if a.0 == b.0 && b.0 == c.0 {
            lemma_precedes_irreflexive(a.0);
            lemma_precedes_transitive(a.1, b.1, c.1);
        }
    }

    proof fn lemma_total(a: (Seq<u64>, Seq<u64>), b: (Seq<u64>, Seq<u64>)) {
        lemma_precedes_total(a.0, b.0);
        lemma_precedes_total(a.1, b.1);
    }
}

impl Keyed for ChildCheck {
    type Key = SubnetID;

    type KeyV = Seq<u64>;

    open spec fn key(&self) -> Seq<u64> {
        self.source@
    }

    open spec fn key_of(k: &SubnetID) -> Seq<u64> {
        k@
    }

    fn has_key(&self, k: &SubnetID) -> (r: bool) {
        self.source == *k
    }

    fn same_key(&self, other: &ChildCheck) -> (r: bool) {
        self.source == other.source
    }
}

impl Ordered for ChildCheck {
    open spec fn key_lt(a: Seq<u64>, b: Seq<u64>) -> bool {
        path_precedes(a, b)
    }

    fn key_before(&self, k: &SubnetID) -> (r: bool) {
        self.source.precedes(k)
    }

    fn comes_before(&self, other: &ChildCheck) -> (r: bool) {
        self.source.precedes(&other.source)
    }

    proof fn lemma_irreflexive(a: Seq<u64>) {
        lemma_precedes_irreflexive(a);
    }

    proof fn lemma_transitive(a: Seq<u64>, b: Seq<u64>, c: Seq<u64>) {
        lemma_precedes_transitive(a, b, c);
    }

    proof fn lemma_total(a: Seq<u64>, b: Seq<u64>) {
        lemma_precedes_total(a, b);
    }
}

impl Keyed for Checkpoint {
    type Key = ChainEpoch;

    type KeyV = ChainEpoch;

    open spec fn key(&self) -> ChainEpoch {
        self.data.epoch
    }

    open spec fn key_of(k: &ChainEpoch) -> ChainEpoch {
        *k
    }

    fn has_key(&self, k: &ChainEpoch) -> (r: bool) {
        self.data.epoch == *k
    }

    fn same_key(&self, other: &Checkpoint) -> (r: bool) {
        self.data.epoch == other.data.epoch
    }
}

/// Whether the identifier `cid` is in the list.
pub fn contains_cid(checks: &Vec<Cid>, cid: &Cid) -> (r: bool)
    ensures
        r == cid_views(checks@).contains(cid@),
{
    let mut i: usize = 0;
    while i < checks.len()
        invariant
            0 <= i <= checks.len(),
            forall|j: int| 0 <= j < i ==> cid_views(checks@)[j] != cid@,
        decreases checks.len() - i,
    {
        if checks[i] == *cid {
            assert(cid_views(checks@)[i as int] == cid@);
            return true;
        }
        i += 1;
    }
    false
}

impl Checkpoint {
    /// Whether the checkpoint is in its canonical form: the children in the
    /// order of their sources, the message metas in the order of their routes,
    /// and no checkpoint of a child twice.
    pub open spec fn wf(&self) -> bool {
        &&& sorted(self.data.children@)
        &&& sorted(self.data.cross_msgs@)
        &&& forall|i: int|
            0 <= i < self.data.children@.len() ==> cids_distinct(
                (#[trigger] self.data.children@[i]).checks@,
            )
    }

    /// The canonical byte form of the content: the five fields in order.
    pub open spec fn encoding(&self) -> Seq<u8> {
        cbor_array_head(5) + cbor_array(self.data.source@) + cbor_int(self.data.epoch) + cbor_link(
            self.data.prev_check@,
        ) + cbor_array(self.data.children@) + cbor_array(self.data.cross_msgs@)
    }

    /// The identifier of this checkpoint as a mathematical value.
    pub open spec fn spec_cid(&self) -> Seq<u8> {
        blake2b256_cid(self.encoding())
    }

    /// Whether the child `source` has committed the checkpoint `cid` here.
    pub open spec fn has_child_check(&self, source: Seq<u64>, cid: Seq<u8>) -> bool {
        present(self.data.children@, source) && cid_views(
            self.data.children@[position(self.data.children@, source)].checks@,
        ).contains(cid)
    }

    /// An empty checkpoint of the subnet `id` for the window that ends at
    /// `epoch`. It has no previous checkpoint.
    pub fn new(id: SubnetID, epoch: ChainEpoch) -> (r: Checkpoint)
        ensures
            r.data.source == id,
            r.data.epoch == epoch,
            r.data.prev_check@ == Seq::<u8>::empty(),
            r.data.children@ == Seq::<ChildCheck>::empty(),
            r.data.cross_msgs@ == Seq::<CrossMsgMeta>::empty(),
            r.wf(),
    {
        Checkpoint {
            data: CheckData {
                source: id,
                epoch,
                prev_check: Cid::undefined(),
                children: Vec::new(),
                cross_msgs: Vec::new(),
            },
        }
    }

    /// The identifier of this checkpoint: that of its content's byte form.
    pub fn cid(&self) -> (r: Cid)
        ensures
            r@ == self.spec_cid(),
    {
        let mut out: Vec<u8> = Vec::new();
        push_array_head(&mut out, 5);
        self.data.source.encode(&mut out);
        push_int(&mut out, self.data.epoch);
        self.data.prev_check.encode(&mut out);
        push_array(&mut out, &self.data.children);
        push_array(&mut out, &self.data.cross_msgs);
        assert(out@ =~= self.encoding());
        Cid::of(&out)
    }

    /// The subnet that made the checkpoint.
    pub fn source(&self) -> (r: &SubnetID)
        ensures
            *r == self.data.source,
    {
        &self.data.source
    }

    /// The epoch at which the checkpoint's window ends.
    pub fn epoch(&self) -> (r: ChainEpoch)
        ensures
            r == self.data.epoch,
    {
        self.data.epoch
    }

    /// The identifier of the checkpoint before this one.
    pub fn prev_check(&self) -> (r: &Cid)
        ensures
            *r == self.data.prev_check,
    {
        &self.data.prev_check
    }

    /// The message metas of the checkpoint.
    pub fn cross_msgs(&self) -> (r: &Vec<CrossMsgMeta>)
        ensures
            *r == self.data.cross_msgs,
    {
        &self.data.cross_msgs
    }

    /// Where the meta from `from` to `to` stands among the message metas.
    pub fn crossmsg_meta_index(&self, from: &SubnetID, to: &SubnetID) -> (r: Option<usize>)
        ensures
            match r {
                Some(i) => present(self.data.cross_msgs@, (from@, to@)) && i == position(
                    self.data.cross_msgs@,
                    (from@, to@),
                ),
                None => !present(self.data.cross_msgs@, (from@, to@)),
            },
    {
        let key = (from.clone(), to.clone());
        find(&self.data.cross_msgs, &key)
    }

    /// The meta from `from` to `to`, if the checkpoint has one.
    pub fn crossmsg_meta(&self, from: &SubnetID, to: &SubnetID) -> (r: Option<&CrossMsgMeta>)
        ensures
            match r {
                Some(m) => present(self.data.cross_msgs@, (from@, to@)) && *m
                    == self.data.cross_msgs@[position(self.data.cross_msgs@, (from@, to@))],
                None => !present(self.data.cross_msgs@, (from@, to@)),
            },
    {
        match self.crossmsg_meta_index(from, to) {
            Some(i) => Some(&self.data.cross_msgs[i]),
            None => None,
        }
    }

    /// Adds a meta for a route that has none yet, at its place in the order of
    /// the routes. A second meta for a route is refused and changes nothing.
    pub fn append_msgmeta(&mut self, meta: CrossMsgMeta) -> (r: Result<(), CheckpointError>)
        requires
            old(self).wf(),
        ensures
            match r {
                Ok(()) => {
                    &&& !present(old(self).data.cross_msgs@, meta.key())
                    &&& final(self).data.cross_msgs@ == old(self).data.cross_msgs@.insert(
                        rank(old(self).data.cross_msgs@, meta.key()),
                        meta,
                    )
                    &&& final(self).data.source == old(self).data.source
                    &&& final(self).data.epoch == old(self).data.epoch
                    &&& final(self).data.prev_check == old(self).data.prev_check
                    &&& final(self).data.children == old(self).data.children
                    &&& final(self).wf()
                },
                Err(e) => e == CheckpointError::DuplicateMeta && present(
                    old(self).data.cross_msgs@,
                    meta.key(),
                ) && *final(self) == *old(self),
            },
    {
        let key = (meta.from.clone(), meta.to.clone());
        if find(&self.data.cross_msgs, &key).is_some() {
            return Err(CheckpointError::DuplicateMeta);
        }
        let at = find_rank(&self.data.cross_msgs, &key);
        proof {
            lemma_insert_sorted(self.data.cross_msgs@, meta);
        }
        self.data.cross_msgs.insert(at, meta);
        Ok(())
    }

    /// Records that the child that made `commit` has committed it in this
    /// window. The same checkpoint twice is refused and changes nothing.
    pub fn add_child_check(&mut self, commit: &Checkpoint) -> (r: Result<(), CheckpointError>)
        requires
            old(self).wf(),
        ensures
            match r {
                Ok(()) => {
                    &&& !old(self).has_child_check(commit.data.source@, commit.spec_cid())
                    &&& final(self).has_child_check(commit.data.source@, commit.spec_cid())
                    &&& child_check_added(
                        old(self).data.children@,
                        final(self).data.children@,
                        commit.data.source@,
                        commit.spec_cid(),
                    )
                    &&& final(self).data.source == old(self).data.source
                    &&& final(self).data.epoch == old(self).data.epoch
                    &&& final(self).data.prev_check == old(self).data.prev_check
                    &&& final(self).data.cross_msgs == old(self).data.cross_msgs
                    &&& final(self).wf()
                },
                Err(e) => e == CheckpointError::DuplicateCheck && old(self).has_child_check(
                    commit.data.source@,
                    commit.spec_cid(),
                ) && *final(self) == *old(self),
            },
    {
        let cid = commit.cid();
        let ghost before = self.data.children@;
        let ghost src = commit.data.source@;
        proof {
            lemma_position(before, src);
            lemma_sorted_distinct(before);
        }
        match find(&self.data.children, &commit.data.source) {
            Some(i) => {
                if contains_cid(&self.data.children[i].checks, &cid) {
                    return Err(CheckpointError::DuplicateCheck);
                }
                let mut entry = self.data.children.remove(i);
                let ghost old_checks = entry.checks@;
                entry.checks.push(cid);
                proof {
                    let grown = entry.checks@;
                    assert forall|a: int, b: int| 0 <= a < b < grown.len() implies (
                    #[trigger] grown[a])@ != (#[trigger] grown[b])@ by {
                        if b < old_checks.len() {
                            assert(grown[a] == old_checks[a] && grown[b] == old_checks[b]);
                        } else {
                            assert(cid_views(old_checks)[a] == old_checks[a]@);
                        }
                    }
                    assert(cid_views(grown)[old_checks.len() as int] == cid@);
                    assert(cid_views(grown) =~= cid_views(old_checks).push(cid@));
                }
                self.data.children.insert(i, entry);
                proof {
                    let after = self.data.children@;
                    assert(after =~= before.update(i as int, entry));
                    lemma_update_sorted(before, i as int, entry);
                    lemma_update_keeps_keys(before, i as int, entry);
                    assert(position(after, src) == i);
                    assert(cid_views(after[i as int].checks@).contains(cid@));
                    assert forall|j: int| 0 <= j < after.len() implies cids_distinct(
                        (#[trigger] after[j]).checks@,
                    ) by {
                        if j != i {
                            assert(after[j] == before[j]);
                        }
                    }
                }
                Ok(())
            },
            None => {
                let at = find_rank(&self.data.children, &commit.data.source);
                let mut checks: Vec<Cid> = Vec::new();
                checks.push(cid);
                let entry = ChildCheck { source: commit.data.source.clone(), checks };
                proof {
                    lemma_insert_sorted(before, entry);
                    assert(cid_views(entry.checks@)[0] == cid@);
                    assert(cid_views(entry.checks@) =~= seq![cid@]);
                }
                self.data.children.insert(at, entry);
                proof {
                    let after = self.data.children@;
                    lemma_sorted_distinct(after);
                    crate::keyed::lemma_position_unique(after, src, at as int);
                    assert(after[at as int] == entry);
                    assert forall|j: int| 0 <= j < after.len() implies cids_distinct(
                        (#[trigger] after[j]).checks@,
                    ) by {
                        if j < at {
                            assert(after[j] == before[j]);
                        } else if j > at {
                            assert(after[j] == before[j - 1]);
                        }
                    }
                }
                Ok(())
            },
        }
    }
}

/// How the list of children changes when the child `source` commits the
/// checkpoint `cid`: a child that is there gets the identifier behind those it
/// has, and a new child takes its place in the order of the sources with that
/// one identifier.
pub open spec fn child_check_added(
    before: Seq<ChildCheck>,
    after: Seq<ChildCheck>,
    source: Seq<u64>,
    cid: Seq<u8>,
) -> bool {
    if present(before, source) {
        let i = position(before, source);
        &&& after.len() == before.len()
        &&& forall|j: int| 0 <= j < before.len() && j != i ==> after[j] == before[j]
        &&& after[i].source@ == source
        &&& cid_views(after[i].checks@) == cid_views(before[i].checks@).push(cid)
    } else {
        let i = rank(before, source);
        &&& after.len() == before.len() + 1
        &&& forall|j: int| 0 <= j < i ==> after[j] == before[j]
        &&& forall|j: int| i < j < after.len() ==> after[j] == before[j - 1]
        &&& after[i].source@ == source
        &&& cid_views(after[i].checks@) == seq![cid]
    }
}

} // verus!
