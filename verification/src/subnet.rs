//! A registered child subnet.

use crate::checkpoint::Checkpoint;
use crate::econ::{atto, token_add, token_lt, token_sub, token_zero};
use crate::keyed::Keyed;
use crate::subnet_id::SubnetID;
use crate::types::StorableMsg;
use fvm_shared::econ::TokenAmount;
use vstd::prelude::*;

verus! {

/// Whether a subnet takes part in the hierarchy.
#[derive(Debug, Clone, Copy, PartialEq, Eq, Structural)]
pub enum Status {
    Active,
    Inactive,
    Killed,
}

/// What the coordinator keeps of a child subnet.
#[derive(Debug)]
pub struct Subnet {
    pub id: SubnetID,
    /// The collateral of the subnet.
    pub stake: TokenAmount,
    /// The messages for the subnet, each at the place of its nonce.
    pub top_down_msgs: Vec<StorableMsg>,
    /// The nonce of the next message for the subnet.
    pub nonce: u64,
    /// The value that went down into the subnet and has not come back.
    pub circ_supply: TokenAmount,
    pub status: Status,
    /// The last checkpoint that the subnet committed.
    pub prev_checkpoint: Option<Checkpoint>,
}

/// Why a subnet refuses a change.
#[derive(Debug, Clone, Copy, PartialEq, Eq, Structural)]
pub enum SubnetError {
    /// More is released than circulates in the subnet.
    InsufficientSupply,
    /// The message does not carry the subnet's next nonce.
    NonceMismatch,
}

/// The status that goes with a stake: active from the minimum stake on.
pub open spec fn status_for(stake: int, min_stake: int) -> Status {
    if stake >= min_stake {
        Status::Active
    } else {
        Status::Inactive
    }
}

/// Whether each message of the queue stands at the place of its nonce.
pub open spec fn nonces_dense(msgs: Seq<StorableMsg>) -> bool {
    forall|i: int| 0 <= i < msgs.len() ==> (#[trigger] msgs[i]).nonce == i
}

impl Keyed for Subnet {
    type Key = SubnetID;

    type KeyV = Seq<u64>;

    open spec fn key(&self) -> Seq<u64> {
        self.id@
    }

    open spec fn key_of(k: &SubnetID) -> Seq<u64> {
        k@
    }

    fn has_key(&self, k: &SubnetID) -> (r: bool) {
        self.id == *k
    }

    fn same_key(&self, other: &Subnet) -> (r: bool) {
        self.id == other.id
    }
}

impl Subnet {
    /// What holds of every registered subnet: it is active exactly when its
    /// stake reaches the minimum, neither stake nor circulating supply is
    /// negative, and its queue holds one message for each nonce below its own,
    /// in order.
    pub open spec fn wf(&self, min_stake: int) -> bool {
        &&& self.status == status_for(atto(self.stake), min_stake)
        &&& atto(self.stake) >= 0
        &&& atto(self.circ_supply) >= 0
        &&& self.top_down_msgs@.len() == self.nonce
        &&& nonces_dense(self.top_down_msgs@)
    }

    /// A subnet that has just registered with the collateral `stake`.
    pub fn new(id: SubnetID, stake: TokenAmount, min_stake: &TokenAmount) -> (r: Subnet)
        ensures
            r.id == id,
            r.stake == stake,
            r.top_down_msgs@ == Seq::<StorableMsg>::empty(),
            r.nonce == 0,
            atto(r.circ_supply) == 0,
            r.status == status_for(atto(stake), atto(*min_stake)),
            r.prev_checkpoint is None,
    {
        let status = if token_lt(&stake, min_stake) {
            Status::Inactive
        } else {
            Status::Active
        };
        Subnet {
            id,
            stake,
            top_down_msgs: Vec::new(),
            nonce: 0,
            circ_supply: token_zero(),
            status,
            prev_checkpoint: None,
        }
    }

    /// Adds `value`, which may be negative, to the stake, and sets the status
    /// that goes with the new stake.
    pub fn add_stake(&mut self, min_stake: &TokenAmount, value: &TokenAmount)
        ensures
            atto(final(self).stake) == atto(old(self).stake) + atto(*value),
            final(self).status == status_for(atto(final(self).stake), atto(*min_stake)),
            final(self).id == old(self).id,
            final(self).top_down_msgs == old(self).top_down_msgs,
            final(self).nonce == old(self).nonce,
            final(self).circ_supply == old(self).circ_supply,
            final(self).prev_checkpoint == old(self).prev_checkpoint,
    {
        self.stake = token_add(&self.stake, value);
        if token_lt(&self.stake, min_stake) {
            self.status = Status::Inactive;
        } else {
            self.status = Status::Active;
        }
    }

    /// Puts a message for the subnet at the end of its queue. The message must
    /// carry the nonce of that place; any other is refused and changes nothing.
    pub fn store_topdown_msg(&mut self, msg: &StorableMsg) -> (r: Result<(), SubnetError>)
        ensures
            match r {
                Ok(()) => {
                    &&& msg.nonce == old(self).top_down_msgs@.len()
                    &&& final(self).top_down_msgs@.len() == old(self).top_down_msgs@.len() + 1
                    &&& final(self).top_down_msgs@.drop_last() == old(self).top_down_msgs@
                    &&& final(self).top_down_msgs@.last()@ == msg@
                    &&& final(self).id == old(self).id
                    &&& final(self).stake == old(self).stake
                    &&& final(self).nonce == old(self).nonce
                    &&& final(self).circ_supply == old(self).circ_supply
                    &&& final(self).status == old(self).status
                    &&& final(self).prev_checkpoint == old(self).prev_checkpoint
                },
                Err(e) => e == SubnetError::NonceMismatch && msg.nonce != old(
                    self,
                ).top_down_msgs@.len() && *final(self) == *old(self),
            },
    {
        if msg.nonce != self.top_down_msgs.len() as u64 {
            return Err(SubnetError::NonceMismatch);
        }
        let m = msg.clone();
        self.top_down_msgs.push(m);
        assert(self.top_down_msgs@.drop_last() =~= old(self).top_down_msgs@);
        Ok(())
    }

    /// Takes `value` out of the circulating supply. More than circulates is
    /// refused and changes nothing.
    pub fn release_supply(&mut self, value: &TokenAmount) -> (r: Result<(), SubnetError>)
        ensures
            match r {
                Ok(()) => {
                    &&& atto(*value) <= atto(old(self).circ_supply)
                    &&& atto(final(self).circ_supply) == atto(old(self).circ_supply) - atto(*value)
                    &&& final(self).id == old(self).id
                    &&& final(self).stake == old(self).stake
                    &&& final(self).top_down_msgs == old(self).top_down_msgs
                    &&& final(self).nonce == old(self).nonce
                    &&& final(self).status == old(self).status
                    &&& final(self).prev_checkpoint == old(self).prev_checkpoint
                },
                Err(e) => e == SubnetError::InsufficientSupply && atto(*value) > atto(
                    old(self).circ_supply,
                ) && *final(self) == *old(self),
            },
    {
        if token_lt(&self.circ_supply, value) {
            return Err(SubnetError::InsufficientSupply);
        }
        self.circ_supply = token_sub(&self.circ_supply, value);
        Ok(())
    }
}

} // verus!
