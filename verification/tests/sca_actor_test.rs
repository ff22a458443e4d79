use fil_actor_hierarchical_sca::actor::{Actor, ActorType, FundParams, Invocation};
use fil_actor_hierarchical_sca::address::{Address, BURNT_FUNDS_ACTOR_ID, SYSTEM_ACTOR_ID};
use fil_actor_hierarchical_sca::apply::ApplyOutcome;
use fil_actor_hierarchical_sca::atomic::{SerializedState, METHOD_ABORT, METHOD_UNLOCK};
use fil_actor_hierarchical_sca::bottomup::CrossMsgParams;
use fil_actor_hierarchical_sca::checkpoint::{
    Checkpoint, ChildCheck, CrossMsgMeta, DEFAULT_CHECKPOINT_PERIOD,
};
use fil_actor_hierarchical_sca::error::{ActorError, ExitCode};
use fil_actor_hierarchical_sca::exec::{
    AbortExecParams, AtomicExecParamsRaw, ExecInput, ExecStatus, LockedStateInfo,
    SubmitExecParams, SubmitOutput,
};
use fil_actor_hierarchical_sca::hash::Cid;
use fil_actor_hierarchical_sca::state::{ConstructorParams, State};
use fil_actor_hierarchical_sca::subnet::{Status, Subnet};
use fil_actor_hierarchical_sca::subnet_id::SubnetID;
use fil_actor_hierarchical_sca::types::StorableMsg;
use fvm_shared::econ::TokenAmount;

const SUBNET_ONE: u64 = 101;
const SUBNET_TWO: u64 = 102;

fn atto(n: u64) -> TokenAmount {
    TokenAmount::from_atto(n)
}

fn zero() -> TokenAmount {
    TokenAmount::from_atto(0)
}

fn code_of<T>(r: &Result<T, ActorError>) -> ExitCode {
    match r {
        Ok(_) => ExitCode::Success,
        Err(e) => e.exit_code(),
    }
}

struct Harness {
    net_name: SubnetID,
    st: State,
    balance: TokenAmount,
    epoch: i64,
}

fn setup(net_name: SubnetID) -> Harness {
    let system = Invocation {
        caller: Address::new_id(SYSTEM_ACTOR_ID),
        caller_type: ActorType::System,
        value_received: zero(),
        curr_epoch: 0,
        current_balance: zero(),
        sig_addr: None,
    };
    let params = ConstructorParams {
        network_name: net_name.to_string(),
        checkpoint_period: DEFAULT_CHECKPOINT_PERIOD,
        min_stake: atto(10_u64.pow(18)),
    };
    let st = Actor::constructor(&system, params).unwrap();
    Harness { net_name, st, balance: zero(), epoch: 0 }
}

fn setup_root() -> Harness {
    setup(SubnetID::root())
}

impl Harness {
    fn invocation(&self, caller: Address, caller_type: ActorType, value: &TokenAmount) -> Invocation {
        let sig_addr = match caller_type {
            ActorType::Account | ActorType::Multisig => Some(caller.clone()),
            _ => None,
        };
        Invocation {
            caller,
            caller_type,
            value_received: value.clone(),
            curr_epoch: self.epoch,
            current_balance: &self.balance + value,
            sig_addr,
        }
    }

    fn set_balance(&mut self, balance: TokenAmount) {
        self.balance = balance;
    }

    fn set_epoch(&mut self, epoch: i64) {
        self.epoch = epoch;
    }

    fn get_subnet(&self, id: &SubnetID) -> Option<&Subnet> {
        self.st.get_subnet(id)
    }

    /// What must hold of the state after every call.
    fn check_state(&self) {
        assert!(self.st.verify_invariants());
        assert_eq!(self.st.total_subnets as usize, self.st.subnets.len());
        for (i, sub) in self.st.subnets.iter().enumerate() {
            assert_eq!(sub.status == Status::Active, sub.stake >= self.st.min_stake);
            assert!(sub.circ_supply >= zero());
            assert_eq!(sub.nonce as usize, sub.top_down_msgs.len());
            for (k, m) in sub.top_down_msgs.iter().enumerate() {
                assert_eq!(m.nonce as usize, k);
            }
            for other in self.st.subnets.iter().skip(i + 1) {
                assert_ne!(sub.id, other.id);
            }
        }
        let mut last: Option<u64> = None;
        for m in self.st.bottomup_msg_meta.iter() {
            assert!(m.nonce < self.st.nonce);
            if let Some(l) = last {
                assert!(l < m.nonce);
            }
            last = Some(m.nonce);
        }
        for ch in self.st.checkpoints.iter() {
            assert_eq!(ch.data.epoch % self.st.check_period, 0);
            for pair in ch.data.cross_msgs.windows(2) {
                let a = (&pair[0].from, &pair[0].to);
                let b = (&pair[1].from, &pair[1].to);
                assert!(a.0.precedes(b.0) || (a.0 == b.0 && a.1.precedes(b.1)));
            }
            for pair in ch.data.children.windows(2) {
                assert!(pair[0].source.precedes(&pair[1].source));
            }
        }
        for entry in self.st.check_msg_registry.iter() {
            assert_eq!(entry.cid, entry.msgs.cid());
        }
    }

    fn register(&mut self, subnet: u64, value: &TokenAmount, code: ExitCode) {
        let inv = self.invocation(Address::new_id(subnet), ActorType::Subnet, value);
        let r = Actor::register(&mut self.st, &inv);
        assert_eq!(code_of(&r), code);
        if let Ok(id) = r {
            assert_eq!(id, SubnetID::new_child(&self.net_name, subnet));
            self.balance += value;
        }
        self.check_state();
    }

    fn add_stake(&mut self, subnet: u64, value: &TokenAmount, code: ExitCode) {
        let inv = self.invocation(Address::new_id(subnet), ActorType::Subnet, value);
        let r = Actor::add_stake(&mut self.st, &inv);
        assert_eq!(code_of(&r), code);
        if r.is_ok() {
            self.balance += value;
        }
        self.check_state();
    }

    fn release_stake(&mut self, subnet: u64, value: &TokenAmount, code: ExitCode) {
        let inv = self.invocation(Address::new_id(subnet), ActorType::Subnet, &zero());
        let r = Actor::release_stake(&mut self.st, &inv, FundParams { value: value.clone() });
        assert_eq!(code_of(&r), code);
        if let Ok(send) = r {
            assert_eq!(send.to, Address::new_id(subnet));
            assert_eq!(send.method, 0);
            assert_eq!(&send.value, value);
            self.balance -= value;
        }
        self.check_state();
    }

    fn kill(&mut self, subnet: u64, release_value: &TokenAmount, code: ExitCode) {
        let inv = self.invocation(Address::new_id(subnet), ActorType::Subnet, &zero());
        let r = Actor::kill(&mut self.st, &inv);
        assert_eq!(code_of(&r), code);
        if let Ok(send) = r {
            assert_eq!(send.to, Address::new_id(subnet));
            assert_eq!(&send.value, release_value);
            self.balance -= release_value;
        }
        self.check_state();
    }

    fn commit_child_check(
        &mut self,
        subnet: u64,
        ch: &Checkpoint,
        code: ExitCode,
        burn_value: TokenAmount,
    ) {
        let inv = self.invocation(Address::new_id(subnet), ActorType::Subnet, &zero());
        let r = Actor::commit_child_check(&mut self.st, &inv, clone_checkpoint(ch));
        assert_eq!(code_of(&r), code);
        if let Ok(burn) = r {
            match burn {
                Some(send) => {
                    assert_eq!(send.to, Address::new_id(BURNT_FUNDS_ACTOR_ID));
                    assert_eq!(send.value, burn_value);
                    assert!(send.value > zero());
                }
                None => assert_eq!(burn_value, zero()),
            }
        }
        self.check_state();
    }

    fn fund(
        &mut self,
        funder: &Address,
        id: &SubnetID,
        code: ExitCode,
        value: TokenAmount,
        expected_nonce: u64,
        expected_circ_sup: &TokenAmount,
    ) {
        let inv = self.invocation(funder.clone(), ActorType::Account, &value);
        let r = Actor::fund(&mut self.st, &inv, id.clone());
        assert_eq!(code_of(&r), code);
        if r.is_ok() {
            self.balance += &value;
            let sub = self.get_subnet(id).unwrap();
            assert_eq!(sub.nonce, expected_nonce);
            assert_eq!(&sub.circ_supply, expected_circ_sup);
            let msg = &sub.top_down_msgs[(expected_nonce - 1) as usize];
            assert_eq!(msg.nonce, expected_nonce - 1);
            assert_eq!(msg.value, value);
            assert_eq!(
                msg.from,
                Address::new_hierarchical(&id.parent().unwrap(), funder).unwrap()
            );
            assert_eq!(msg.to, Address::new_hierarchical(id, funder).unwrap());
        }
        self.check_state();
    }

    fn release(
        &mut self,
        releaser: &Address,
        code: ExitCode,
        value: TokenAmount,
        expected_nonce: u64,
        prev_meta: &Cid,
    ) -> Cid {
        let inv = self.invocation(releaser.clone(), ActorType::Account, &value);
        let r = Actor::release(&mut self.st, &inv);
        assert_eq!(code_of(&r), code);
        let mut meta_cid = Cid::undefined();
        if let Ok(burn) = r {
            assert_eq!(burn.to, Address::new_id(BURNT_FUNDS_ACTOR_ID));
            assert_eq!(burn.value, value);
            let parent = self.net_name.parent().unwrap();
            let ch = self.window_checkpoint();
            let meta = ch.crossmsg_meta(&self.net_name, &parent).unwrap();
            assert_ne!(&meta.msgs_cid, prev_meta);
            meta_cid = meta.msgs_cid.clone();
            let content = self
                .st
                .check_msg_registry
                .iter()
                .find(|e| e.cid == meta_cid)
                .unwrap();
            assert_eq!(content.msgs.cid(), meta_cid);
            let msg = &content.msgs.msgs[expected_nonce as usize];
            assert_eq!(msg.nonce, expected_nonce);
            assert_eq!(msg.value, value);
            assert_eq!(
                msg.from,
                Address::new_hierarchical(&self.net_name, &Address::new_id(BURNT_FUNDS_ACTOR_ID))
                    .unwrap()
            );
            assert_eq!(msg.to, Address::new_hierarchical(&parent, releaser).unwrap());
            assert_eq!(self.st.nonce, expected_nonce + 1);
        }
        self.check_state();
        meta_cid
    }

    fn window_checkpoint(&self) -> &Checkpoint {
        let period = self.st.check_period;
        let window = ((self.epoch + period - 1) / period) * period;
        self.st.checkpoints.iter().find(|c| c.data.epoch == window).unwrap()
    }

    #[allow(clippy::too_many_arguments)]
    fn send_cross(
        &mut self,
        from: &Address,
        to: &Address,
        sub: SubnetID,
        code: ExitCode,
        value: TokenAmount,
        nonce: u64,
        expected_circ_sup: &TokenAmount,
    ) {
        let inv = self.invocation(from.clone(), ActorType::Account, &value);
        let msg = StorableMsg {
            from: from.clone(),
            to: to.clone(),
            method: 0,
            params: Vec::new(),
            value: value.clone(),
            nonce: 0,
        };
        let top_down = self.net_name.is_ancestor_or_same(&sub);
        let state_nonce = self.st.nonce;
        let r = Actor::send_cross(
            &mut self.st,
            &inv,
            CrossMsgParams { msg, destination: sub.clone() },
        );
        assert_eq!(code_of(&r), code);
        if let Ok(burn) = r {
            let expected_from = Address::new_hierarchical(&self.net_name, from).unwrap();
            let expected_to = Address::new_hierarchical(&sub, to).unwrap();
            if top_down {
                assert!(burn.is_none());
                let hop = sub.down(&self.net_name).unwrap();
                let child = self.get_subnet(&hop).unwrap();
                assert_eq!(child.nonce, nonce);
                assert_eq!(&child.circ_supply, expected_circ_sup);
                let stored = &child.top_down_msgs[(nonce - 1) as usize];
                assert_eq!(stored.from, expected_from);
                assert_eq!(stored.to, expected_to);
                assert_eq!(stored.nonce, nonce - 1);
                assert_eq!(stored.value, value);
            } else {
                let burn = burn.unwrap();
                assert_eq!(burn.to, Address::new_id(BURNT_FUNDS_ACTOR_ID));
                assert_eq!(burn.value, value);
                let ch = self.window_checkpoint();
                let meta = ch.crossmsg_meta(&self.net_name, &sub).unwrap();
                let content = self
                    .st
                    .check_msg_registry
                    .iter()
                    .find(|e| e.cid == meta.msgs_cid)
                    .unwrap();
                let stored = &content.msgs.msgs[nonce as usize];
                assert_eq!(stored.from, expected_from);
                assert_eq!(stored.to, expected_to);
                assert_eq!(stored.nonce, state_nonce);
                assert_eq!(stored.value, value);
                assert_eq!(self.st.nonce, state_nonce + 1);
            }
        }
        self.check_state();
    }

    #[allow(clippy::too_many_arguments)]
    fn apply_cross_msg(
        &mut self,
        from: &Address,
        to: &Address,
        value: TokenAmount,
        msg_nonce: u64,
        td_nonce: u64,
        code: ExitCode,
        _noop: bool,
    ) {
        let inv = self.invocation(Address::new_id(SYSTEM_ACTOR_ID), ActorType::System, &zero());
        let msg = StorableMsg {
            from: from.clone(),
            to: to.clone(),
            method: 0,
            params: Vec::new(),
            value: value.clone(),
            nonce: msg_nonce,
        };
        let sto = to.subnet().unwrap();
        let bottom_up = matches!(
            msg.apply_type(&self.net_name),
            Ok(fil_actor_hierarchical_sca::types::HCMsgType::BottomUp)
        );
        let applied_td = self.st.applied_topdown_nonce;
        let r = Actor::apply_msg(&mut self.st, &inv, msg);
        assert_eq!(code_of(&r), code);
        if let Ok(ApplyOutcome { mint, forward, submitted }) = r {
            assert!(submitted.is_none());
            if bottom_up {
                assert!(mint.is_none());
                assert_eq!(self.st.applied_bottomup_nonce, msg_nonce);
                assert_eq!(self.st.applied_topdown_nonce, applied_td);
            } else {
                assert_eq!(mint.unwrap(), value);
                assert_eq!(self.st.applied_topdown_nonce, msg_nonce + 1);
            }
            if sto == self.net_name {
                let send = forward.unwrap();
                assert_eq!(send.to, to.raw_addr().unwrap());
                assert_eq!(send.method, 0);
                assert_eq!(send.value, value);
            } else {
                assert!(forward.is_none());
                let hop = sto.down(&self.net_name).unwrap();
                let child = self.get_subnet(&hop).unwrap();
                assert_eq!(child.nonce, td_nonce + 1);
                let stored = &child.top_down_msgs[td_nonce as usize];
                assert_eq!(&stored.from, from);
                assert_eq!(&stored.to, to);
                assert_eq!(stored.nonce, td_nonce);
                assert_eq!(stored.value, value);
            }
        }
        self.check_state();
    }

    fn init_atomic_exec(&mut self, caller: &Address, params: &AtomicExecParamsRaw, code: ExitCode) {
        let inv = self.invocation(caller.clone(), ActorType::Account, &zero());
        let ids: Vec<Option<u64>> =
            params.inputs.iter().map(|i| i.addr.raw_addr().unwrap().id().ok()).collect();
        let cid = params.cid().unwrap();
        let r = Actor::init_atomic_exec(&mut self.st, &inv, clone_exec_params(params), &ids);
        assert_eq!(code_of(&r), code);
        if let Ok(out) = r {
            assert_eq!(out.cid, cid);
            let exec = self.st.get_atomic_exec(&cid).unwrap();
            assert_eq!(exec.status(), ExecStatus::Initialized);
            assert_eq!(exec.submitted().len(), 0);
            assert_eq!(exec.params().inputs.len(), params.inputs.len());
        }
        self.check_state();
    }

    fn submit_atomic_exec(
        &mut self,
        caller: &Address,
        params: &SubmitExecParams,
        expected: SubmitOutput,
        submitted: usize,
        code: ExitCode,
    ) {
        let nonces: Vec<u64> = self.st.subnets.iter().map(|s| s.nonce).collect();
        let r = Actor::submit_atomic_exec(&mut self.st, caller, clone_submit(params));
        assert_eq!(code_of(&r), code);
        if let Ok(out) = r {
            assert_eq!(out, expected);
            let exec = self.st.get_atomic_exec(&params.cid).unwrap();
            assert_eq!(exec.status(), expected.status);
            assert_eq!(exec.submitted().len(), submitted);
            for (sub, before) in self.st.subnets.iter().zip(nonces.iter()) {
                match expected.status {
                    ExecStatus::Initialized => assert_eq!(sub.nonce, *before),
                    ExecStatus::Success => {
                        assert_eq!(sub.nonce, before + 1);
                        assert_eq!(sub.top_down_msgs.last().unwrap().method, METHOD_UNLOCK);
                    }
                    ExecStatus::Aborted => {
                        assert_eq!(sub.nonce, before + 1);
                        assert_eq!(sub.top_down_msgs.last().unwrap().method, METHOD_ABORT);
                        assert!(sub.top_down_msgs.last().unwrap().params.is_empty());
                    }
                }
            }
        }
        self.check_state();
    }
}

fn clone_meta(m: &CrossMsgMeta) -> CrossMsgMeta {
    m.clone()
}

fn clone_checkpoint(ch: &Checkpoint) -> Checkpoint {
    let mut out = Checkpoint::new(ch.data.source.clone(), ch.data.epoch);
    out.data.prev_check = ch.data.prev_check.clone();
    out.data.children = ch
        .data
        .children
        .iter()
        .map(|c| ChildCheck { source: c.source.clone(), checks: c.checks.to_vec() })
        .collect();
    out.data.cross_msgs = ch.data.cross_msgs.iter().map(clone_meta).collect();
    out
}

fn clone_exec_params(p: &AtomicExecParamsRaw) -> AtomicExecParamsRaw {
    AtomicExecParamsRaw {
        msgs: p.msgs.to_vec(),
        inputs: p
            .inputs
            .iter()
            .map(|i| ExecInput { addr: i.addr.clone(), info: i.info.clone() })
            .collect(),
    }
}

fn clone_submit(p: &SubmitExecParams) -> SubmitExecParams {
    SubmitExecParams { cid: p.cid.clone(), abort: p.abort, output: p.output.clone() }
}

fn has_childcheck_source<'a>(children: &'a [ChildCheck], source: &SubnetID) -> Option<&'a ChildCheck> {
    children.iter().find(|m| source == &m.source)
}

fn has_cid(children: &[Cid], cid: &Cid) -> bool {
    children.iter().any(|c| c == cid)
}

fn add_msg_meta(ch: &mut Checkpoint, from: &SubnetID, to: &SubnetID, rand: Vec<u8>, value: TokenAmount) {
    let meta = CrossMsgMeta {
        from: from.clone(),
        to: to.clone(),
        msgs_cid: Cid::of(&rand),
        nonce: 0,
        value,
    };
    ch.data.cross_msgs.push(meta);
}

fn gen_exec_msgs(addr: Address) -> Vec<StorableMsg> {
    vec![
        StorableMsg {
            from: addr.clone(),
            to: addr.clone(),
            value: zero(),
            method: 2,
            params: Vec::new(),
            nonce: 0,
        },
        StorableMsg { from: addr.clone(), to: addr, value: zero(), method: 2, params: Vec::new(), nonce: 0 },
    ]
}

fn gen_locked_state(sn1: &SubnetID, sn2: &SubnetID, caller: &Address, other: &Address) -> Vec<ExecInput> {
    let lock_cid1 = Cid::of(&b"test1".to_vec());
    let lock_cid2 = Cid::of(&b"test2".to_vec());
    let addr1 = Address::new_hierarchical(sn1, caller).unwrap();
    let addr2 = Address::new_hierarchical(sn2, other).unwrap();
    let act1 = Address::new_id(900);
    let act2 = Address::new_id(901);
    vec![
        ExecInput { addr: addr1, info: LockedStateInfo { cid: lock_cid1, actor: act1 } },
        ExecInput { addr: addr2, info: LockedStateInfo { cid: lock_cid2, actor: act2 } },
    ]
}

#[test]
fn construct() {
    let h = setup_root();
    assert_eq!(h.st.network_name, SubnetID::root());
    assert_eq!(h.st.total_subnets, 0);
    assert_eq!(h.st.check_period, DEFAULT_CHECKPOINT_PERIOD);
    assert_eq!(h.st.min_stake, atto(10_u64.pow(18)));
    assert_eq!(h.st.nonce, 0);
    assert_eq!(h.st.applied_topdown_nonce, 0);
    assert_eq!(h.st.applied_bottomup_nonce, u64::MAX);
    h.check_state();
}

#[test]
fn register_subnet() {
    let mut h = setup_root();

    // Register a subnet with 1FIL collateral
    let mut value = atto(10_u64.pow(18));
    h.register(SUBNET_ONE, &value, ExitCode::Success);

    assert_eq!(h.st.total_subnets, 1);
    let shid = SubnetID::new_child(&h.net_name, SUBNET_ONE);
    let subnet = h.get_subnet(&shid).unwrap();
    assert_eq!(subnet.id, shid);
    assert_eq!(subnet.stake, value);
    assert_eq!(subnet.circ_supply, zero());
    assert_eq!(subnet.status, Status::Active);
    h.check_state();

    // Registering an already existing subnet should fail
    h.register(SUBNET_ONE, &value, ExitCode::UsrIllegalArgument);
    h.check_state();
    assert_eq!(h.st.total_subnets, 1);

    // Registering without enough collateral.
    value = atto(10_u64.pow(17));
    h.register(SUBNET_ONE, &value, ExitCode::UsrIllegalArgument);
    h.check_state();
    assert_eq!(h.st.total_subnets, 1);

    // Register additional subnet
    value = TokenAmount::from_atto(12_i128.pow(18));
    h.register(SUBNET_TWO, &value, ExitCode::Success);

    assert_eq!(h.st.total_subnets, 2);
    let shid = SubnetID::new_child(&h.net_name, SUBNET_TWO);
    let subnet = h.get_subnet(&shid).unwrap();
    assert_eq!(subnet.id, shid);
    assert_eq!(subnet.stake, value);
    assert_eq!(subnet.circ_supply, zero());
    assert_eq!(subnet.status, Status::Active);
    h.check_state();
}

#[test]
fn add_stake() {
    let mut h = setup_root();

    // Register a subnet with 1FIL collateral
    let value = atto(10_u64.pow(18));
    h.register(SUBNET_ONE, &value, ExitCode::Success);

    assert_eq!(h.st.total_subnets, 1);
    let shid = SubnetID::new_child(&h.net_name, SUBNET_ONE);
    let subnet = h.get_subnet(&shid).unwrap();
    assert_eq!(subnet.id, shid);
    assert_eq!(subnet.stake, value);
    assert_eq!(subnet.circ_supply, zero());
    assert_eq!(subnet.status, Status::Active);
    h.check_state();

    // Add some stake
    h.add_stake(SUBNET_ONE, &value, ExitCode::Success);
    let subnet = h.get_subnet(&shid).unwrap();
    assert_eq!(subnet.stake, &value * 2_i16);

    // Add to unregistered subnet
    h.add_stake(SUBNET_TWO, &value, ExitCode::UsrIllegalArgument);

    // Add some more stake
    h.add_stake(SUBNET_ONE, &value, ExitCode::Success);
    let subnet = h.get_subnet(&shid).unwrap();
    assert_eq!(subnet.stake, &value * 3_i16);

    // Add with zero value
    h.add_stake(SUBNET_ONE, &zero(), ExitCode::UsrIllegalArgument);
}

#[test]
fn release_stake() {
    let mut h = setup_root();

    // Register a subnet with 1FIL collateral
    let value = atto(10_u64.pow(18));
    h.register(SUBNET_ONE, &value, ExitCode::Success);

    assert_eq!(h.st.total_subnets, 1);
    let shid = SubnetID::new_child(&h.net_name, SUBNET_ONE);
    let subnet = h.get_subnet(&shid).unwrap();
    assert_eq!(subnet.id, shid);
    assert_eq!(subnet.stake, value);
    assert_eq!(subnet.circ_supply, zero());
    assert_eq!(subnet.status, Status::Active);
    h.check_state();

    // Add some stake
    h.add_stake(SUBNET_ONE, &value, ExitCode::Success);
    let subnet = h.get_subnet(&shid).unwrap();
    assert_eq!(subnet.stake, &value * 2_i16);

    // Release some stake
    h.release_stake(SUBNET_ONE, &value, ExitCode::Success);
    let subnet = h.get_subnet(&shid).unwrap();
    assert_eq!(subnet.stake, value.clone());
    assert_eq!(subnet.status, Status::Active);

    // Release from unregistered subnet
    h.release_stake(SUBNET_TWO, &value, ExitCode::UsrIllegalArgument);

    // Release with zero value
    h.release_stake(SUBNET_ONE, &zero(), ExitCode::UsrIllegalArgument);

    // Release enough to inactivate
    h.set_balance(&value * 2_i16);
    h.release_stake(SUBNET_ONE, &atto(5u64.pow(17)), ExitCode::Success);
    let subnet = h.get_subnet(&shid).unwrap();
    assert_eq!(subnet.stake, &value - atto(5u64.pow(17)));
    assert_eq!(subnet.status, Status::Inactive);

    // Not enough funds to release
    h.release_stake(SUBNET_ONE, &value, ExitCode::UsrIllegalState);

    // Balance is not enough to release
    h.set_balance(zero());
    h.release_stake(SUBNET_ONE, &atto(5u64.pow(17)), ExitCode::UsrIllegalState);
}

#[test]
fn test_kill() {
    let mut h = setup_root();

    // Register a subnet with 1FIL collateral
    let value = atto(10_u64.pow(18));
    h.register(SUBNET_ONE, &value, ExitCode::Success);

    assert_eq!(h.st.total_subnets, 1);
    let shid = SubnetID::new_child(&h.net_name, SUBNET_ONE);
    let subnet = h.get_subnet(&shid).unwrap();
    assert_eq!(subnet.id, shid);
    assert_eq!(subnet.stake, value);
    assert_eq!(subnet.circ_supply, zero());
    assert_eq!(subnet.status, Status::Active);
    h.check_state();

    // Add some stake
    h.kill(SUBNET_ONE, &value, ExitCode::Success);
    assert_eq!(h.st.total_subnets, 0);
    assert!(h.get_subnet(&shid).is_none());
}

#[test]
fn checkpoint_commit() {
    let mut h = setup_root();

    // Register a subnet with 1FIL collateral
    let value = atto(10_u64.pow(18));
    h.register(SUBNET_ONE, &value, ExitCode::Success);

    assert_eq!(h.st.total_subnets, 1);
    let shid = SubnetID::new_child(&h.net_name, SUBNET_ONE);
    let subnet = h.get_subnet(&shid).unwrap();
    assert_eq!(subnet.id, shid);
    assert_eq!(subnet.stake, value);
    assert_eq!(subnet.circ_supply, zero());
    assert_eq!(subnet.status, Status::Active);
    h.check_state();

    // Commit first checkpoint for first window in first subnet
    let epoch: i64 = 10;
    h.set_epoch(epoch);
    let ch = Checkpoint::new(shid.clone(), epoch + 9);

    h.commit_child_check(SUBNET_ONE, &ch, ExitCode::Success, zero());
    let commit = h.window_checkpoint();
    assert_eq!(commit.epoch(), DEFAULT_CHECKPOINT_PERIOD);
    let child_check = has_childcheck_source(&commit.data.children, &shid).unwrap();
    assert_eq!(&child_check.checks.len(), &1);
    assert_eq!(has_cid(&child_check.checks, &ch.cid()), true);

    // Commit a checkpoint for subnet twice
    h.commit_child_check(SUBNET_ONE, &ch, ExitCode::UsrIllegalArgument, zero());
    let prev_cid = ch.cid();

    // Append a new checkpoint for the same subnet
    let mut ch = Checkpoint::new(shid.clone(), epoch + 11);
    ch.data.prev_check = prev_cid;
    h.commit_child_check(SUBNET_ONE, &ch, ExitCode::Success, zero());
    let commit = h.window_checkpoint();
    assert_eq!(commit.epoch(), DEFAULT_CHECKPOINT_PERIOD);
    let child_check = has_childcheck_source(&commit.data.children, &shid).unwrap();
    assert_eq!(&child_check.checks.len(), &2);
    assert_eq!(has_cid(&child_check.checks, &ch.cid()), true);

    // Register second subnet
    h.register(SUBNET_TWO, &value, ExitCode::Success);

    assert_eq!(h.st.total_subnets, 2);
    let shid_two = SubnetID::new_child(&h.net_name, SUBNET_TWO);
    let subnet = h.get_subnet(&shid_two).unwrap();
    assert_eq!(subnet.id, shid_two);
    h.check_state();

    // Trying to commit from the wrong subnet
    let ch = Checkpoint::new(shid.clone(), epoch + 9);
    h.commit_child_check(SUBNET_TWO, &ch, ExitCode::UsrIllegalArgument, zero());

    // Commit first checkpoint for first window in second subnet
    let epoch: i64 = 10;
    h.set_epoch(epoch);
    let ch = Checkpoint::new(shid_two.clone(), epoch + 9);

    h.commit_child_check(SUBNET_TWO, &ch, ExitCode::Success, zero());
    let commit = h.window_checkpoint();
    assert_eq!(commit.epoch(), DEFAULT_CHECKPOINT_PERIOD);
    let child_check = has_childcheck_source(&commit.data.children, &shid_two).unwrap();
    assert_eq!(&child_check.checks.len(), &1);
    assert_eq!(has_cid(&child_check.checks, &ch.cid()), true);
}

#[test]
fn checkpoint_crossmsgs() {
    let mut h = setup_root();

    // Register a subnet with 1FIL collateral
    let value = atto(10_u64.pow(18));
    h.register(SUBNET_ONE, &value, ExitCode::Success);

    assert_eq!(h.st.total_subnets, 1);
    let shid = SubnetID::new_child(&h.net_name, SUBNET_ONE);
    let subnet = h.get_subnet(&shid).unwrap();
    assert_eq!(subnet.id, shid);
    assert_eq!(subnet.stake, value);
    assert_eq!(subnet.circ_supply, zero());
    assert_eq!(subnet.status, Status::Active);
    h.check_state();

    // Commit first checkpoint for first window in first subnet
    let epoch: i64 = 10;
    h.set_epoch(epoch);
    let mut ch = Checkpoint::new(shid.clone(), epoch + 9);
    // Directed to other subnets
    add_msg_meta(
        &mut ch,
        &shid,
        &SubnetID::from_str("/root/f0102/f0101").unwrap(),
        "rand1".as_bytes().to_vec(),
        zero(),
    );
    add_msg_meta(
        &mut ch,
        &shid,
        &SubnetID::from_str("/root/f0102/f0102").unwrap(),
        "rand2".as_bytes().to_vec(),
        zero(),
    );
    // And to this subnet
    add_msg_meta(&mut ch, &shid, &h.net_name, "rand1".as_bytes().to_vec(), zero());
    add_msg_meta(&mut ch, &shid, &h.net_name, "rand2".as_bytes().to_vec(), zero());
    add_msg_meta(&mut ch, &shid, &h.net_name, "rand3".as_bytes().to_vec(), zero());
    // And to other child from the subnet
    add_msg_meta(
        &mut ch,
        &shid,
        &SubnetID::new_child(&h.net_name, 100),
        "rand1".as_bytes().to_vec(),
        zero(),
    );

    h.commit_child_check(SUBNET_ONE, &ch, ExitCode::Success, zero());
    let net_name = h.net_name.clone();
    let commit = h.window_checkpoint();
    assert_eq!(commit.epoch(), DEFAULT_CHECKPOINT_PERIOD);
    let child_check = has_childcheck_source(&commit.data.children, &shid).unwrap();
    assert_eq!(&child_check.checks.len(), &1);
    let prev_cid = ch.cid();
    assert_eq!(has_cid(&child_check.checks, &prev_cid), true);

    for item in 0..=2 {
        assert_eq!(h.st.bottomup_msg_meta[item].nonce, item as u64);
    }
    // Check that the ones directed to other subnets are aggregated in message-meta
    for to in vec![
        SubnetID::from_str("/root/f0102/f0101").unwrap(),
        SubnetID::from_str("/root/f0102/f0102").unwrap(),
    ] {
        commit.crossmsg_meta(&net_name, &to).unwrap();
    }

    // funding subnet so it has some funds
    let funder = Address::new_id(1001);
    let amount = atto(10_u64.pow(18));
    h.fund(&funder, &shid, ExitCode::Success, amount.clone(), 1, &amount);

    let mut ch = Checkpoint::new(shid.clone(), epoch + 9);
    ch.data.prev_check = prev_cid;
    add_msg_meta(
        &mut ch,
        &shid,
        &SubnetID::from_str("/root/f0102/f0101").unwrap(),
        "rand1".as_bytes().to_vec(),
        atto(5_u64.pow(18)),
    );
    add_msg_meta(
        &mut ch,
        &shid,
        &SubnetID::from_str("/root/f0102/f0102").unwrap(),
        "rand2".as_bytes().to_vec(),
        atto(5_u64.pow(18)),
    );
    // nothing is for this network, so that nothing is burnt
    h.commit_child_check(SUBNET_ONE, &ch, ExitCode::Success, zero());
    let commit = h.window_checkpoint();
    assert_eq!(commit.epoch(), DEFAULT_CHECKPOINT_PERIOD);
    let child_check = has_childcheck_source(&commit.data.children, &shid).unwrap();
    assert_eq!(&child_check.checks.len(), &2);
    assert_eq!(has_cid(&child_check.checks, &ch.cid()), true);

    for item in 0..=2 {
        assert_eq!(h.st.bottomup_msg_meta[item].nonce, item as u64);
    }
    for to in vec![
        SubnetID::from_str("/root/f0102/f0101").unwrap(),
        SubnetID::from_str("/root/f0102/f0102").unwrap(),
    ] {
        // verify that some value has been included in metas.
        let meta = commit.crossmsg_meta(&net_name, &to).unwrap();
        assert_eq!(true, meta.value > zero());
    }
}

#[test]
fn test_fund() {
    let mut h = setup_root();

    // Register a subnet with 1FIL collateral
    let value = atto(10_u64.pow(18));
    h.register(SUBNET_ONE, &value, ExitCode::Success);

    assert_eq!(h.st.total_subnets, 1);
    let shid = SubnetID::new_child(&h.net_name, SUBNET_ONE);
    let subnet = h.get_subnet(&shid).unwrap();
    assert_eq!(subnet.id, shid);
    assert_eq!(subnet.stake, value);
    assert_eq!(subnet.circ_supply, zero());
    assert_eq!(subnet.status, Status::Active);
    h.check_state();

    let funder = Address::new_id(1001);
    let amount = atto(10_u64.pow(18));
    h.fund(&funder, &shid, ExitCode::Success, amount.clone(), 1, &amount);
    let funder = Address::new_id(1002);
    let mut exp_cs = amount.clone() * 2;
    h.fund(&funder, &shid, ExitCode::Success, amount.clone(), 2, &exp_cs);
    exp_cs += amount.clone();
    h.fund(&funder, &shid, ExitCode::Success, amount.clone(), 3, &exp_cs);
    // No funds sent
    h.fund(&funder, &shid, ExitCode::UsrIllegalArgument, zero(), 3, &exp_cs);

    // Subnet doesn't exist
    h.fund(
        &funder,
        &SubnetID::new_child(&h.net_name, SUBNET_TWO),
        ExitCode::UsrIllegalArgument,
        zero(),
        3,
        &exp_cs,
    );
}

#[test]
fn test_release() {
    let shid = SubnetID::new_child(&SubnetID::root(), SUBNET_ONE);
    let mut h = setup(shid.clone());

    let releaser = Address::new_id(1001);
    // Release funds
    let r_amount = atto(5_u64.pow(18));
    h.set_balance(r_amount.clone() * 2_i16);
    let prev_cid = h.release(&releaser, ExitCode::Success, r_amount.clone(), 0, &Cid::default());
    h.release(&releaser, ExitCode::Success, r_amount, 1, &prev_cid);
}

#[test]
fn test_send_cross() {
    let shid = SubnetID::new_child(&SubnetID::root(), SUBNET_ONE);
    let mut h = setup(shid.clone());

    let from = Address::new_id(1001);
    let to = Address::new_id(1002);

    let value = atto(10_u64.pow(18));

    // register subnet
    let reg_value = atto(10_u64.pow(18));
    h.register(SUBNET_ONE, &reg_value, ExitCode::Success);

    // top-down
    let sub = SubnetID::from_str("/root/f0101/f0101").unwrap();
    h.send_cross(&from, &to, sub, ExitCode::Success, value.clone(), 1, &value);
    let sub = SubnetID::from_str("/root/f0101/f0101").unwrap();
    let circ_sup = &value * 2_i16;
    h.send_cross(&from, &to, sub, ExitCode::Success, value.clone(), 2, &circ_sup);
    let sub = SubnetID::from_str("/root/f0101/f0101/f01002").unwrap();
    let circ_sup = circ_sup.clone() + &value;
    h.send_cross(&from, &to, sub, ExitCode::Success, value.clone(), 3, &circ_sup);

    // bottom-up
    h.set_balance(&value * 3_i16);
    let sub = SubnetID::from_str("/root/f0102/f0101").unwrap();
    let zero = zero();
    h.send_cross(&from, &to, sub, ExitCode::Success, value.clone(), 0, &zero);
    let sub = SubnetID::from_str("/root/f0102/f0101").unwrap();
    h.send_cross(&from, &to, sub, ExitCode::Success, value.clone(), 1, &zero);
    let sub = SubnetID::from_str("/root").unwrap();
    h.send_cross(&from, &to, sub, ExitCode::Success, value.clone(), 0, &zero);
}

#[test]
fn test_apply_routing() {
    let shid = SubnetID::new_child(&SubnetID::root(), SUBNET_ONE);
    let mut h = setup(shid.clone());

    let from = Address::new_bls(&vec![3; 48]).unwrap();
    let to = Address::new_bls(&vec![4; 48]).unwrap();

    let sub1 = SubnetID::new_child(&shid, SUBNET_ONE);
    let sub2 = SubnetID::new_child(&shid, SUBNET_TWO);

    // register subnets
    let reg_value = atto(10_u64.pow(18));
    h.register(SUBNET_ONE, &reg_value, ExitCode::Success);
    h.register(SUBNET_TWO, &reg_value, ExitCode::Success);

    // add some circulating supply to subnets
    let funder = Address::new_id(1002);
    h.fund(&funder, &sub1, ExitCode::Success, reg_value.clone(), 1, &reg_value);
    h.fund(&funder, &sub2, ExitCode::Success, reg_value.clone(), 1, &reg_value);

    let value = atto(10_u64.pow(17));

    //top-down
    let ff = Address::new_hierarchical(&SubnetID::root(), &from).unwrap();
    let tt = Address::new_hierarchical(&sub1, &to).unwrap();
    h.apply_cross_msg(&ff, &tt, value.clone(), 0, 1, ExitCode::Success, false);
    let tt = Address::new_hierarchical(&sub2, &to).unwrap();
    h.apply_cross_msg(&ff, &tt, value.clone(), 1, 1, ExitCode::Success, false);
    let ff =
        Address::new_hierarchical(&SubnetID::from_str("/root/f01/f012").unwrap(), &from).unwrap();
    let tt = Address::new_hierarchical(&sub1, &to).unwrap();
    h.apply_cross_msg(&ff, &tt, value.clone(), 2, 2, ExitCode::Success, false);
    // directed to current network
    let tt = Address::new_hierarchical(&shid, &to).unwrap();
    h.apply_cross_msg(&ff, &tt, value.clone(), 3, 0, ExitCode::Success, false);

    // bottom-up
    let ff = Address::new_hierarchical(&sub1, &from).unwrap();
    let tt = Address::new_hierarchical(&SubnetID::from_str("/root/f0101/f0102/f011").unwrap(), &to)
        .unwrap();
    h.apply_cross_msg(&ff, &tt, value.clone(), 0, 2, ExitCode::Success, false);
    let ff = Address::new_hierarchical(&sub2, &from).unwrap();
    let tt = Address::new_hierarchical(&SubnetID::from_str("/root/f0101/f0101/f011").unwrap(), &to)
        .unwrap();
    h.apply_cross_msg(&ff, &tt, value.clone(), 1, 3, ExitCode::Success, false);
    // directed to current network
    let ff =
        Address::new_hierarchical(&SubnetID::from_str("/root/f0101/f0102/f011").unwrap(), &from)
            .unwrap();
    let tt = Address::new_hierarchical(&shid, &to).unwrap();
    h.apply_cross_msg(&ff, &tt, value.clone(), 1, 0, ExitCode::Success, false);
}

#[test]
fn test_apply_msg() {
    let mut h = setup_root();

    // Register a subnet with 1FIL collateral
    let value = atto(10_u64.pow(18));
    h.register(SUBNET_ONE, &value, ExitCode::Success);
    let shid = SubnetID::new_child(&h.net_name, SUBNET_ONE);

    // inject some funds
    let funder_id = Address::new_id(1001);
    let funder = Address::new_hierarchical(
        &shid.parent().unwrap(),
        &Address::new_bls(&vec![3; 48]).unwrap(),
    )
    .unwrap();
    let amount = atto(10_u64.pow(18));
    h.fund(&funder_id, &shid, ExitCode::Success, amount.clone(), 1, &amount);

    // Apply fund messages
    for i in 0..5 {
        h.apply_cross_msg(&funder, &funder, value.clone(), i, i, ExitCode::Success, false);
    }
    // Apply release messages
    let from = Address::new_hierarchical(&shid, &Address::new_id(BURNT_FUNDS_ACTOR_ID)).unwrap();
    // with the same nonce
    for _ in 0..5 {
        h.apply_cross_msg(&from, &funder, value.clone(), 0, 0, ExitCode::Success, false);
    }
    // with increasing nonce
    for i in 0..5 {
        h.apply_cross_msg(&from, &funder, value.clone(), i, i, ExitCode::Success, false);
    }

    // trying to apply non-subsequent nonce.
    h.apply_cross_msg(&from, &funder, value.clone(), 10, 0, ExitCode::UsrIllegalState, false);
    // trying already applied nonce
    h.apply_cross_msg(&from, &funder, value.clone(), 0, 0, ExitCode::UsrIllegalState, false);
}

#[test]
fn test_atomic_exec() {
    let shid = SubnetID::new_child(&SubnetID::root(), SUBNET_ONE);
    let mut h = setup(shid.clone());

    let caller = Address::new_id(1001);
    let other = Address::new_id(1002);

    let sn1 = SubnetID::new_child(&shid, SUBNET_ONE);
    let sn2 = SubnetID::new_child(&shid, SUBNET_TWO);
    let caller_in_sn1 = Address::new_hierarchical(&sn1, &caller).unwrap();
    let other_in_sn2 = Address::new_hierarchical(&sn2, &other).unwrap();

    // register subnets
    let reg_value = atto(10_u64.pow(18));
    h.register(SUBNET_ONE, &reg_value, ExitCode::Success);
    h.register(SUBNET_TWO, &reg_value, ExitCode::Success);

    let params = AtomicExecParamsRaw {
        msgs: gen_exec_msgs(other.clone()),
        inputs: gen_locked_state(&sn1, &sn2, &caller, &other),
    };
    let exec_cid = params.cid().unwrap();

    // initialize execution
    h.init_atomic_exec(&caller, &params, ExitCode::Success);

    // initialize again and fail
    h.init_atomic_exec(&caller, &params, ExitCode::UsrIllegalArgument);

    // caller submits output
    let output = SerializedState::new(b"testOutput".to_vec());
    let params = SubmitExecParams { cid: exec_cid.clone(), abort: false, output };
    h.submit_atomic_exec(
        &caller_in_sn1,
        &params,
        SubmitOutput { status: ExecStatus::Initialized },
        1,
        ExitCode::Success,
    );

    // fail if resubmission or an address not involved in the execution
    // sends and output
    h.submit_atomic_exec(
        &caller_in_sn1,
        &params,
        SubmitOutput { status: ExecStatus::Initialized },
        1,
        ExitCode::UsrIllegalArgument,
    );
    let stranger = Address::new_hierarchical(&sn1, &Address::new_id(1090)).unwrap();
    h.submit_atomic_exec(
        &stranger,
        &params,
        SubmitOutput { status: ExecStatus::Initialized },
        1,
        ExitCode::UsrIllegalArgument,
    );

    // submitting the wrong output fails
    let output = SerializedState::new(b"wrongOutput".to_vec());
    let wrong_params = SubmitExecParams { cid: exec_cid.clone(), abort: false, output };
    h.submit_atomic_exec(
        &caller_in_sn1,
        &wrong_params,
        SubmitOutput { status: ExecStatus::Initialized },
        1,
        ExitCode::UsrIllegalArgument,
    );

    // execution succeeds and no new submission accepted.
    h.submit_atomic_exec(
        &other_in_sn2,
        &params,
        SubmitOutput { status: ExecStatus::Success },
        2,
        ExitCode::Success,
    );
    h.submit_atomic_exec(
        &other_in_sn2,
        &params,
        SubmitOutput { status: ExecStatus::Success },
        2,
        ExitCode::UsrIllegalState,
    );

    // start a new execution and see that it is correctly added.
    let stranger = Address::new_id(923);
    let params = AtomicExecParamsRaw {
        msgs: gen_exec_msgs(caller.clone()),
        inputs: gen_locked_state(&sn1, &sn2, &caller, &stranger),
    };
    h.init_atomic_exec(&caller, &params, ExitCode::Success);
}

#[test]
fn test_abort_exec() {
    let shid = SubnetID::new_child(&SubnetID::root(), SUBNET_ONE);
    let mut h = setup(shid.clone());

    let caller = Address::new_id(1001);
    let other = Address::new_id(1002);

    let sn1 = SubnetID::new_child(&shid, SUBNET_ONE);
    let sn2 = SubnetID::new_child(&shid, SUBNET_TWO);
    let caller_in_sn1 = Address::new_hierarchical(&sn1, &caller).unwrap();
    let other_in_sn2 = Address::new_hierarchical(&sn2, &other).unwrap();

    // register subnets
    let reg_value = atto(10_u64.pow(18));
    h.register(SUBNET_ONE, &reg_value, ExitCode::Success);
    h.register(SUBNET_TWO, &reg_value, ExitCode::Success);

    let params = AtomicExecParamsRaw {
        msgs: gen_exec_msgs(other.clone()),
        inputs: gen_locked_state(&sn1, &sn2, &caller, &other),
    };
    let exec_cid = params.cid().unwrap();

    // initialize execution
    h.init_atomic_exec(&caller, &params, ExitCode::Success);
    let output = SerializedState::new(b"testOutput".to_vec());
    let params = SubmitExecParams { cid: exec_cid.clone(), abort: false, output };
    h.submit_atomic_exec(
        &caller_in_sn1,
        &params,
        SubmitOutput { status: ExecStatus::Initialized },
        1,
        ExitCode::Success,
    );

    // execution aborted and no new submission accepted.
    let abort_params =
        SubmitExecParams { cid: exec_cid.clone(), abort: true, output: SerializedState::default() };
    h.submit_atomic_exec(
        &other_in_sn2,
        &abort_params,
        SubmitOutput { status: ExecStatus::Aborted },
        1,
        ExitCode::Success,
    );

    let output = SerializedState::new(b"testOutput".to_vec());
    let params = SubmitExecParams { cid: exec_cid.clone(), abort: false, output };
    h.submit_atomic_exec(
        &caller_in_sn1,
        &params,
        SubmitOutput { status: ExecStatus::Aborted },
        1,
        ExitCode::UsrIllegalState,
    );

    // aborting what was aborted fails too
    let inv = h.invocation(caller.clone(), ActorType::Account, &zero());
    let r = Actor::abort_atomic_exec(&mut h.st, &inv, AbortExecParams { exec_cid });
    assert_eq!(r.unwrap_err(), ActorError::ExecFinalized);
}

fn fil() -> TokenAmount {
    atto(10_u64.pow(18))
}

fn half_fil() -> TokenAmount {
    atto(5 * 10_u64.pow(17))
}

fn escrow(st: &State) -> TokenAmount {
    let mut total = zero();
    for sub in st.subnets.iter() {
        total += &sub.stake;
        total += &sub.circ_supply;
    }
    total
}

#[test]
fn scenario_register_fund_release_round_trip() {
    let mut h = setup_root();
    assert_eq!(h.st.min_stake, fil());
    h.register(SUBNET_ONE, &fil(), ExitCode::Success);
    assert_eq!(h.st.total_subnets, 1);
    let sn1 = SubnetID::new_child(&h.net_name, SUBNET_ONE);
    assert_eq!(h.get_subnet(&sn1).unwrap().status, Status::Active);

    let funder = Address::new_id(1001);
    h.fund(&funder, &sn1, ExitCode::Success, fil(), 1, &fil());
    h.fund(&funder, &sn1, ExitCode::Success, fil(), 2, &(fil() * 2));
    h.fund(&funder, &sn1, ExitCode::Success, fil(), 3, &(fil() * 3));
    let sub = h.get_subnet(&sn1).unwrap();
    assert_eq!(sub.circ_supply, fil() * 3);
    let nonces: Vec<u64> = sub.top_down_msgs.iter().map(|m| m.nonce).collect();
    assert_eq!(nonces, vec![0, 1, 2]);
    assert_eq!(escrow(&h.st), fil() * 4);
    assert_eq!(h.balance, fil() * 4);

    // inside the subnet
    let mut child = setup(sn1.clone());
    child.set_balance(fil());
    child.release(&funder, ExitCode::Success, half_fil(), 0, &Cid::default());
    let ch = child.window_checkpoint();
    let meta = ch.crossmsg_meta(&sn1, &SubnetID::root()).unwrap();
    assert_eq!(meta.value, half_fil());
    assert_eq!(ch.data.cross_msgs.len(), 1);
    assert_eq!(ch.data.source, sn1);
}

#[test]
fn scenario_stake_deactivation_and_reactivation() {
    let mut h = setup_root();
    h.register(SUBNET_ONE, &fil(), ExitCode::Success);
    let sn1 = SubnetID::new_child(&h.net_name, SUBNET_ONE);
    h.release_stake(SUBNET_ONE, &half_fil(), ExitCode::Success);
    assert_eq!(h.get_subnet(&sn1).unwrap().status, Status::Inactive);
    assert_eq!(h.get_subnet(&sn1).unwrap().stake, half_fil());
    h.add_stake(SUBNET_ONE, &half_fil(), ExitCode::Success);
    assert_eq!(h.get_subnet(&sn1).unwrap().status, Status::Active);
    assert_eq!(h.get_subnet(&sn1).unwrap().stake, fil());
}

#[test]
fn scenario_kill_with_supply_fails() {
    let mut h = setup_root();
    h.register(SUBNET_ONE, &fil(), ExitCode::Success);
    let sn1 = SubnetID::new_child(&h.net_name, SUBNET_ONE);
    h.fund(&Address::new_id(1001), &sn1, ExitCode::Success, fil(), 1, &fil());
    h.kill(SUBNET_ONE, &fil(), ExitCode::UsrIllegalState);
    assert_eq!(h.st.total_subnets, 1);

    // the funds come back up in a checkpoint of the subnet
    h.set_epoch(10);
    let mut ch = Checkpoint::new(sn1.clone(), 9);
    add_msg_meta(&mut ch, &sn1, &h.net_name.clone(), b"release".to_vec(), fil());
    h.commit_child_check(SUBNET_ONE, &ch, ExitCode::Success, fil());
    h.balance -= fil();
    assert_eq!(h.get_subnet(&sn1).unwrap().circ_supply, zero());

    h.kill(SUBNET_ONE, &fil(), ExitCode::Success);
    assert_eq!(h.st.total_subnets, 0);
    assert!(h.get_subnet(&sn1).is_none());
    assert_eq!(h.balance, zero());
}

#[test]
fn scenario_checkpoint_chain() {
    let mut h = setup_root();
    assert_eq!(h.st.check_period, 10);
    h.register(SUBNET_ONE, &fil(), ExitCode::Success);
    let sn1 = SubnetID::new_child(&h.net_name, SUBNET_ONE);
    h.set_epoch(10);
    let c1 = Checkpoint::new(sn1.clone(), 19);
    h.commit_child_check(SUBNET_ONE, &c1, ExitCode::Success, zero());
    let mut c2 = Checkpoint::new(sn1.clone(), 21);
    c2.data.prev_check = c1.cid();
    h.commit_child_check(SUBNET_ONE, &c2, ExitCode::Success, zero());

    assert_eq!(h.st.checkpoints.len(), 1);
    let window = h.window_checkpoint();
    assert_eq!(window.data.epoch, 10);
    let checks = &has_childcheck_source(&window.data.children, &sn1).unwrap().checks;
    assert_eq!(checks, &vec![c1.cid(), c2.cid()]);
    assert_eq!(h.get_subnet(&sn1).unwrap().prev_checkpoint.as_ref().unwrap().cid(), c2.cid());

    let mut c3 = Checkpoint::new(sn1.clone(), 30);
    c3.data.prev_check = c1.cid();
    h.commit_child_check(SUBNET_ONE, &c3, ExitCode::UsrIllegalArgument, zero());
    let inv = h.invocation(Address::new_id(SUBNET_ONE), ActorType::Subnet, &zero());
    assert_eq!(
        Actor::commit_child_check(&mut h.st, &inv, clone_checkpoint(&c3)).unwrap_err(),
        ActorError::PrevCheckMismatch
    );
    // a checkpoint from the past
    let mut c4 = Checkpoint::new(sn1.clone(), 20);
    c4.data.prev_check = c2.cid();
    assert_eq!(
        Actor::commit_child_check(&mut h.st, &inv, c4).unwrap_err(),
        ActorError::CheckpointInPast
    );
    // in a later window the chain goes on
    h.set_epoch(11);
    let mut c5 = Checkpoint::new(sn1.clone(), 30);
    c5.data.prev_check = c2.cid();
    h.commit_child_check(SUBNET_ONE, &c5, ExitCode::Success, zero());
    assert_eq!(h.st.checkpoints.len(), 2);
    assert_eq!(h.window_checkpoint().data.epoch, 20);
}

struct ExecSetup {
    h: Harness,
    a: Address,
    b: Address,
    cid: Cid,
    sn1: SubnetID,
    sn2: SubnetID,
}

fn setup_exec() -> ExecSetup {
    let mut h = setup_root();
    h.register(SUBNET_ONE, &fil(), ExitCode::Success);
    h.register(SUBNET_TWO, &fil(), ExitCode::Success);
    let sn1 = SubnetID::new_child(&h.net_name, SUBNET_ONE);
    let sn2 = SubnetID::new_child(&h.net_name, SUBNET_TWO);
    let caller = Address::new_id(1001);
    let other = Address::new_id(1002);
    let params = AtomicExecParamsRaw {
        msgs: gen_exec_msgs(other.clone()),
        inputs: gen_locked_state(&sn1, &sn2, &caller, &other),
    };
    let cid = params.cid().unwrap();
    h.init_atomic_exec(&caller, &params, ExitCode::Success);
    ExecSetup {
        h,
        a: Address::new_hierarchical(&sn1, &caller).unwrap(),
        b: Address::new_hierarchical(&sn2, &other).unwrap(),
        cid,
        sn1,
        sn2,
    }
}

fn output(cid: &Cid, bytes: &[u8], abort: bool) -> SubmitExecParams {
    SubmitExecParams { cid: cid.clone(), abort, output: SerializedState::new(bytes.to_vec()) }
}

#[test]
fn scenario_atomic_exec_success() {
    let ExecSetup { mut h, a, b, cid, sn1, sn2 } = setup_exec();
    let submit = output(&cid, b"testOutput", false);
    h.submit_atomic_exec(&a, &submit, SubmitOutput { status: ExecStatus::Initialized }, 1, ExitCode::Success);
    h.submit_atomic_exec(&b, &submit, SubmitOutput { status: ExecStatus::Success }, 2, ExitCode::Success);
    h.submit_atomic_exec(&a, &submit, SubmitOutput { status: ExecStatus::Success }, 2, ExitCode::UsrIllegalState);
    h.submit_atomic_exec(&b, &submit, SubmitOutput { status: ExecStatus::Success }, 2, ExitCode::UsrIllegalState);

    // one unlock message for each subnet, to the actor that holds the locked state
    for (sn, actor) in [(&sn1, 900), (&sn2, 901)] {
        let sub = h.get_subnet(sn).unwrap();
        assert_eq!(sub.top_down_msgs.len(), 1);
        let msg = &sub.top_down_msgs[0];
        assert_eq!(msg.method, METHOD_UNLOCK);
        assert_eq!(msg.to, Address::new_hierarchical(sn, &Address::new_id(actor)).unwrap());
        assert_eq!(msg.from, Address::new_hierarchical(&h.net_name, &Address::new_id(64)).unwrap());
        assert_eq!(msg.value, zero());
        assert_eq!(msg.nonce, 0);
        // the method and parameters of the execution, and the output
        let mut expected = vec![0x82, 0x82, 0x02, 0x40, 0x81, 0x4a];
        expected.extend(b"testOutput");
        assert_eq!(msg.params, expected);
        assert_eq!(sub.circ_supply, zero());
    }
    let exec = h.st.get_atomic_exec(&cid).unwrap();
    assert_eq!(exec.submitted()[0].addr, a);
    assert_eq!(exec.submitted()[0].output, Cid::of(&b"testOutput".to_vec()));
    assert_eq!(exec.submitted()[1].addr, b);
}

#[test]
fn scenario_atomic_exec_abort() {
    let ExecSetup { mut h, a, b, cid, sn1, sn2 } = setup_exec();
    let submit = output(&cid, b"testOutput", false);
    h.submit_atomic_exec(&a, &submit, SubmitOutput { status: ExecStatus::Initialized }, 1, ExitCode::Success);
    let abort = output(&cid, b"", true);
    h.submit_atomic_exec(&b, &abort, SubmitOutput { status: ExecStatus::Aborted }, 1, ExitCode::Success);
    h.submit_atomic_exec(&a, &submit, SubmitOutput { status: ExecStatus::Aborted }, 1, ExitCode::UsrIllegalState);
    for sn in [&sn1, &sn2] {
        let sub = h.get_subnet(sn).unwrap();
        assert_eq!(sub.top_down_msgs.len(), 1);
        assert_eq!(sub.top_down_msgs[0].method, METHOD_ABORT);
        assert!(sub.top_down_msgs[0].params.is_empty());
    }
}

#[test]
fn mismatched_output_aborts() {
    let ExecSetup { mut h, a, b, cid, .. } = setup_exec();
    h.submit_atomic_exec(
        &a,
        &output(&cid, b"testOutput", false),
        SubmitOutput { status: ExecStatus::Initialized },
        1,
        ExitCode::Success,
    );
    h.submit_atomic_exec(
        &b,
        &output(&cid, b"wrongOutput", false),
        SubmitOutput { status: ExecStatus::Aborted },
        1,
        ExitCode::Success,
    );
}

#[test]
fn a_party_that_submitted_may_abort() {
    let ExecSetup { mut h, a, cid, .. } = setup_exec();
    h.submit_atomic_exec(
        &a,
        &output(&cid, b"testOutput", false),
        SubmitOutput { status: ExecStatus::Initialized },
        1,
        ExitCode::Success,
    );
    h.submit_atomic_exec(
        &a,
        &output(&cid, b"", true),
        SubmitOutput { status: ExecStatus::Aborted },
        1,
        ExitCode::Success,
    );
}

#[test]
fn abort_from_outside() {
    let ExecSetup { mut h, cid, sn1, sn2, .. } = setup_exec();
    let stranger = h.invocation(Address::new_id(5), ActorType::Account, &zero());
    assert_eq!(
        Actor::abort_atomic_exec(&mut h.st, &stranger, AbortExecParams { exec_cid: cid.clone() }),
        Err(ActorError::NotInExec)
    );
    let actor = h.invocation(Address::new_id(1001), ActorType::Subnet, &zero());
    assert_eq!(
        Actor::abort_atomic_exec(&mut h.st, &actor, AbortExecParams { exec_cid: cid.clone() }),
        Err(ActorError::Forbidden)
    );
    let key = h.invocation(Address::new_bls(&vec![1; 48]).unwrap(), ActorType::Account, &zero());
    assert_eq!(
        Actor::abort_atomic_exec(&mut h.st, &key, AbortExecParams { exec_cid: cid.clone() }),
        Err(ActorError::CallerNotId)
    );
    let party = h.invocation(Address::new_id(1002), ActorType::Account, &zero());
    assert_eq!(
        Actor::abort_atomic_exec(
            &mut h.st,
            &party,
            AbortExecParams { exec_cid: Cid::of(&vec![1]) }
        ),
        Err(ActorError::ExecNotFound)
    );
    assert_eq!(
        Actor::abort_atomic_exec(&mut h.st, &party, AbortExecParams { exec_cid: cid.clone() }),
        Ok(SubmitOutput { status: ExecStatus::Aborted })
    );
    h.check_state();
    assert_eq!(h.st.get_atomic_exec(&cid).unwrap().status(), ExecStatus::Aborted);
    for sn in [&sn1, &sn2] {
        assert_eq!(h.get_subnet(sn).unwrap().top_down_msgs[0].method, METHOD_ABORT);
    }
    assert_eq!(
        Actor::abort_atomic_exec(&mut h.st, &party, AbortExecParams { exec_cid: cid }),
        Err(ActorError::ExecFinalized)
    );
}

#[test]
fn executions_are_checked_at_their_start() {
    let mut h = setup_root();
    h.register(SUBNET_ONE, &fil(), ExitCode::Success);
    h.register(SUBNET_TWO, &fil(), ExitCode::Success);
    let sn1 = SubnetID::new_child(&h.net_name, SUBNET_ONE);
    let sn2 = SubnetID::new_child(&h.net_name, SUBNET_TWO);
    let caller = Address::new_id(1001);
    let other = Address::new_id(1002);
    let good = || AtomicExecParamsRaw {
        msgs: gen_exec_msgs(other.clone()),
        inputs: gen_locked_state(&sn1, &sn2, &caller, &other),
    };
    let ids = vec![Some(1001), Some(1002)];
    let inv = h.invocation(caller.clone(), ActorType::Account, &zero());
    let start = |st: &mut State, p: AtomicExecParamsRaw, ids: &Vec<Option<u64>>| {
        Actor::init_atomic_exec(st, &inv, p, ids).map(|o| o.cid)
    };

    let subnet_caller = h.invocation(caller.clone(), ActorType::Subnet, &zero());
    assert_eq!(
        Actor::init_atomic_exec(&mut h.st, &subnet_caller, good(), &ids).unwrap_err(),
        ActorError::Forbidden
    );
    assert_eq!(start(&mut h.st, good(), &vec![Some(1), None]), Err(ActorError::InvalidExecInputs));
    let mut no_msgs = good();
    no_msgs.msgs.clear();
    assert_eq!(start(&mut h.st, no_msgs, &ids), Err(ActorError::WrongExecShape));
    let mut one_input = good();
    one_input.inputs.pop();
    assert_eq!(start(&mut h.st, one_input, &ids), Err(ActorError::WrongExecShape));
    let mut deeper = good();
    deeper.inputs = gen_locked_state(
        &SubnetID::new_child(&sn1, 1),
        &SubnetID::new_child(&sn1, 2),
        &caller,
        &other,
    );
    assert_eq!(start(&mut h.st, deeper, &ids), Err(ActorError::NotCommonParent));
    let mut mixed = good();
    mixed.msgs[1].method = 3;
    assert_eq!(start(&mut h.st, mixed, &ids), Err(ActorError::MixedMessages));
    let mut mixed = good();
    mixed.msgs[1].to = caller.clone();
    assert_eq!(start(&mut h.st, mixed, &ids), Err(ActorError::MixedMessages));
    assert_eq!(h.st.atomic_exec_registry.len(), 0);

    let cid = start(&mut h.st, good(), &ids).unwrap();
    assert_eq!(cid, good().cid().unwrap());
    assert_eq!(start(&mut h.st, good(), &ids), Err(ActorError::ExecExists));
    assert_eq!(h.st.atomic_exec_registry.len(), 1);
    h.check_state();
}

#[test]
fn results_need_a_way_down() {
    // one party is in a subnet that is not registered
    let mut h = setup_root();
    h.register(SUBNET_ONE, &fil(), ExitCode::Success);
    let sn1 = SubnetID::new_child(&h.net_name, SUBNET_ONE);
    let sn2 = SubnetID::new_child(&h.net_name, SUBNET_TWO);
    let caller = Address::new_id(1001);
    let other = Address::new_id(1002);
    let params = AtomicExecParamsRaw {
        msgs: gen_exec_msgs(other.clone()),
        inputs: gen_locked_state(&sn1, &sn2, &caller, &other),
    };
    let cid = params.cid().unwrap();
    h.init_atomic_exec(&caller, &params, ExitCode::Success);
    let a = Address::new_hierarchical(&sn1, &caller).unwrap();
    let r = Actor::submit_atomic_exec(&mut h.st, &a, output(&cid, b"", true));
    assert_eq!(r, Err(ActorError::HopNotRegistered));
    assert_eq!(h.st.get_atomic_exec(&cid).unwrap().status(), ExecStatus::Initialized);
    assert_eq!(h.get_subnet(&sn1).unwrap().nonce, 0);
    h.check_state();
}

#[test]
fn every_refusal_of_the_registry() {
    let mut h = setup_root();
    let sn1 = SubnetID::new_child(&h.net_name, SUBNET_ONE);

    let account = h.invocation(Address::new_id(SUBNET_ONE), ActorType::Account, &fil());
    assert_eq!(Actor::register(&mut h.st, &account), Err(ActorError::Forbidden));
    let key = h.invocation(Address::new_bls(&vec![1; 48]).unwrap(), ActorType::Subnet, &fil());
    assert_eq!(Actor::register(&mut h.st, &key), Err(ActorError::CallerNotId));
    let poor = h.invocation(Address::new_id(SUBNET_ONE), ActorType::Subnet, &half_fil());
    assert_eq!(Actor::register(&mut h.st, &poor), Err(ActorError::NotEnoughCollateral));
    let good = h.invocation(Address::new_id(SUBNET_ONE), ActorType::Subnet, &fil());
    assert_eq!(Actor::register(&mut h.st, &good), Ok(sn1.clone()));
    assert_eq!(Actor::register(&mut h.st, &good), Err(ActorError::AlreadyRegistered));
    h.balance = fil();

    assert_eq!(
        h.st.register_subnet(&SubnetID::from_str("/root/f01/f02").unwrap(), fil()),
        Err(ActorError::NotAChild)
    );
    assert_eq!(h.st.register_subnet(&SubnetID::root(), fil()), Err(ActorError::NotAChild));
    assert_eq!(h.st.register_subnet(&sn1, fil()), Err(ActorError::AlreadyRegistered));
    assert_eq!(
        h.st.register_subnet(&SubnetID::new_child(&SubnetID::root(), 5), half_fil()),
        Err(ActorError::NotEnoughCollateral)
    );
    assert!(h.st.rm_subnet(&SubnetID::new_child(&SubnetID::root(), 5)).is_none());

    let other = h.invocation(Address::new_id(SUBNET_TWO), ActorType::Subnet, &fil());
    assert_eq!(Actor::add_stake(&mut h.st, &other), Err(ActorError::SubnetNotRegistered));
    assert_eq!(Actor::add_stake(&mut h.st, &account), Err(ActorError::Forbidden));
    let nothing = h.invocation(Address::new_id(SUBNET_ONE), ActorType::Subnet, &zero());
    assert_eq!(Actor::add_stake(&mut h.st, &nothing), Err(ActorError::NoValue));

    let release = |st: &mut State, inv: &Invocation, v: TokenAmount| {
        Actor::release_stake(st, inv, FundParams { value: v }).map(|s| s.value)
    };
    assert_eq!(release(&mut h.st, &nothing, atto(0)), Err(ActorError::NoValue));
    assert_eq!(release(&mut h.st, &nothing, TokenAmount::from_atto(-1)), Err(ActorError::NoValue));
    assert_eq!(release(&mut h.st, &other, fil()), Err(ActorError::SubnetNotRegistered));
    assert_eq!(release(&mut h.st, &nothing, fil() * 2), Err(ActorError::StakeExceeded));
    let mut broke = h.invocation(Address::new_id(SUBNET_ONE), ActorType::Subnet, &zero());
    broke.current_balance = half_fil();
    assert_eq!(release(&mut h.st, &broke, fil()), Err(ActorError::InsufficientBalance));

    assert_eq!(Actor::kill(&mut h.st, &other).map(|s| s.value), Err(ActorError::SubnetNotRegistered));
    assert_eq!(Actor::kill(&mut h.st, &broke).map(|s| s.value), Err(ActorError::InsufficientBalance));
    h.fund(&Address::new_id(1), &sn1, ExitCode::Success, fil(), 1, &fil());
    let nothing = h.invocation(Address::new_id(SUBNET_ONE), ActorType::Subnet, &zero());
    assert_eq!(Actor::kill(&mut h.st, &nothing).map(|s| s.value), Err(ActorError::SupplyNotEmpty));
    h.check_state();
    assert_eq!(h.st.total_subnets, 1);
}

#[test]
fn every_refusal_of_a_commit() {
    let mut h = setup_root();
    h.register(SUBNET_ONE, &fil(), ExitCode::Success);
    h.register(SUBNET_TWO, &fil(), ExitCode::Success);
    let sn1 = SubnetID::new_child(&h.net_name, SUBNET_ONE);
    h.set_epoch(10);
    let ch = || Checkpoint::new(sn1.clone(), 19);
    let commit = |st: &mut State, inv: &Invocation, c: Checkpoint| {
        Actor::commit_child_check(st, inv, c).map(|b| b.map(|s| s.value))
    };
    let good = h.invocation(Address::new_id(SUBNET_ONE), ActorType::Subnet, &zero());

    let account = h.invocation(Address::new_id(SUBNET_ONE), ActorType::Account, &zero());
    assert_eq!(commit(&mut h.st, &account, ch()), Err(ActorError::Forbidden));
    let key = h.invocation(Address::new_bls(&vec![1; 48]).unwrap(), ActorType::Subnet, &zero());
    assert_eq!(commit(&mut h.st, &key, ch()), Err(ActorError::CallerNotId));
    let two = h.invocation(Address::new_id(SUBNET_TWO), ActorType::Subnet, &zero());
    assert_eq!(commit(&mut h.st, &two, ch()), Err(ActorError::WrongSource));
    let none = h.invocation(Address::new_id(103), ActorType::Subnet, &zero());
    assert_eq!(
        commit(&mut h.st, &none, Checkpoint::new(SubnetID::new_child(&h.net_name, 103), 19)),
        Err(ActorError::SubnetNotRegistered)
    );
    let mut early = h.invocation(Address::new_id(SUBNET_ONE), ActorType::Subnet, &zero());
    early.curr_epoch = -1;
    assert_eq!(commit(&mut h.st, &early, ch()), Err(ActorError::InvalidEpoch));
    early.curr_epoch = i64::MAX;
    assert_eq!(commit(&mut h.st, &early, ch()), Err(ActorError::InvalidEpoch));

    let mut negative = ch();
    add_msg_meta(&mut negative, &sn1, &h.net_name.clone(), vec![1], TokenAmount::from_atto(-1));
    assert_eq!(commit(&mut h.st, &good, negative), Err(ActorError::NegativeAmount));
    let mut rich = ch();
    add_msg_meta(&mut rich, &sn1, &h.net_name.clone(), vec![1], atto(1));
    assert_eq!(commit(&mut h.st, &good, rich), Err(ActorError::SupplyExceeded));
    let mut counted = ch();
    add_msg_meta(&mut counted, &sn1, &h.net_name.clone(), vec![1], zero());
    h.st.nonce = u64::MAX;
    assert_eq!(commit(&mut h.st, &good, counted), Err(ActorError::NonceOverflow));
    h.st.nonce = 0;

    assert_eq!(commit(&mut h.st, &good, ch()), Ok(None));
    assert_eq!(commit(&mut h.st, &good, ch()), Err(ActorError::PrevCheckMismatch));
    let mut past = Checkpoint::new(sn1.clone(), 18);
    past.data.prev_check = ch().cid();
    assert_eq!(commit(&mut h.st, &good, past), Err(ActorError::CheckpointInPast));

    // the same checkpoint again in the same window, were it its own predecessor
    h.st.subnets[0].prev_checkpoint = None;
    assert_eq!(commit(&mut h.st, &good, ch()), Err(ActorError::DuplicateCheckpoint));

    h.release_stake(SUBNET_ONE, &half_fil(), ExitCode::Success);
    let good = h.invocation(Address::new_id(SUBNET_ONE), ActorType::Subnet, &zero());
    let mut next = Checkpoint::new(sn1.clone(), 29);
    next.data.prev_check = ch().cid();
    assert_eq!(commit(&mut h.st, &good, next), Err(ActorError::SubnetInactive));
    h.check_state();
}

#[test]
fn every_refusal_of_a_cross_message() {
    let shid = SubnetID::new_child(&SubnetID::root(), SUBNET_ONE);
    let mut h = setup(shid.clone());
    h.register(SUBNET_ONE, &fil(), ExitCode::Success);
    let child = SubnetID::new_child(&shid, SUBNET_ONE);
    let user = Address::new_id(1001);

    let fund = |st: &mut State, inv: &Invocation, dest: &SubnetID| Actor::fund(st, inv, dest.clone());
    let good = h.invocation(user.clone(), ActorType::Account, &fil());
    let subnet = h.invocation(user.clone(), ActorType::Subnet, &fil());
    assert_eq!(fund(&mut h.st, &subnet, &child), Err(ActorError::Forbidden));
    let nothing = h.invocation(user.clone(), ActorType::Account, &zero());
    assert_eq!(fund(&mut h.st, &nothing, &child), Err(ActorError::NoValue));
    let mut unresolved = h.invocation(user.clone(), ActorType::Account, &fil());
    unresolved.sig_addr = None;
    assert_eq!(fund(&mut h.st, &unresolved, &child), Err(ActorError::UnresolvedCaller));
    assert_eq!(fund(&mut h.st, &good, &SubnetID::root()), Err(ActorError::NoRoute));
    let mut nested = h.invocation(user.clone(), ActorType::Account, &fil());
    nested.sig_addr = Some(Address::new_hierarchical(&shid, &user).unwrap());
    assert_eq!(fund(&mut h.st, &nested, &child), Err(ActorError::InvalidAddress));
    assert_eq!(
        fund(&mut h.st, &good, &SubnetID::from_str("/root/f0102").unwrap()),
        Err(ActorError::NoRoute)
    );
    assert_eq!(fund(&mut h.st, &good, &shid), Err(ActorError::NoRoute));
    assert_eq!(
        fund(&mut h.st, &good, &SubnetID::new_child(&shid, SUBNET_TWO)),
        Err(ActorError::HopNotRegistered)
    );

    let release = |st: &mut State, inv: &Invocation| Actor::release(st, inv).map(|s| s.value);
    assert_eq!(release(&mut h.st, &subnet), Err(ActorError::Forbidden));
    assert_eq!(release(&mut h.st, &nothing), Err(ActorError::NoValue));
    assert_eq!(release(&mut h.st, &unresolved), Err(ActorError::UnresolvedCaller));
    assert_eq!(release(&mut h.st, &nested), Err(ActorError::InvalidAddress));
    let mut early = h.invocation(user.clone(), ActorType::Account, &fil());
    early.curr_epoch = -5;
    assert_eq!(release(&mut h.st, &early), Err(ActorError::InvalidEpoch));
    h.st.nonce = u64::MAX;
    assert_eq!(release(&mut h.st, &good), Err(ActorError::NonceOverflow));
    h.st.nonce = 0;
    let mut top = setup_root();
    let inv = top.invocation(user.clone(), ActorType::Account, &fil());
    assert_eq!(release(&mut top.st, &inv), Err(ActorError::NoRoute));

    let msg = |to: &Address, value: &TokenAmount| StorableMsg {
        from: user.clone(),
        to: to.clone(),
        method: 0,
        params: Vec::new(),
        value: value.clone(),
        nonce: 0,
    };
    let send = |st: &mut State, inv: &Invocation, dest: &SubnetID, m: StorableMsg| {
        Actor::send_cross(st, inv, CrossMsgParams { msg: m, destination: dest.clone() })
            .map(|b| b.map(|s| s.value))
    };
    let to = Address::new_id(1002);
    assert_eq!(send(&mut h.st, &subnet, &child, msg(&to, &fil())), Err(ActorError::Forbidden));
    assert_eq!(
        send(&mut h.st, &unresolved, &child, msg(&to, &fil())),
        Err(ActorError::UnresolvedCaller)
    );
    assert_eq!(send(&mut h.st, &good, &shid, msg(&to, &fil())), Err(ActorError::DestinationIsSelf));
    let inside = Address::new_hierarchical(&child, &to).unwrap();
    assert_eq!(send(&mut h.st, &good, &child, msg(&inside, &fil())), Err(ActorError::InvalidAddress));
    assert_eq!(send(&mut h.st, &nested, &child, msg(&to, &fil())), Err(ActorError::InvalidAddress));
    assert_eq!(
        send(&mut h.st, &good, &child, msg(&to, &TokenAmount::from_atto(-1))),
        Err(ActorError::NegativeAmount)
    );
    assert_eq!(
        send(&mut h.st, &good, &SubnetID::root(), msg(&to, &TokenAmount::from_atto(-1))),
        Err(ActorError::NegativeAmount)
    );
    assert_eq!(
        send(&mut h.st, &good, &SubnetID::new_child(&shid, SUBNET_TWO), msg(&to, &fil())),
        Err(ActorError::HopNotRegistered)
    );
    // a message that goes up without value burns nothing
    assert_eq!(send(&mut h.st, &good, &SubnetID::root(), msg(&to, &zero())), Ok(None));
    assert_eq!(send(&mut h.st, &good, &SubnetID::root(), msg(&to, &fil())), Ok(Some(fil())));
    assert_eq!(h.st.nonce, 2);
    h.check_state();
}

#[test]
fn every_refusal_of_an_application() {
    let shid = SubnetID::new_child(&SubnetID::root(), SUBNET_ONE);
    let mut h = setup(shid.clone());
    h.register(SUBNET_ONE, &fil(), ExitCode::Success);
    let child = SubnetID::new_child(&shid, SUBNET_ONE);
    let system = h.invocation(Address::new_id(SYSTEM_ACTOR_ID), ActorType::System, &zero());
    let user = Address::new_id(7);
    let msg = |from: &SubnetID, to: &SubnetID, to_raw: u64, method: u64, nonce: u64| StorableMsg {
        from: Address::new_hierarchical(from, &user).unwrap(),
        to: Address::new_hierarchical(to, &Address::new_id(to_raw)).unwrap(),
        method,
        params: vec![1, 2, 3],
        value: atto(5),
        nonce,
    };
    let apply = |st: &mut State, inv: &Invocation, m: StorableMsg| {
        Actor::apply_msg(st, inv, m).map(|o| o.forward.map(|s| (s.to, s.method, s.params, s.value)))
    };
    let root = SubnetID::root();

    let other = h.invocation(Address::new_id(1), ActorType::System, &zero());
    assert_eq!(apply(&mut h.st, &other, msg(&root, &child, 9, 0, 0)), Err(ActorError::Forbidden));
    let mut raw = msg(&root, &child, 9, 0, 0);
    raw.to = Address::new_id(9);
    assert_eq!(apply(&mut h.st, &system, raw), Err(ActorError::InvalidAddress));
    let mut raw = msg(&root, &child, 9, 0, 0);
    raw.from = user.clone();
    assert_eq!(apply(&mut h.st, &system, raw), Err(ActorError::InvalidAddress));
    let mut negative = msg(&root, &child, 9, 0, 0);
    negative.value = TokenAmount::from_atto(-1);
    assert_eq!(apply(&mut h.st, &system, negative), Err(ActorError::NegativeAmount));
    assert_eq!(apply(&mut h.st, &system, msg(&root, &child, 9, 0, 1)), Err(ActorError::NonceMismatch));
    assert_eq!(apply(&mut h.st, &system, msg(&child, &root, 9, 0, 1)), Err(ActorError::NonceMismatch));
    h.st.applied_topdown_nonce = u64::MAX;
    assert_eq!(
        apply(&mut h.st, &system, msg(&root, &child, 9, 0, u64::MAX)),
        Err(ActorError::NonceOverflow)
    );
    h.st.applied_topdown_nonce = 0;
    assert_eq!(
        apply(&mut h.st, &system, msg(&root, &SubnetID::new_child(&shid, SUBNET_TWO), 9, 0, 0)),
        Err(ActorError::HopNotRegistered)
    );
    assert_eq!(
        apply(&mut h.st, &system, msg(&root, &SubnetID::from_str("/root/f09").unwrap(), 9, 0, 0)),
        Err(ActorError::NoRoute)
    );
    // for the coordinator itself
    assert_eq!(apply(&mut h.st, &system, msg(&root, &shid, 64, 2, 0)), Err(ActorError::InvalidCrossMethod));
    assert_eq!(apply(&mut h.st, &system, msg(&root, &shid, 64, 13, 0)), Err(ActorError::InvalidParams));
    let mut submit = msg(&root, &shid, 64, 13, 0);
    submit.params = output(&Cid::of(&vec![1]), b"out", false).to_bytes();
    assert_eq!(apply(&mut h.st, &system, submit), Err(ActorError::ExecNotFound));
    assert_eq!(h.st.applied_topdown_nonce, 0);
    assert_eq!(h.st.applied_bottomup_nonce, u64::MAX);

    // for an actor of this network
    assert_eq!(
        apply(&mut h.st, &system, msg(&root, &shid, 9, 4, 0)),
        Ok(Some((Address::new_id(9), 4, vec![1, 2, 3], atto(5))))
    );
    assert_eq!(h.st.applied_topdown_nonce, 1);
    h.check_state();
}

#[test]
fn submissions_come_in_cross_messages() {
    let ExecSetup { mut h, a, b, cid, sn1, .. } = setup_exec();
    let system = h.invocation(Address::new_id(SYSTEM_ACTOR_ID), ActorType::System, &zero());
    let coordinator = Address::new_hierarchical(&h.net_name, &Address::new_id(64)).unwrap();
    let submit = |from: &Address, nonce: u64, abort: bool| StorableMsg {
        from: from.clone(),
        to: coordinator.clone(),
        method: 13,
        params: output(&cid, b"testOutput", abort).to_bytes(),
        value: zero(),
        nonce,
    };
    let out = Actor::apply_msg(&mut h.st, &system, submit(&a, 0, false)).unwrap();
    assert_eq!(out.submitted, Some(SubmitOutput { status: ExecStatus::Initialized }));
    assert!(out.forward.is_none());
    assert!(out.mint.is_none());
    assert_eq!(h.st.applied_bottomup_nonce, 0);
    assert_eq!(
        Actor::apply_msg(&mut h.st, &system, submit(&a, 0, false)).unwrap_err(),
        ActorError::AlreadySubmitted
    );
    let stranger = Address::new_hierarchical(&sn1, &Address::new_id(3)).unwrap();
    assert_eq!(
        Actor::apply_msg(&mut h.st, &system, submit(&stranger, 0, false)).unwrap_err(),
        ActorError::NotInExec
    );
    let out = Actor::apply_msg(&mut h.st, &system, submit(&b, 1, false)).unwrap();
    assert_eq!(out.submitted, Some(SubmitOutput { status: ExecStatus::Success }));
    assert_eq!(h.st.applied_bottomup_nonce, 1);
    assert_eq!(
        Actor::apply_msg(&mut h.st, &system, submit(&b, 1, true)).unwrap_err(),
        ActorError::ExecFinalized
    );
    h.check_state();
}

#[test]
fn the_books_are_kept() {
    let mut h = setup_root();
    let sn1 = SubnetID::new_child(&h.net_name, SUBNET_ONE);
    h.register(SUBNET_ONE, &fil(), ExitCode::Success);
    assert!(escrow(&h.st) <= h.balance);
    h.add_stake(SUBNET_ONE, &half_fil(), ExitCode::Success);
    assert!(escrow(&h.st) <= h.balance);
    h.fund(&Address::new_id(1), &sn1, ExitCode::Success, fil(), 1, &fil());
    assert_eq!(escrow(&h.st), &fil() * 2 + half_fil());
    assert!(escrow(&h.st) <= h.balance);
    h.release_stake(SUBNET_ONE, &half_fil(), ExitCode::Success);
    assert!(escrow(&h.st) <= h.balance);
    h.set_epoch(3);
    let mut ch = Checkpoint::new(sn1.clone(), 9);
    add_msg_meta(&mut ch, &sn1, &h.net_name.clone(), vec![1], half_fil());
    add_msg_meta(&mut ch, &sn1, &SubnetID::new_child(&h.net_name, 7), vec![2], half_fil());
    // what came for this network is burnt; what goes on to another subnet
    // has left the child and stays with the coordinator
    h.commit_child_check(SUBNET_ONE, &ch, ExitCode::Success, half_fil());
    h.balance -= half_fil();
    assert_eq!(escrow(&h.st), fil());
    assert!(escrow(&h.st) <= h.balance);
    h.kill(SUBNET_ONE, &fil(), ExitCode::Success);
    assert_eq!(escrow(&h.st), zero());
    assert_eq!(h.balance, half_fil());
}

#[test]
fn metas_are_filed_under_their_routes() {
    let shid = SubnetID::new_child(&SubnetID::root(), SUBNET_ONE);
    let mut h = setup(shid.clone());
    h.register(SUBNET_ONE, &fil(), ExitCode::Success);
    h.register(SUBNET_TWO, &fil(), ExitCode::Success);
    let c1 = SubnetID::new_child(&shid, SUBNET_ONE);
    let c2 = SubnetID::new_child(&shid, SUBNET_TWO);
    h.fund(&Address::new_id(1), &c1, ExitCode::Success, fil(), 1, &fil());
    h.fund(&Address::new_id(1), &c2, ExitCode::Success, fil(), 1, &fil());
    h.set_epoch(5);
    let below = SubnetID::new_child(&c2, 9);
    let above = SubnetID::root();

    let mut ch = Checkpoint::new(c1.clone(), 9);
    add_msg_meta(&mut ch, &c1, &below, vec![1], atto(1));
    add_msg_meta(&mut ch, &c1, &above, vec![2], atto(2));
    add_msg_meta(&mut ch, &c1, &shid, vec![3], atto(4));
    add_msg_meta(&mut ch, &c1, &below, vec![4], atto(8));
    add_msg_meta(&mut ch, &c1, &above, vec![5], atto(16));
    // only the meta for this network is burnt
    h.commit_child_check(SUBNET_ONE, &ch, ExitCode::Success, atto(4));

    assert_eq!(h.get_subnet(&c1).unwrap().circ_supply, fil() - atto(31));
    assert_eq!(h.st.nonce, 1);
    assert_eq!(h.st.bottomup_msg_meta.len(), 1);
    assert_eq!(h.st.bottomup_msg_meta[0].value, atto(4));
    assert_eq!(h.st.bottomup_msg_meta[0].msgs_cid, Cid::of(&vec![3]));

    let window = h.window_checkpoint();
    assert_eq!(window.data.epoch, 10);
    assert_eq!(window.data.cross_msgs.len(), 2);
    // what goes down goes on in the name of this network
    let down = window.crossmsg_meta(&shid, &below).unwrap();
    assert_eq!(down.value, atto(9));
    let content = h.st.check_msg_registry.iter().find(|e| e.cid == down.msgs_cid).unwrap();
    assert_eq!(content.msgs.metas.len(), 2);
    assert_eq!(content.msgs.metas[0].msgs_cid, Cid::of(&vec![1]));
    assert_eq!(content.msgs.metas[1].msgs_cid, Cid::of(&vec![4]));
    // what goes further up keeps its source
    let up = window.crossmsg_meta(&c1, &above).unwrap();
    assert_eq!(up.value, atto(18));
    let content = h.st.check_msg_registry.iter().find(|e| e.cid == up.msgs_cid).unwrap();
    assert_eq!(content.msgs.metas.len(), 2);
    assert_eq!(content.msgs.metas[0].msgs_cid, Cid::of(&vec![2]));
    assert_eq!(content.msgs.metas[0].value, atto(2));
    assert_eq!(content.msgs.metas[1].msgs_cid, Cid::of(&vec![5]));

    // a single meta that goes further up is filed as it came
    let mut ch = Checkpoint::new(c2.clone(), 9);
    add_msg_meta(&mut ch, &c2, &above, vec![6], atto(32));
    h.commit_child_check(SUBNET_TWO, &ch, ExitCode::Success, zero());
    let window = h.window_checkpoint();
    let up = window.crossmsg_meta(&c2, &above).unwrap();
    assert_eq!(up.msgs_cid, Cid::of(&vec![6]));
    assert_eq!(up.value, atto(32));
    assert_eq!(window.data.cross_msgs.len(), 3);
    assert_eq!(window.data.children.len(), 2);
}

#[test]
fn bottomup_metas_keep_dense_nonces() {
    let mut h = setup_root();
    h.register(SUBNET_ONE, &fil(), ExitCode::Success);
    h.register(SUBNET_TWO, &fil(), ExitCode::Success);
    let sn1 = SubnetID::new_child(&h.net_name, SUBNET_ONE);
    let sn2 = SubnetID::new_child(&h.net_name, SUBNET_TWO);
    h.set_epoch(1);
    let net = h.net_name.clone();
    let mut ch = Checkpoint::new(sn1.clone(), 9);
    add_msg_meta(&mut ch, &sn1, &net, vec![1], zero());
    add_msg_meta(&mut ch, &sn1, &sn2, vec![2], zero());
    add_msg_meta(&mut ch, &sn1, &net, vec![3], zero());
    h.commit_child_check(SUBNET_ONE, &ch, ExitCode::Success, zero());
    let mut ch = Checkpoint::new(sn2.clone(), 9);
    add_msg_meta(&mut ch, &sn2, &net, vec![4], zero());
    h.commit_child_check(SUBNET_TWO, &ch, ExitCode::Success, zero());
    let nonces: Vec<u64> = h.st.bottomup_msg_meta.iter().map(|m| m.nonce).collect();
    assert_eq!(nonces, vec![0, 1, 2]);
    assert_eq!(h.st.nonce, 3);
    let cids: Vec<Cid> = h.st.bottomup_msg_meta.iter().map(|m| m.msgs_cid.clone()).collect();
    assert_eq!(cids, vec![Cid::of(&vec![1]), Cid::of(&vec![3]), Cid::of(&vec![4])]);
}

#[test]
fn bottomup_nonces_are_applied_in_order() {
    let mut h = setup_root();
    let mut msg = StorableMsg::default();
    msg.nonce = 1;
    assert_eq!(h.st.bottomup_state_transition(&msg), Err(ActorError::NonceMismatch));
    msg.nonce = 0;
    assert_eq!(h.st.bottomup_state_transition(&msg), Ok(()));
    assert_eq!(h.st.bottomup_state_transition(&msg), Ok(()));
    msg.nonce = 2;
    assert_eq!(h.st.bottomup_state_transition(&msg), Err(ActorError::NonceMismatch));
    msg.nonce = 1;
    assert_eq!(h.st.bottomup_state_transition(&msg), Ok(()));
    assert_eq!(h.st.applied_bottomup_nonce, 1);
    msg.nonce = 0;
    assert_eq!(h.st.bottomup_state_transition(&msg), Err(ActorError::NonceMismatch));
}

#[test]
fn the_constructor_checks_its_parameters() {
    let system = Invocation {
        caller: Address::new_id(SYSTEM_ACTOR_ID),
        caller_type: ActorType::System,
        value_received: zero(),
        curr_epoch: 0,
        current_balance: zero(),
        sig_addr: None,
    };
    let params = |name: &str, period: i64, stake: i64| ConstructorParams {
        network_name: name.to_string(),
        checkpoint_period: period,
        min_stake: TokenAmount::from_atto(stake),
    };
    let st = Actor::constructor(&system, params("/root/f0101", 100, 5)).unwrap();
    assert_eq!(st.network_name, SubnetID::from_str("/root/f0101").unwrap());
    assert_eq!(st.check_period, 100);
    assert_eq!(st.min_stake, atto(5));
    // a short period is raised to the default
    assert_eq!(Actor::constructor(&system, params("/root", 3, 5)).unwrap().check_period, 10);
    assert_eq!(Actor::constructor(&system, params("/root", -3, 0)).unwrap().check_period, 10);
    assert_eq!(
        Actor::constructor(&system, params("root", 10, 5)).unwrap_err(),
        ActorError::InvalidNetworkName
    );
    assert_eq!(
        Actor::constructor(&system, params("/root", 10, -1)).unwrap_err(),
        ActorError::NegativeAmount
    );
    let mut other = system;
    other.caller = Address::new_id(1);
    assert_eq!(
        Actor::constructor(&other, params("/root", 10, 5)).unwrap_err(),
        ActorError::Forbidden
    );
}

#[test]
fn broken_states_are_found() {
    let fresh = || {
        let mut h = setup_root();
        h.register(SUBNET_ONE, &fil(), ExitCode::Success);
        h.register(SUBNET_TWO, &fil(), ExitCode::Success);
        let sn1 = SubnetID::new_child(&h.net_name, SUBNET_ONE);
        h.fund(&Address::new_id(1), &sn1, ExitCode::Success, fil(), 1, &fil());
        h.set_epoch(3);
        let mut ch = Checkpoint::new(sn1.clone(), 9);
        add_msg_meta(&mut ch, &sn1, &h.net_name.clone(), vec![1], zero());
        add_msg_meta(&mut ch, &sn1, &SubnetID::new_child(&h.net_name, 7), vec![2], zero());
        add_msg_meta(&mut ch, &sn1, &SubnetID::new_child(&h.net_name, 8), vec![3], zero());
        h.commit_child_check(SUBNET_ONE, &ch, ExitCode::Success, zero());
        let ch2 = Checkpoint::new(SubnetID::new_child(&h.net_name, SUBNET_TWO), 9);
        h.commit_child_check(SUBNET_TWO, &ch2, ExitCode::Success, zero());
        h.st
    };
    assert!(fresh().verify_invariants());

    let mut st = fresh();
    st.total_subnets = 3;
    assert!(!st.verify_invariants());
    let mut st = fresh();
    st.check_period = 9;
    assert!(!st.verify_invariants());
    let mut st = fresh();
    st.min_stake = TokenAmount::from_atto(-1);
    assert!(!st.verify_invariants());
    // a subnet whose status does not follow its stake
    let mut st = fresh();
    st.subnets[0].status = Status::Inactive;
    assert!(!st.verify_invariants());
    let mut st = fresh();
    st.subnets[1].status = Status::Killed;
    assert!(!st.verify_invariants());
    let mut st = fresh();
    st.subnets[0].stake = half_fil();
    assert!(!st.verify_invariants());
    let mut st = fresh();
    st.subnets[0].circ_supply = TokenAmount::from_atto(-1);
    assert!(!st.verify_invariants());
    // nonces with a gap
    let mut st = fresh();
    st.subnets[0].nonce = 2;
    assert!(!st.verify_invariants());
    let mut st = fresh();
    st.subnets[0].top_down_msgs[0].nonce = 1;
    assert!(!st.verify_invariants());
    // a subnet twice
    let mut st = fresh();
    st.subnets[1].id = st.subnets[0].id.clone();
    assert!(!st.verify_invariants());
    // metas out of order, or above the nonce
    let mut st = fresh();
    st.nonce = 0;
    assert!(!st.verify_invariants());
    let mut st = fresh();
    let again = st.bottomup_msg_meta[0].clone();
    st.bottomup_msg_meta.push(again);
    st.nonce = 5;
    assert!(!st.verify_invariants());
    // a window checkpoint out of order
    let mut st = fresh();
    st.checkpoints[0].data.cross_msgs.swap(0, 1);
    assert!(!st.verify_invariants());
    let mut st = fresh();
    st.checkpoints[0].data.children.swap(0, 1);
    assert!(!st.verify_invariants());
    let mut st = fresh();
    let twice = st.checkpoints[0].data.children[0].checks[0].clone();
    st.checkpoints[0].data.children[0].checks.push(twice);
    assert!(!st.verify_invariants());
    let mut st = fresh();
    let window = clone_checkpoint(&st.checkpoints[0]);
    st.checkpoints.push(window);
    assert!(!st.verify_invariants());
    // a window checkpoint of another network, or between two windows
    let mut st = fresh();
    st.checkpoints[0].data.source = SubnetID::from_str("/root/f01").unwrap();
    assert!(!st.verify_invariants());
    let mut st = fresh();
    st.checkpoints[0].data.epoch = 11;
    assert!(!st.verify_invariants());
    let mut st = fresh();
    st.checkpoints[0].data.epoch = -10;
    assert!(!st.verify_invariants());
    // a subnet that is no child of the network
    let mut st = fresh();
    st.subnets[0].id = SubnetID::from_str("/root/f01/f02").unwrap();
    assert!(!st.verify_invariants());
    let mut st = fresh();
    st.subnets[0].id = SubnetID::root();
    assert!(!st.verify_invariants());
    // a content under another identifier
    let mut st = fresh();
    st.check_msg_registry[0].cid = Cid::of(&vec![0]);
    assert!(!st.verify_invariants());
    let mut st = fresh();
    st.check_msg_registry[1].cid = st.check_msg_registry[0].cid.clone();
    assert!(!st.verify_invariants());
}

#[test]
fn broken_executions_are_found() {
    let fresh = || {
        let ExecSetup { mut h, a, cid, .. } = setup_exec();
        h.submit_atomic_exec(
            &a,
            &output(&cid, b"testOutput", false),
            SubmitOutput { status: ExecStatus::Initialized },
            1,
            ExitCode::Success,
        );
        h.st
    };
    assert!(fresh().verify_invariants());
    let mut st = fresh();
    st.atomic_exec_registry[0].execution.status = ExecStatus::Success;
    assert!(!st.verify_invariants());
    let mut st = fresh();
    st.atomic_exec_registry[0].execution.status = ExecStatus::Aborted;
    assert!(st.verify_invariants());
    let mut st = fresh();
    st.atomic_exec_registry[0].execution.params.msgs.clear();
    assert!(!st.verify_invariants());
    let mut st = fresh();
    st.atomic_exec_registry[0].execution.params.inputs.pop();
    assert!(!st.verify_invariants());
    let mut st = fresh();
    st.atomic_exec_registry[0].execution.params.msgs[1].method = 9;
    assert!(!st.verify_invariants());
    // parties that meet below the network
    let mut st = fresh();
    let deep = SubnetID::from_str("/root/f0101/f01").unwrap();
    st.atomic_exec_registry[0].execution.params.inputs[1].addr =
        Address::new_hierarchical(&deep, &Address::new_id(1002)).unwrap();
    assert!(!st.verify_invariants());
    let mut st = fresh();
    st.atomic_exec_registry[0].execution.params.inputs[1].addr = Address::new_id(3);
    assert!(!st.verify_invariants());
    let mut st = fresh();
    st.atomic_exec_registry[0].execution.params.inputs[1].addr =
        Address::new_hierarchical(&SubnetID::root(), &Address::new_bls(&vec![1; 48]).unwrap())
            .unwrap();
    assert!(!st.verify_invariants());
    let mut st = fresh();
    st.atomic_exec_registry[0].execution.submitted[0].addr = Address::new_id(3);
    assert!(!st.verify_invariants());
    let mut st = fresh();
    let twice = fil_actor_hierarchical_sca::exec::Submission {
        addr: st.atomic_exec_registry[0].execution.submitted[0].addr.clone(),
        output: Cid::undefined(),
    };
    st.atomic_exec_registry[0].execution.submitted.push(twice);
    assert!(!st.verify_invariants());
}

#[test]
fn executions_can_be_changed_through_their_record() {
    let ExecSetup { mut h, a, cid, .. } = setup_exec();
    let exec = &mut h.st.atomic_exec_registry[0].execution;
    assert_eq!(exec.status(), ExecStatus::Initialized);
    exec.submitted_mut().push(fil_actor_hierarchical_sca::exec::Submission {
        addr: a.clone(),
        output: Cid::of(&vec![1]),
    });
    assert_eq!(exec.submitted().len(), 1);
    exec.set_status(ExecStatus::Aborted);
    assert_eq!(exec.status(), ExecStatus::Aborted);
    assert_eq!(exec.params().msgs.len(), 2);
    assert!(h.st.verify_invariants());
    assert_eq!(h.st.get_atomic_exec(&cid).unwrap().status(), ExecStatus::Aborted);
    assert!(h.st.get_atomic_exec(&Cid::undefined()).is_none());
}
