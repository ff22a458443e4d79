//! The subnet coordinator of a hierarchy of networks.
//!
//! A coordinator runs in every network of the hierarchy. It keeps the
//! registry of the network's child subnets and their collateral, routes
//! messages and value between subnets, takes in the checkpoints of its
//! children, and orchestrates atomic executions between them.
//!
//! The coordinator is a deterministic state machine. A method takes the
//! [`state::State`], what the host knows of the call, and the method's
//! parameters; it changes the state and returns what the host has to send in
//! its turn. A method that fails leaves the state as it was. What holds of the
//! state between any two calls is [`state::State::wf`]; the module [`laws`]
//! states what follows from it.
//!
//! Values have one canonical byte form ([`encoding`]), and the identifier of
//! a value is the hash of that form ([`hash`]).

// Amounts, identifiers and the canonical byte form.
pub mod econ;
pub mod hash;
pub mod encoding;
pub mod decoding;
pub mod views;
pub mod keyed;

// Subnets and addresses.
pub mod subnet_id;
pub mod address;
pub mod taddress;

// Blocks in a store.
pub mod tcid;

// Messages, checkpoints and executions.
pub mod types;
pub mod msg_codec;
pub mod checkpoint;
pub mod cross;
pub mod subnet;
pub mod error;
pub mod atomic;
pub mod exec;
pub mod submit_codec;

// The state and its methods.
pub mod state;
pub mod invariants;
pub mod actor;
pub mod commit;
pub mod child_check;
pub mod bottomup;
pub mod orchestrator;
pub mod apply;
pub mod dispatch;

// What holds whatever is called.
pub mod laws;
