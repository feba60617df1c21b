//! A control-plane agent for a mesh of encrypted point-to-point tunnel
//! interfaces. Nodes onboard by redeeming a one-time invite credential,
//! then reconcile their local tunnel, address and route state against the
//! configuration a central coordinator distributes.
//!
//! The library makes every decision: it frames and parses the byte-level
//! kernel request/response protocol (`netlink`, `genl`), drives each
//! interface through its convergence state machine (`iface`), plans the
//! per-OS capability calls (`apply`), encodes and decodes the wire
//! configuration records and the invite envelope (`addr`, `wire`, `b64`),
//! and orders the per-node reconciliation passes (`node`). The unverified
//! driver around it only performs the I/O each decision calls for.

pub mod addr;
pub mod apply;
pub mod bytes;
pub mod config;
pub mod b64;
pub mod errors;
pub mod iface;
pub mod genl;
pub mod netlink;
pub mod node;
pub mod text;
pub mod wire;

