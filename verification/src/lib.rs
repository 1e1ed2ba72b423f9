//! Orchestration logic for multi-lane hold-invoice probing of a payment
//! network: commitment pairs, the per-attempt lock lifecycle, the payment
//! result watcher, lane scheduling policy and the request shapes handed to
//! ledger nodes. Everything here is pure decision logic over plain values;
//! the transport that talks to the nodes lives outside this library.

pub mod commitment;
pub mod hexcode;
pub mod invoice;
pub mod node;
pub mod lifecycle;
pub mod payment;
pub mod lane;
pub mod roundtrip;
