//! Precompile dispatch and gas accounting for an embedded bytecode
//! interpreter hosted in a deterministic smart-contract runtime.
//!
//! A call that targets a reserved 20-byte address is intercepted by the
//! registry before ordinary bytecode dispatch and routed to a native
//! handler.  The one handler specified here surfaces the outcomes of
//! previously scheduled asynchronous cross-contract calls: it serializes
//! the execution context's outcome list with the canonical codec, prices
//! the work with the dual-unit gas model, charges the enclosing call
//! frame, and returns the encoded bytes.  The calibration module holds the
//! arithmetic of the differential measurement procedure that validates the
//! model's coded constants.

pub mod calibration;
pub mod codec;
pub mod gas;
pub mod handler;
pub mod outcome;
pub mod registry;
