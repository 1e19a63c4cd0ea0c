//! A verified core for a component-lifecycle ledger.
//!
//! Physical or logical "components" are stored as fixed-width binary records
//! inside owner-tagged byte buffers ("slots") supplied by an external ledger.
//! Each invocation decodes a caller-supplied request into a candidate record
//! and an opcode, and applies one deterministic mutation to one or two slots.
//!
//! The crate has two tightly coupled pieces: a byte-exact record codec
//! ([`codec`]) and an opcode state machine ([`dispatch`]), plus a minimal
//! counter record ([`counter`]) that exercises the same codec discipline on
//! the simplest possible record shape.

pub mod codec;
pub mod counter;
pub mod dispatch;
pub mod errors;
pub mod laws;
pub mod record;
pub mod slot;
