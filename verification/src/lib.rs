//! Decision logic of the GigShield escrow vault and compliance guard contracts.
//!
//! Each contract is modelled as the state that its storage holds and a set of
//! operations from that state and a request to the next state and the token
//! movements the host has to carry out.  A refused request leaves the state as
//! it was.
pub mod address;
pub mod escrow_vault;
pub mod escrow_laws;
pub mod compliance_guard;
pub mod compliance_laws;
