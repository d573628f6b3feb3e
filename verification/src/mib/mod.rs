//! The resolved MIB model: arena ids, types, symbols and resolution traces.

pub mod oid;
pub mod types;
pub mod typedef;
pub mod symbol;
pub mod resolver;
pub mod trace;
