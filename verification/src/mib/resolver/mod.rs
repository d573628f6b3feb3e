//! Resolver rules and the helpers that resolution phases share.

pub mod rules;
pub mod util;
pub mod semantics;
pub mod context;
pub mod types;
pub mod checks;
pub mod oids;
pub mod imports;
pub mod import_resolution;
