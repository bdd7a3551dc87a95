//! A member registry kept consistent over three keyed stores: the set of
//! members, each member's group, and a two-level table of scores keyed by
//! group and member.

pub mod double_map;
pub mod kv_store;
pub mod laws;
pub mod registry;
pub mod runtime;
pub mod state;
pub mod types;
