//! What the library promises as a whole, beyond what the single functions say: what
//! results have to satisfy, and how the results of several calls relate.

pub mod adapters;
pub mod addresses;
pub mod commands;
pub mod conversations;
pub mod discovery;
pub mod linux;
pub mod messages;
pub mod observations;
pub mod previews;
pub mod records;
pub mod rituals;
pub mod runs;
pub mod schema;
pub mod sessions;
pub mod stored;
pub mod suggestions;
pub mod times;
