//! Structural size statistics for JSON documents.
//!
//! Given one parsed JSON value, the library computes the byte size the value
//! would occupy as compact JSON text, together with per-attribute size
//! statistics: for an object, one entry per member; for an array, the member
//! statistics of all object elements merged by attribute name.

pub mod aggregate;
pub mod laws;
pub mod stats;
pub mod value;

pub use aggregate::{extract_stat_checked, extract_stat_from_json_iter};
pub use stats::{json_stat_size, JsonArrayStat, JsonAttrStat, JsonObjStat, JsonStat, JsonValStat};
pub use value::{try_value_size, JsonValue};
