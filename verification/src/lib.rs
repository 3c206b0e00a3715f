//! A hierarchical name resolution map.
//!
//! Dot-structured, human-readable names are attached to opaque, versioned
//! content locators, and resolved back to them. A full name such as
//! `"sub.example"` consists of a top name (`"example"`, its final label) and
//! zero or more subname labels before it; the map is keyed by the subname
//! path alone (`"sub"`), with the empty string reserved for the default,
//! top-level entry.
//!
//! Registering a name against versionable content is refused unless the
//! locator pins a version anchor, so that a name keeps denoting the same
//! snapshot even while the underlying object evolves.

pub mod errors;
pub mod link;
pub mod name;
pub mod nrs_map;
