//! Verified core of an importer for Quake-style `.map` files.
//!
//! A map is loaded into an [`asset::MapAsset`]; [`map_plan::build_map`]
//! decides what is built of it, face by face: what is drawn, what only
//! bounds a collider, what is left out and reported.
//! [`components::MapEntityProperties`] reads the properties of its
//! entities. [`entity_schema`], [`property_schema`] and [`config`] write the
//! Forge Game Data file that tells a level editor which entities a game
//! has.
//!
//! Positions, normals and texture coordinates are not computed here: the
//! host solves the brushes and hands over, for each face, the order of its
//! corners.

pub mod asset;
pub mod components;
pub mod config;
pub mod conversions;
pub mod entity_schema;
pub mod entity_type;
pub mod layout;
pub mod map_plan;
pub mod property_schema;
pub mod string_map;
pub mod text;
pub mod triangulation;
pub mod triggers;
