//! Flattening of product view structures: a catalog of components, each
//! placing other components by index, becomes an ordered list of scene items.
pub mod buffer;
pub mod config;
pub mod fields;
pub mod flatten;
pub mod matrix;
pub mod path;
pub mod scene;

pub use buffer::{next_chunk, MultiBuf};
pub use config::{ArgumentError, Config};
pub use fields::{parse_index, split_fields, to_arr_3, to_arr_9, FormatError};
pub use flatten::{create_items, flatten, Flattened};
pub use matrix::Matrix4x4;
pub use path::{depth_of, parent_id, supplied_id};
pub use scene::{
    copy_chain, placement_of, Color3, ColorMaterial, Component, ComponentInstance, Placement,
    SceneItem, Source, DEFAULT_ORIENTATION, DEFAULT_SUPPLIED_REVISION_ID, DEFAULT_TRANSLATION,
};
