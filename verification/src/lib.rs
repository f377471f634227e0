//! Saving and loading application resources as RON files: the rules that decide
//! where a save file lives, which resources a save group holds, what is written,
//! and what a load puts back.

mod error;
mod group;
pub mod laws;
mod location;
mod registry;
mod resource;
mod ron_codec;
mod save_attribute;
mod timing;

pub use error::{IoErrorKind, IoFailure, SaveError};
pub use group::{MemberSnapshot, SaveEntry, SaveGroup, load_group_bag, save_group_bag};
pub use location::{PathStyle, SaveLocation, join_path, resolve_app_data_dir, validate_sub_path};
pub use registry::{RegistryView, SaveRegistry};
pub use resource::{
    LoadAction, MemberDecode, fallback_action, member_action, read_save_text, resource_text,
};
pub use save_attribute::{
    DeriveError, SaveAttributeEntry, TypeAttribute, derive_timing, find_save_attribute,
    parse_timing,
};
pub use timing::{SaveTiming, auto_save_due};
