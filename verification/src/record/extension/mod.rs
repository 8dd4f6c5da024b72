//! Records of the protocol's extensions.

pub mod video;

pub use crate::record::extension::video::{Video, VideoUrl};
