//! Source adapters and the normalized post model they produce.

pub mod source;
pub mod vk;
