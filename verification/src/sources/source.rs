//! The source-agnostic post model every adapter produces.

use vstd::prelude::*;

use crate::config::Snowflake;

verus! {

/// A post normalized from some source, owning all of its data.
#[derive(Debug, Clone, PartialEq)]
pub struct ForeignPost {
    /// Post ID; unique within its source.
    pub id: Snowflake,
    /// ID of the source the post came from.
    pub source_id: Snowflake,
    /// Post text; may be empty.
    pub text: String,
    /// Post media, in presentation order.
    pub media: Vec<ForeignMedia>,
    /// Human-readable source name.
    pub source: String,
    /// Permalink to the post.
    pub url: String,
}

/// A reference to one media item of a post.
#[derive(Debug, Clone, PartialEq)]
pub enum ForeignMedia {
    /// A still-image URL. JPEG, PNG, etc.; not GIF.
    Photo(String),
    /// A video URL. MP4 or GIF only.
    Video(String),
}

} // verus!
