//! A map-like view of one XML start tag.
//!
//! The fields of an element come from two places: the attributes written
//! inside its start tag and the content that follows the tag. [`map::MapAccess`]
//! presents both through one pull protocol of alternating key and value
//! requests, attributes first.

pub mod attributes;
pub mod errors;
pub mod events;
pub mod map;
