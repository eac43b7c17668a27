//! Feed ingestion for a daycare activity export: decoding of feed pages into
//! posts, photos and comments, their filtering, and the bookkeeping of a
//! paginated walk over the feed.

pub mod child_info;
pub mod config;
pub mod chars;
pub mod text;
pub mod endpoints;
pub mod error;
pub mod time;
pub mod json;
pub mod feed_item;
pub mod filter;
pub mod pagination;
pub mod post;
