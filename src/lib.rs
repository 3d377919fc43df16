//! Resolving the media attached to a Reddit post into downloadable items, and
//! summarising the download counts of a GitHub repository's releases.
//!
//! - `links`: what a link is (image, video, post, gallery), Reddit post ids and
//!   GitHub owner / repository names.
//! - `manifest`: DASH manifests of videos and the renditions chosen from them.
//! - `resolve`: planning the fetches for a post and collecting their results.
//! - `releases`: per-release and overall download counts.
//! - `models`: the values handed back.
//! - `text`: character-level helpers the URL readers are built on.
pub mod links;
pub mod manifest;
pub mod models;
pub mod releases;
pub mod resolve;
pub mod text;
