//! Ingestion of scraped advertisement markup: content extraction, the image
//! provenance pipeline's decisions, and the ad record's merge and query rules.

pub mod text;
pub mod urls;
pub mod extract;
pub mod ads;
pub mod query;
pub mod pipeline;
