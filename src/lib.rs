//! Staging and deduplication data layer of an RSS-to-social-network bridge,
//! together with the grapheme-aware text truncation used to fit free text
//! into a display budget.

pub mod bulk;
pub mod config;
pub mod decimal;
pub mod error;
pub mod memory;
pub mod models;
pub mod stages;
pub mod store;
pub mod table;
pub mod text_utils;
