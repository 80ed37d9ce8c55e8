//! Job search library: budget parsing, description formatting, fetch
//! bookkeeping and the small text rules the scrapers share.

pub mod text;
pub mod pattern;
pub mod budget;
pub mod fetch_state;
pub mod region;
pub mod description;
pub mod models;
pub mod classify;
pub mod clock;
pub mod display;
pub mod extractors;
pub mod urls;
pub mod upwork;
pub mod linkedin;
pub mod config;
pub mod store;
pub mod html;
pub mod nofluff;
pub mod efinancialcareers;
pub mod wellfound;
pub mod fields;
pub mod hackernews;
pub mod reddit;
pub mod cli;
pub mod messages;
pub mod server;
