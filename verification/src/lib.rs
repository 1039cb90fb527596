//! Verified core of a status feed: validated stores, the feed table, the
//! ingestion pipeline and the publish protocol.

pub mod error;
pub mod feed;
pub mod home;
pub mod ingester;
pub mod keyed;
pub mod login;
pub mod oauth;
pub mod status;
pub mod store;
pub mod text;
pub mod types;
