//! Session and identity-linking core of an OAuth2 broker for a chat
//! platform and a media-tracking platform.

pub mod error;
pub mod text;
pub mod claims;
pub mod oauth;
pub mod discord;
pub mod anilist;
pub mod token;
pub mod user;
pub mod store;
pub mod routes;
pub mod graphql;
