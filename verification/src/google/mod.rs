//! Google: OAuth client settings, the client handle, Drive and appData logic.

pub mod appdata;
pub mod client;
pub mod config;
pub mod drive;
pub mod profile;
pub mod url;
pub mod oauth;
