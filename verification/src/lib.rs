//! Verified core of the SDRIVE backend: client keys, token authorization and
//! administration, appData file naming and what reading a name back gives,
//! Google Drive request shaping and response decoding, JSON serialization,
//! the CORS policy, upload forms, logger settings and trace identifiers.

pub mod allowed_clients;
pub mod text;
pub mod filenames;
pub mod filename_laws;
pub mod folder_name_laws;
pub mod tokens;
pub mod authz;
pub mod admin;
pub mod validation;
pub mod json;
pub mod google;
pub mod clients;
pub mod error;
pub mod logger;
pub mod schedules;
pub mod server;
pub mod upload;
pub mod cors;
