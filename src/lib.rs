//! Client-side model of a headless content service: JSON documents, the
//! resolution of reference stubs against a response's side-table, query
//! descriptors, locale reshaping and the requests the clients send.

pub mod delivery;
pub mod error;
pub mod http;
pub mod json;
pub mod locale;
pub mod management;
pub mod models;
pub mod query;
pub mod resolve;
pub mod text;

pub use crate::delivery::ContentfulClient;
pub use crate::management::ContentfulManagementClient;
pub use crate::query::QueryBuilder;
