//! A content-sharing backend core: users, articles, tags, comments,
//! favorites and follows over an in-memory relational store, a signed
//! token codec, the per-request authentication check, the article
//! aggregation query and the assembly of response views.

pub mod slug;
pub mod error;
pub mod model;
pub mod password;
pub mod store;
pub mod relations;
pub mod articles;
pub mod query;
pub mod comments;
pub mod token;
pub mod auth;
pub mod response;
pub mod request;
pub mod account;
pub mod laws;
