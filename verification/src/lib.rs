//! Verified core of the MarkFlow desktop and mobile Markdown editor backend.
pub mod text;
pub mod json;
pub mod chat;
pub mod session;
pub mod instance;
pub mod documents;
pub mod drafts;
pub mod platform;

pub use instance::run;
