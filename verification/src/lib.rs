//! Record extraction for issue upload: turns a delimited-text or JSON
//! document into a sequence of title/description records under a
//! configurable field-selection policy, plus the plain data types and
//! decision helpers that the surrounding uploader needs.

pub mod args;
pub mod csvpath;
pub mod gitlabapi;
pub mod issuefile;
pub mod jsonpath;
pub mod records;
pub mod resolve;
pub mod text;
