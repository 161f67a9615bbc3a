//! Turns one Markdown document into a deck of standalone HTML slides and
//! decides how a static file server answers requests for them.

pub mod builder;
pub mod containment;
pub mod content_type;
pub mod decimal;
pub mod markdown;
pub mod partition;
pub mod plain;
pub mod resolve;
pub mod segments;
pub mod serve;
pub mod template;
pub mod text;
