//! A DuckDuckGo Instant Answers client library: builds the request for a
//! query and decodes the loosely typed JSON reply into typed values.

pub mod error;
pub mod icon;
pub mod json;
pub mod laws;
pub mod query;
pub mod record;
pub mod related_topic;
pub mod response;
pub mod scanner;
pub mod text;

pub use error::DecodeError;
pub use icon::Icon;
pub use json::{Json, Member};
pub use query::{Error, Query};
pub use related_topic::{RelatedTopic, Topic, TopicResult};
pub use response::{Response, Type};
pub use scanner::KeyScanner;
