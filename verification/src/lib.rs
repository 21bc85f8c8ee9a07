//! Bridge between database change notifications and a publish/subscribe
//! transport: decoding, de-duplication of fills, topic routing and price levels.

pub mod bar;
pub mod book;
pub mod decimal;
pub mod decode;
pub mod dedup;
pub mod dispatch;
pub mod event;
pub mod json;
pub mod level;
pub mod payload;
pub mod registration;
pub mod time;
pub mod topic;
