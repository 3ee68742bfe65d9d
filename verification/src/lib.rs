//! Quota windows of the Codex app-server, the texts shown for them in
//! Chinese and English, and the decisions of the usage reader.
pub mod codex;
pub mod locale;
pub mod model;
pub mod text;
pub mod worker;
