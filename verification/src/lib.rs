pub mod meta;
pub mod text;
pub mod digest;
pub mod guard;
pub mod config;
pub mod engine;
pub mod task;
pub mod laws;
pub mod messages;
pub mod submit;
pub mod roundtrip;
pub mod password;
