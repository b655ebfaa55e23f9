pub mod agent;
pub mod chat;
pub mod cipher;
pub mod codec;
pub mod entity;
pub mod error;
pub mod json;
pub mod store;
pub mod text;
pub mod unit_of_work;
pub mod wire;
