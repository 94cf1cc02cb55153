pub mod path;
pub mod query;
pub mod digest;
pub mod module;
pub mod identity;
pub mod plugin;
pub mod script;
pub mod cache;
