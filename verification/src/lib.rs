pub mod blob;
pub mod cache;
pub mod error;
pub mod events;
pub mod file_provider;
pub mod http_provider;
pub mod kv;
pub mod mod_info;
pub mod modio_data;
pub mod modio_provider;
pub mod registry;
pub mod store;
pub mod strutil;
pub mod urls;
