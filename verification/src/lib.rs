pub mod config;
pub mod documents;
pub mod extension;
pub mod fallback;
pub mod interceptor;
pub mod json;
pub mod paths;
pub mod proxy;
pub mod ranking;
pub mod rpc;
pub mod strings;
pub mod stubs;
pub mod symbols;
pub mod text;
pub mod transport;
