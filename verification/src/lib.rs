pub mod json;
pub mod text;
pub mod textmap;
pub mod methods;
pub mod template;
pub mod http_auth;
pub mod stdio;
pub mod session_guard;
pub mod pagination;
pub mod protocol;
pub mod builders;
pub mod app;
pub mod jsonrpc;
pub mod render;
pub mod streamable_http;
pub mod notifications;
pub mod clients;
pub mod envelopes;
pub mod readers;
pub mod fixtures;
