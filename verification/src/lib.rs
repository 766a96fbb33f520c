//! Schemas of Event Tracing for Windows (ETW) events, with transparent support for classic
//! (`win:EventlogClassic`) events.

pub mod cache;
pub mod classic;
pub mod classic_laws;
pub mod le;
pub mod locator_laws;
pub mod native;
pub mod provider;
pub mod schema;
pub mod schema_locator;
pub mod text;
pub mod trace;
pub mod utf16;
