//! Typed bindings for the team endpoints of Slack's Web API, with the
//! decoding of responses and the building of requests verified.

pub mod api;
pub mod decimal;
pub mod decode;
pub mod grammar;
pub mod json;
pub mod laws;
pub mod paging;
pub mod params;
pub mod parser;
pub mod sender;
pub mod team;
pub mod text;
