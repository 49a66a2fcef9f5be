//! A line-oriented network client's core: framing a byte stream into lines
//! under a length bound, converting between bytes and text under one of three
//! character encodings, describing session events for display and for a JSON
//! Lines transcript, and the decisions that drive a session.

pub mod codec;
pub mod encoding;
pub mod events;
pub mod json;
pub mod session;
pub mod text;
pub mod vis;
