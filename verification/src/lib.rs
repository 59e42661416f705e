//! A terminal chat-completion client's verified core: conversation state,
//! reply parsing, the agent loop's transition rules, and the session codec.

pub mod agent;
pub mod client;
pub mod codec;
pub mod convo;
pub mod image;
pub mod json;
pub mod prompts;
pub mod render;
pub mod reply;
pub mod session;
pub mod text;
