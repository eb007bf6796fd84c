//! Request and response logic of a text-to-speech HTTP worker: listener
//! addresses, language negotiation, client addresses, audio framing,
//! error reporting and the web page template.

pub mod text;
pub mod address;
pub mod language;
pub mod client;
pub mod wav;
pub mod encoding;
pub mod json;
pub mod response;
pub mod page;
pub mod debug;
