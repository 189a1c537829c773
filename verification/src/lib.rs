//! A Spin trigger that lets clients list and call the functions of components over HTTP.
//!
//! A client that sends `GET /` is answered the components of the application, and one that sends
//! `GET /<component>` the functions that the component exports. `POST /<component>/<function>`, or
//! `POST /<component>/<interface>/<function>`, calls a function: the body is a JSON array with its
//! arguments, and the answer a JSON array with its results.
//!
//! The library decides what to ask of the host at each step of such an exchange and what to reply
//! ([`exchange`], [`calls`], [`listing`]), and reads and writes the values of the component model
//! as JSON ([`decode`], [`encode`]). It does no input or output of its own.
pub mod calls;
pub mod decode;
pub mod document;
pub mod encode;
pub mod exchange;
pub mod exchange_laws;
pub mod integers;
pub mod json;
pub mod laws;
pub mod listing;
pub mod reading_laws;
pub mod step_laws;
pub mod text;
pub mod text_laws;
pub mod values;
pub mod view_laws;
pub mod writing_laws;

pub use exchange::RemoteTrigger;
