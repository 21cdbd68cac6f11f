//! A private server for party games that are played with phones: what it decides.
//!
//! [`room`] holds what a room is and how it changes. [`ecast`] and [`blobcast`] are the two protocols
//! in which connections speak to rooms; what a message brings about is handed back as effects, which
//! [`effect`] defines. [`http_cache`], with [`stream`] and [`patch`], is the cache of what the games'
//! own server serves, [`tts`] is speech, and [`tui`] the screen of the operator. [`laws`] states what
//! holds of rooms whatever messages come, and what holds of all the rest.

pub mod acl;
pub mod blobcast;
pub mod choices;
pub mod digits;
pub mod ecast;
pub mod effect;
pub mod entity;
pub mod frame;
pub mod http_cache;
pub mod json;
pub mod laws;
pub mod patch;
pub mod room;
pub mod store;
pub mod stream;
pub mod text;
pub mod tts;
pub mod tui;
