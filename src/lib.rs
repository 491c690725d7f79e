//! Backend logic of a desktop image-captioning tool: directory listings,
//! caption file targets, image validation and payloads, request sanitising
//! and the decisions around the two inference proxies.
pub mod text;
pub mod system;
pub mod listing;
pub mod sanitize;
pub mod imaging;
pub mod proxy;
pub mod captions;
pub mod appdir;
