//! Erusert: a terminal companion that reads web pages for context, keeps a
//! virtual thermal state while it "thinks", and is configured through a setup
//! wizard. This crate holds its verified core: the model catalogue, the
//! command and text handling, the page-content extraction, the setup wizard
//! and the personalisation editor as state machines, and the digest wording.

pub mod models;
pub mod text;
pub mod fetcher;
pub mod setup;
pub mod svaisurt;
pub mod vnpu;
pub mod session;
pub mod overpanic;
