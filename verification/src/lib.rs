//! garshot: screenshot logic for X11 — regions, pixel conversion, blurring,
//! cursor blending, image encoding, configuration and the daemon protocol.

pub mod annotate;
pub mod blur;
pub mod capture;
pub mod cli;
pub mod config;
pub mod daemon;
pub mod encode;
pub mod error;
pub mod history;
pub mod ipc;
pub mod naming;
pub mod overlay;
pub mod pixels;
pub mod region;
pub mod selection;
pub mod text;
pub mod tools;

pub use error::GarshotError;
