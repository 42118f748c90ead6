//! The verified core of a local password manager: the encrypted vault format,
//! one-time passwords, password generation, the update check, and the state
//! machine behind the window. Reading and writing files, the network, the
//! clipboard and the drawing live outside, in the application.
pub mod actions;
pub mod codec;
pub mod crypto;
pub mod display;
pub mod fields;
pub mod frame;
pub mod generator;
pub mod import;
pub mod listing;
pub mod manage;
pub mod modal;
pub mod model;
pub mod registry;
pub mod session;
pub mod text;
pub mod toast;
pub mod totp;
pub mod update;
pub mod vault;
