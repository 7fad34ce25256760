//! The logic of a small desktop tray for the mihomo kernel.
//!
//! The tray reads the kernel's state from its external controller, shows it as a menu and sends
//! back what the user picks. This crate decides all of that and proves it; what talks to the
//! network and to the desktop is built around it.
//!
//! - [`kernel`]: what the kernel reports, and which of its groups are listed
//! - [`snapshot`]: the state that is shown, and the documents it is read from
//! - [`command`]: what can be picked, and the call that carries it out
//! - [`api`]: the requests that make the calls, and how their outcome is judged
//! - [`tray`]: the menu and the tooltip
//! - [`serve`]: settings, and what follows what
//! - [`error`], [`encode`], [`text`]: messages, percent-encoding, text
//! - [`json`], [`wire`]: the parts that `serde_json` and `http` do

pub mod api;
pub mod command;
pub mod encode;
pub mod error;
pub mod json;
pub mod kernel;
pub mod serve;
pub mod snapshot;
pub mod text;
pub mod tray;
pub mod wire;
