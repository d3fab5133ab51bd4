//! The decisions of the Kurogane runtime, which embeds Chromium into desktop
//! applications by way of CEF.
//!
//! Nothing here touches CEF, the disk or the operating system. Where the
//! runtime has to, a value of this library says what is to be done next, the
//! caller does it, and what came of it is handed back: the startup in
//! [`bootstrap`], the layout in [`settings`], the recursive copy in [`copy`],
//! the context of the browser process in [`browser_process`]. CEF's browsers
//! and windows are named by numbers, and [`services`] keeps track of which of
//! them are there. [`laws`] holds what is true across these modules.

pub mod app_handle;
pub mod app_instance;
pub mod bootstrap;
pub mod browser_handle;
pub mod browser_process;
pub mod browser_registry;
pub mod copy;
pub mod error;
pub mod interrupt;
pub mod laws;
pub mod layout;
pub mod macos;
pub mod path;
pub mod runtime_spec;
pub mod sandbox;
mod seq_facts;
pub mod services;
pub mod settings;
pub mod window;
pub mod window_options;
pub mod window_registry;
