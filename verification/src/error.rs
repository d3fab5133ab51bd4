//! Why the runtime could not start, or could not open a window.

use crate::path::LayoutPath;
use vstd::prelude::*;

verus! {

/// `std::io::Error`, carried from the call that failed to the caller.
#[verifier::external_type_specification]
#[verifier::external_body]
pub struct ExIoError(std::io::Error);

#[derive(Debug)]
pub enum RuntimeError {
    /// The profile directory could not be created.
    CacheUnavailable { path: LayoutPath, source: std::io::Error },
    /// No CEF installation was found, or its path does not resolve.
    CefNotInstalled,
    /// A CEF installation was found and is not usable.
    InvalidCefInstallation(String),
    /// CEF refused to initialize.
    CefInitializeFailed,
    /// CEF did not create the browser view.
    BrowserCreationFailed,
    /// CEF did not create the window.
    WindowCreationFailed,
}

} // verus!
