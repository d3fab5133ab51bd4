//! Command-line switches that concern the sandbox.

use vstd::prelude::*;

verus! {

/// A Chromium command-line switch, with its value if it takes one.
#[derive(Clone, Debug, PartialEq, Eq)]
pub struct ChromiumFlag {
    pub name: String,
    pub value: Option<String>,
}

/// The switches that Chromium is started with.
#[derive(Clone, Debug, PartialEq, Eq)]
pub struct ChromiumFlags {
    pub flags: Vec<ChromiumFlag>,
}

/// Adds the switches that concern the sandbox on Linux: none. The settings that
/// CEF is initialized with say what becomes of it, and a switch that turns
/// parts of it off makes Chromium warn its users.
pub fn apply_sandbox_flags(flags: &mut ChromiumFlags)
    ensures
        *final(flags) == *old(flags),
{
}

} // verus!
