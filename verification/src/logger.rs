//! Diagnostics flag shared by the shell's components.
//!
//! The logger itself only carries the process-wide debug flag; rendering a
//! diagnostic line to a terminal is left to the surrounding program.

use vstd::prelude::*;

verus! {

/// Carries the debug-diagnostics flag. Debug output is emitted only while the
/// flag is set; error output is emitted regardless of it.
pub struct Logger {
    pub debug_enabled: bool,
}

impl Logger {
    pub fn new(enabled: bool) -> (r: Logger)
        ensures
            r.debug_enabled == enabled,
    {
        Logger { debug_enabled: enabled }
    }

    /// Flips the debug flag: the effect of the debug-toggle builtin.
    pub fn toggle_debug(&mut self)
        ensures
            final(self).debug_enabled == !old(self).debug_enabled,
    {
        self.debug_enabled = !self.debug_enabled;
    }
}

} // verus!
