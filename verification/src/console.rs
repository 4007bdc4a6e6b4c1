//! The reporting boundary between the host and its caller.
//!
//! The host reports progress and failures through an injected sink; the
//! concrete presentation (an on-screen overlay, a terminal, a test buffer)
//! is the caller's concern, so the sink formats its own output.

use vstd::prelude::*;

verus! {

/// A sink for the host's progress and failure messages.
///
/// The `_path` variants carry the file or directory the message is about,
/// so that an implementation may lay the two parts out as it pleases.
pub trait ConsoleSink {
    /// Report ordinary progress.
    fn log(&mut self, text: &str);

    /// Report something suspicious that does not stop any work.
    fn warn(&mut self, text: &str);

    /// Report a failure.
    fn err(&mut self, text: &str);

    /// Report ordinary progress about one path.
    fn log_path(&mut self, text: &str, path: &str);

    /// Report something suspicious about one path.
    fn warn_path(&mut self, text: &str, path: &str);

    /// Report a failure tied to one path.
    fn err_path(&mut self, text: &str, path: &str);
}

} // verus!
