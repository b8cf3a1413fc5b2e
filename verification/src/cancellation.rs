//! A cancellation flag shared by every clone of a token.

use std::sync::atomic::AtomicBool;
use std::sync::atomic::Ordering;
use std::sync::Arc;
use vstd::prelude::*;

verus! {

/// Cloneable cancellation flag shared across task execution boundaries; a clone
/// observes the cancellation of any other clone.
#[derive(Debug, Clone)]
pub struct CancellationToken {
    cancelled: Arc<AtomicBool>,
}

impl CancellationToken {
    /// Creates a token in the non-cancelled state.
    pub fn new() -> (token: CancellationToken) {
        CancellationToken { cancelled: Arc::new(AtomicBool::new(false)) }
    }

    /// Requests cancellation for all holders of this token.
    pub fn cancel(&self) {
        self.cancelled.store(true, Ordering::SeqCst);
    }

    /// Returns whether cancellation has been requested; the flag is shared with other
    /// threads, so the answer depends on what they did before.
    pub fn is_cancelled(&self) -> (cancelled: bool) {
        self.cancelled.load(Ordering::SeqCst)
    }
}

} // verus!
