//! The stop request set by the SIGINT / SIGTERM handler.
use vstd::prelude::*;
use std::sync::atomic::{AtomicBool, Ordering};

verus! {

/// Whether a stop was requested. The flag is set asynchronously by a signal
/// handler, so nothing is known of the answer in advance.
pub fn stopped(stop: &AtomicBool) -> bool {
    stop.load(Ordering::SeqCst)
}

} // verus!
