//! What is known of a flag that several threads share: which value it was
//! created with, written, or found to have. Any thread may write between two
//! reads, so a value that was read tells nothing of the next one.

use std::sync::atomic::{AtomicBool, Ordering};
use std::sync::Arc;

use vstd::prelude::*;

verus! {

/// Whether this flag is a new one with this value.
pub open spec fn created(flag: Arc<AtomicBool>, value: bool) -> bool {
    call_ensures(AtomicBool::new, (value,), *flag)
}

/// Whether this value was written to the flag, and what was done before is
/// visible to those who read it.
pub open spec fn stored(flag: Arc<AtomicBool>, value: bool) -> bool {
    call_ensures(AtomicBool::store, (&*flag, value, Ordering::Release), ())
}

/// Whether this value was found in the flag, with what was done before it was
/// written.
pub open spec fn loaded(flag: Arc<AtomicBool>, value: bool) -> bool {
    call_ensures(AtomicBool::load, (&*flag, Ordering::Acquire), value)
}

} // verus!
