//! Controls shared by the tray, the local IPC server and the camera owner.

use std::sync::atomic::{AtomicBool, AtomicU64, Ordering};
use std::sync::Arc;

use vstd::prelude::*;

use crate::flag;

verus! {

/// Thread-safe controls of one camera attempt.
///
/// The camera loop deliberately polls atomics instead of receiving commands on
/// a blocking channel: an IPC thread can request shutdown even while the SDK is
/// in a bounded frame wait or an automatic-exposure settling pass. Any thread may
/// write between two reads, so contracts say what is written and what a read
/// found; what follows from a value is decided by functions that take a
/// [`ControlState`].
#[derive(Debug)]
pub struct AgentControl {
    pub shutdown: Arc<AtomicBool>,
    pub paused: Arc<AtomicBool>,
    pub capture_generation: Arc<AtomicU64>,
}

/// What was read from the controls at one moment.
#[derive(Clone, Copy, Debug, PartialEq, Eq, Structural)]
pub struct ControlState {
    pub shutdown: bool,
    pub paused: bool,
    pub capture_generation: u64,
}

/// Whether this is a new counter with this value.
pub open spec fn counter_created(counter: Arc<AtomicU64>, value: u64) -> bool {
    call_ensures(AtomicU64::new, (value,), *counter)
}

/// Whether one was added to the counter, which had this value.
pub open spec fn counted(counter: Arc<AtomicU64>, before: u64) -> bool {
    call_ensures(AtomicU64::fetch_add, (&*counter, 1, Ordering::AcqRel), before)
}

/// Whether this value was found in the counter.
pub open spec fn count_loaded(counter: Arc<AtomicU64>, value: u64) -> bool {
    call_ensures(AtomicU64::load, (&*counter, Ordering::Acquire), value)
}

impl Clone for AgentControl {
    /// A clone shares the controls: it holds the same atomics.
    fn clone(&self) -> (r: Self)
        ensures
            r == *self,
    {
        AgentControl {
            shutdown: self.shutdown.clone(),
            paused: self.paused.clone(),
            capture_generation: self.capture_generation.clone(),
        }
    }
}

impl Default for AgentControl {
    fn default() -> (r: Self)
        ensures
            r.asks_for_nothing(),
    {
        AgentControl::new()
    }
}

impl AgentControl {
    /// Whether these controls are new: running, not paused, no still requested.
    pub open spec fn asks_for_nothing(self) -> bool {
        &&& flag::created(self.shutdown, false)
        &&& flag::created(self.paused, false)
        &&& counter_created(self.capture_generation, 0)
    }

    /// Controls that ask for nothing: running, not paused, no still requested.
    pub fn new() -> (r: Self)
        ensures
            r.asks_for_nothing(),
    {
        AgentControl {
            shutdown: Arc::new(AtomicBool::new(false)),
            paused: Arc::new(AtomicBool::new(false)),
            capture_generation: Arc::new(AtomicU64::new(0)),
        }
    }

    pub fn pause(&self)
        ensures
            flag::stored(self.paused, true),
    {
        self.paused.store(true, Ordering::Release);
    }

    pub fn resume(&self)
        ensures
            flag::stored(self.paused, false),
    {
        self.paused.store(false, Ordering::Release);
    }

    pub fn is_paused(&self) -> (r: bool)
        ensures
            flag::loaded(self.paused, r),
    {
        self.paused.load(Ordering::Acquire)
    }

    /// Queue one still from the next available frame, including while paused.
    pub fn capture_now(&self)
        ensures
            exists|before: u64| counted(self.capture_generation, before),
    {
        let before: u64 = self.capture_generation.fetch_add(1, Ordering::AcqRel);
        assert(counted(self.capture_generation, before));
    }

    pub fn shutdown(&self)
        ensures
            flag::stored(self.shutdown, true),
    {
        self.shutdown.store(true, Ordering::Release);
    }

    pub fn is_shutdown(&self) -> (r: bool)
        ensures
            flag::loaded(self.shutdown, r),
    {
        self.shutdown.load(Ordering::Acquire)
    }

    /// How many stills were requested, modulo two to the sixty-fourth.
    pub fn capture_generation(&self) -> (r: u64)
        ensures
            count_loaded(self.capture_generation, r),
    {
        self.capture_generation.load(Ordering::Acquire)
    }

    /// Read every control once.
    pub fn state(&self) -> (r: ControlState)
        ensures
            flag::loaded(self.shutdown, r.shutdown),
            flag::loaded(self.paused, r.paused),
            count_loaded(self.capture_generation, r.capture_generation),
    {
        ControlState {
            shutdown: self.is_shutdown(),
            paused: self.is_paused(),
            capture_generation: self.capture_generation(),
        }
    }
}

/// Each control writes its own flag and no other: pausing and resuming the pause, and a
/// shutdown the shutdown; and a request for a still is counted.
pub proof fn law_controls_write_their_own_flags(control: &AgentControl)
    ensures
        call_ensures(AgentControl::pause, (control,), ()) ==> flag::stored(control.paused, true),
        call_ensures(AgentControl::resume, (control,), ()) ==> flag::stored(control.paused, false),
        call_ensures(AgentControl::shutdown, (control,), ()) ==> flag::stored(
            control.shutdown,
            true,
        ),
        call_ensures(AgentControl::capture_now, (control,), ()) ==> exists|before: u64|
            counted(control.capture_generation, before),
{
}

/// What is read of a control was found in its own flag.
pub proof fn law_controls_are_read_from_their_own_flags(
    control: &AgentControl,
    paused: bool,
    stopped: bool,
    requested: u64,
    state: ControlState,
)
    requires
        call_ensures(AgentControl::is_paused, (control,), paused),
        call_ensures(AgentControl::is_shutdown, (control,), stopped),
        call_ensures(AgentControl::capture_generation, (control,), requested),
        call_ensures(AgentControl::state, (control,), state),
    ensures
        flag::loaded(control.paused, paused),
        flag::loaded(control.shutdown, stopped),
        count_loaded(control.capture_generation, requested),
        flag::loaded(control.shutdown, state.shutdown),
        flag::loaded(control.paused, state.paused),
        count_loaded(control.capture_generation, state.capture_generation),
{
}

} // verus!
