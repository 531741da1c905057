//! The instance registry: a single guarded slot holding at most one live
//! agent handle, enforcing start/stop exactly-once discipline.
//!
//! The registry is an explicit owned component; whoever owns the native
//! boundary wraps it in a mutual-exclusion lock and holds that lock only for
//! the duration of these calls, never across the blocking thread-join that
//! follows a successful [`InstanceRegistry::stop`] — the slot is already
//! empty by then, so concurrent callers fail fast with `NotStarted`.
//!
//! The handle type is whatever the surrounding runtime uses to reach its
//! worker (channel ends, a join capability); the registry only guards who
//! holds it.
use vstd::prelude::*;

use crate::codec;
use crate::codec::DecodeError;
use crate::protocol::Command;
use crate::report::BridgeError;

verus! {

/// Caller misuse of the lifecycle surface: each operation names the state
/// it found the slot in.
#[derive(Debug, PartialEq, Eq, Structural, Clone, Copy)]
pub enum LifecycleError {
    /// `start` found the slot occupied.
    AlreadyStarted,
    /// `send` found the slot empty.
    NotStarted,
    /// `stop` found the slot empty.
    AlreadyStopped,
}

/// What `start` does to the slot: it stores the handle only if the slot is
/// empty, and rejects the call otherwise, leaving the running agent
/// untouched.
pub open spec fn start_model<H>(slot: Option<H>, handle: H) -> (Option<H>, Result<
    (),
    LifecycleError,
>) {
    match slot {
        Option::None => (Some(handle), Ok(())),
        Option::Some(_) => (slot, Err(LifecycleError::AlreadyStarted)),
    }
}

/// What `stop` does to the slot: it removes and surrenders the handle if
/// one is there, and rejects the call otherwise; either way the slot is
/// empty afterwards.
pub open spec fn stop_model<H>(slot: Option<H>) -> (Option<H>, Result<H, LifecycleError>) {
    match slot {
        Option::None => (None, Err(LifecycleError::AlreadyStopped)),
        Option::Some(h) => (None, Ok(h)),
    }
}

/// What `send` finds in the slot: the handle to delegate to, or the
/// rejection.
pub open spec fn lookup_model<H>(slot: Option<H>) -> Result<H, LifecycleError> {
    match slot {
        Option::None => Err(LifecycleError::NotStarted),
        Option::Some(h) => Ok(h),
    }
}

/// The process-wide single slot: at most one live agent handle.
pub struct InstanceRegistry<H> {
    slot: Option<H>,
}

impl<H> View for InstanceRegistry<H> {
    type V = Option<H>;

    closed spec fn view(&self) -> Option<H> {
        self.slot
    }
}

impl<H> InstanceRegistry<H> {
    /// A fresh registry: the slot is empty, nothing is running.
    pub fn new() -> (r: InstanceRegistry<H>)
        ensures
            r@ is None,
    {
        InstanceRegistry { slot: None }
    }

    /// Whether an agent is currently registered.
    pub fn is_started(&self) -> (b: bool)
        ensures
            b == (self@ is Some),
    {
        match &self.slot {
            Option::Some(_) => true,
            Option::None => false,
        }
    }

    /// Stores a freshly built handle, exactly as [`start_model`] says: a
    /// second `start` without an intervening `stop` is rejected with
    /// `AlreadyStarted`, the handle it offered is handed back, and the
    /// running agent is unaffected.
    pub fn start(&mut self, handle: H) -> (r: Result<(), (H, LifecycleError)>)
        ensures
            final(self)@ == start_model(old(self)@, handle).0,
            match start_model(old(self)@, handle).1 {
                Ok(()) => r is Ok,
                Err(e) => r == Err::<(), (H, LifecycleError)>((handle, e)),
            },
    {
        if self.is_started() {
            Err((handle, LifecycleError::AlreadyStarted))
        } else {
            self.slot = Some(handle);
            Ok(())
        }
    }

    /// Removes and surrenders the handle, exactly as [`stop_model`] says.
    /// The caller signals shutdown and joins the worker through the returned
    /// handle *after* this call, so the slot is already empty while the join
    /// blocks, and `stop` with no agent running is rejected with
    /// `AlreadyStopped` and has no effect.
    pub fn stop(&mut self) -> (r: Result<H, LifecycleError>)
        ensures
            final(self)@ == stop_model(old(self)@).0,
            r == stop_model(old(self)@).1,
    {
        let slot = self.slot.take();
        match slot {
            Option::Some(h) => Ok(h),
            Option::None => Err(LifecycleError::AlreadyStopped),
        }
    }

    /// The handle `send` delegates to, exactly as [`lookup_model`] says:
    /// with no agent running the call is rejected with `NotStarted` and has
    /// no effect.
    pub fn handle(&self) -> (r: Result<&H, LifecycleError>)
        ensures
            match lookup_model(self@) {
                Ok(h) => r matches Ok(got) && *got == h,
                Err(e) => r == Err::<&H, LifecycleError>(e),
            },
    {
        match &self.slot {
            Option::Some(h) => Ok(h),
            Option::None => Err(LifecycleError::NotStarted),
        }
    }

    /// The whole synchronous part of `send`: checks that an agent is
    /// running, then decodes the host-supplied bytes.  On success the caller
    /// enqueues the command on the returned handle's command channel.
    /// Malformed bytes are reported to the caller only: the running agent
    /// never observes them and no event is produced.
    pub fn prepare_send(&self, bytes: &[u8]) -> (r: Result<(&H, Command), BridgeError>)
        ensures
            self@ is None ==> r == Err::<(&H, Command), BridgeError>(BridgeError::NotStarted),
            self@ is Some ==> match codec::parse_command(bytes@) {
                Some(cv) => r matches Ok(p) && *p.0 == self@.unwrap() && p.1@ == cv,
                None => r == Err::<(&H, Command), BridgeError>(BridgeError::MalformedCommand),
            },
    {
        match self.handle() {
            Err(_) => Err(BridgeError::NotStarted),
            Ok(h) => match codec::decode_command(bytes) {
                Ok(c) => Ok((h, c)),
                Err(DecodeError::Malformed) => Err(BridgeError::MalformedCommand),
            },
        }
    }
}

/// A second `start` without an intervening `stop` fails with
/// `AlreadyStarted` and leaves the first agent's registration unchanged.
pub proof fn lemma_start_exactly_once<H>(slot: Option<H>, handle: H)
    requires
        slot is Some,
    ensures
        start_model(slot, handle).0 == slot,
        start_model(slot, handle).1 == Err::<(), LifecycleError>(LifecycleError::AlreadyStarted),
{
}

/// With no agent started, `stop` and `send` fail — `AlreadyStopped` and
/// `NotStarted` respectively — and have no effect on the slot.
pub proof fn lemma_idle_calls_rejected<H>(slot: Option<H>)
    requires
        slot is None,
    ensures
        stop_model(slot).0 is None,
        stop_model(slot).1 == Err::<H, LifecycleError>(LifecycleError::AlreadyStopped),
        lookup_model(slot) == Err::<H, LifecycleError>(LifecycleError::NotStarted),
{
}

/// After a successful `stop` the slot is empty again, so a subsequent
/// `start` succeeds.
pub proof fn lemma_stop_frees_slot<H>(slot: Option<H>, next: H)
    requires
        slot is Some,
    ensures
        stop_model(slot).1 is Ok,
        stop_model(slot).0 is None,
        start_model(stop_model(slot).0, next).1 is Ok,
{
}

} // verus!
