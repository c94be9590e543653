//! The engine lifecycle: one slot that owns at most one running engine.
//!
//! The slot is generic over the engine handle, so that the process that backs
//! an engine stays with its owner. Every operation takes the slot by `&mut`,
//! so one exclusive borrow (or the lock that guards the slot) serializes
//! initialize, infer, benchmark and dispose.

use crate::protocol::SidecarError;
use vstd::prelude::*;

verus! {

/// Where the engine is in its life.
#[derive(Debug, Clone, Copy, PartialEq, Eq, Structural)]
pub enum Lifecycle {
    Uninitialized,
    Initializing,
    Ready,
}

/// The slot that holds the running engine, if any.
pub struct EngineSlot<H> {
    state: Lifecycle,
    handle: Option<H>,
}

impl<H> EngineSlot<H> {
    /// The lifecycle state.
    pub closed spec fn spec_state(&self) -> Lifecycle {
        self.state
    }

    /// The running engine, if any.
    pub closed spec fn spec_handle(&self) -> Option<H> {
        self.handle
    }

    /// A handle exists exactly when the state is `Ready`.
    pub open spec fn wf(&self) -> bool {
        self.spec_handle() is Some <==> self.spec_state() == Lifecycle::Ready
    }

    /// An empty slot.
    pub fn new() -> (r: Self)
        ensures
            r.wf(),
            r.spec_state() == Lifecycle::Uninitialized,
            r.spec_handle() is None,
    {
        EngineSlot { state: Lifecycle::Uninitialized, handle: None }
    }

    /// The lifecycle state.
    pub fn state(&self) -> (r: Lifecycle)
        ensures
            r == self.spec_state(),
    {
        self.state
    }

    /// Marks the start of an initialization. A running engine keeps running
    /// (and the state stays `Ready`) until its replacement is installed.
    pub fn begin_initialize(&mut self)
        requires
            old(self).wf(),
        ensures
            final(self).wf(),
            final(self).spec_handle() == old(self).spec_handle(),
            final(self).spec_state() == if old(self).spec_state() == Lifecycle::Ready {
                Lifecycle::Ready
            } else {
                Lifecycle::Initializing
            },
    {
        if self.handle.is_none() {
            self.state = Lifecycle::Initializing;
        }
    }

    /// Marks a failed initialization: a slot without an engine goes back to
    /// `Uninitialized`; a running engine is kept.
    pub fn abort_initialize(&mut self)
        requires
            old(self).wf(),
        ensures
            final(self).wf(),
            final(self).spec_handle() == old(self).spec_handle(),
            final(self).spec_state() == if old(self).spec_handle() is Some {
                Lifecycle::Ready
            } else {
                Lifecycle::Uninitialized
            },
    {
        if self.handle.is_none() {
            self.state = Lifecycle::Uninitialized;
        }
    }

    /// Installs a freshly started engine, unconditionally replacing the running
    /// one, which is handed back for shutdown.
    pub fn install(&mut self, handle: H) -> (previous: Option<H>)
        requires
            old(self).wf(),
        ensures
            final(self).wf(),
            final(self).spec_state() == Lifecycle::Ready,
            final(self).spec_handle() == Some(handle),
            previous == old(self).spec_handle(),
    {
        let previous = self.handle.take();
        self.handle = Some(handle);
        self.state = Lifecycle::Ready;
        previous
    }

    /// Empties the slot and hands back the running engine, if any, for
    /// shutdown. Emptying an empty slot does nothing.
    pub fn dispose(&mut self) -> (r: Option<H>)
        requires
            old(self).wf(),
        ensures
            dispose_post(*old(self), *final(self), r),
    {
        self.state = Lifecycle::Uninitialized;
        self.handle.take()
    }

    /// The running engine, for one protocol exchange; `EngineNotInitialized`
    /// when there is none.
    pub fn engine_mut(&mut self) -> (r: Result<&mut H, SidecarError>)
        requires
            old(self).wf(),
        ensures
            old(self).spec_handle() is None ==> (r matches Err(e) && e is EngineNotInitialized),
            old(self).spec_handle() is Some ==> r is Ok,
            r matches Ok(h) ==> *h == old(self).spec_handle()->0,
            final(self).wf(),
            final(self).spec_state() == old(self).spec_state(),
    {
        match &mut self.handle {
            Some(h) => Ok(h),
            None => Err(SidecarError::EngineNotInitialized),
        }
    }
}

/// Whether an engine is running.
pub fn is_initialized<H>(slot: &EngineSlot<H>) -> (r: bool)
    requires
        slot.wf(),
    ensures
        r == (slot.spec_handle() is Some),
        r == (slot.spec_state() == Lifecycle::Ready),
{
    slot.handle.is_some()
}

/// What `dispose` leaves behind: an empty, `Uninitialized` slot, and the engine
/// that ran before, if any.
pub open spec fn dispose_post<H>(before: EngineSlot<H>, after: EngineSlot<H>, returned: Option<H>) -> bool {
    &&& after.wf()
    &&& after.spec_state() == Lifecycle::Uninitialized
    &&& after.spec_handle() is None
    &&& returned == before.spec_handle()
}

/// Disposing twice in a row is harmless: after either call the slot is
/// `Uninitialized`, and the second call finds no engine to shut down.
pub proof fn lemma_dispose_idempotent<H>(
    s0: EngineSlot<H>,
    s1: EngineSlot<H>,
    s2: EngineSlot<H>,
    r1: Option<H>,
    r2: Option<H>,
)
    requires
        s0.wf(),
        dispose_post(s0, s1, r1),
        dispose_post(s1, s2, r2),
    ensures
        s1.spec_state() == Lifecycle::Uninitialized,
        s2.spec_state() == Lifecycle::Uninitialized,
        r2 is None,
        s2.spec_handle() is None,
{
}

} // verus!
