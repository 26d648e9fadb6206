//! Which sink ergot's own logs go to. By default they go to the global logger;
//! when ergot itself becomes the global logger, they are silenced, so that ergot
//! does not send logs about sending logs; a sink set by hand takes over for good.
use vstd::prelude::*;

verus! {

/// The sink of ergot's own logs.
#[derive(Debug, Clone, Copy, PartialEq, Eq, Structural)]
pub enum InternalSink {
    /// The global logger.
    Global,
    /// Nothing: logs are dropped.
    Null,
    /// The sink set by hand.
    Manual,
}

/// The choice of the sink of ergot's own logs. It starts at the global logger;
/// it may go from there to null; it may go to a manual sink from either, once,
/// and then never changes again.
#[derive(Debug, Clone, Copy, PartialEq, Eq, Structural)]
pub struct StaticLogger {
    state: InternalSink,
}

impl StaticLogger {
    /// The current choice.
    pub closed spec fn spec_state(&self) -> InternalSink {
        self.state
    }

    /// The initial choice: the global logger.
    pub fn new() -> (r: Self)
        ensures
            r.spec_state() == InternalSink::Global,
    {
        StaticLogger { state: InternalSink::Global }
    }

    /// Silence ergot's own logs, unless a sink was set by hand or they are
    /// silenced already: only the global logger gives way to null.
    pub fn set_null_atomic(&mut self)
        ensures
            old(self).spec_state() == InternalSink::Global ==> final(self).spec_state() == InternalSink::Null,
            old(self).spec_state() != InternalSink::Global ==> final(self).spec_state() == old(
                self,
            ).spec_state(),
    {
        if self.state == InternalSink::Global {
            self.state = InternalSink::Null;
        }
    }

    /// As [`StaticLogger::set_null_atomic`], within a critical section.
    pub fn set_null_with_cs(&mut self)
        ensures
            old(self).spec_state() == InternalSink::Global ==> final(self).spec_state() == InternalSink::Null,
            old(self).spec_state() != InternalSink::Global ==> final(self).spec_state() == old(
                self,
            ).spec_state(),
    {
        self.set_null_atomic()
    }

    /// Take a sink set by hand, unless one was taken before: whether this one is
    /// to be stored (the caller stores it exactly then).
    pub fn set_manual_with_cs(&mut self) -> (store: bool)
        ensures
            store == (old(self).spec_state() != InternalSink::Manual),
            final(self).spec_state() == InternalSink::Manual,
    {
        if self.state == InternalSink::Manual {
            return false;
        }
        self.state = InternalSink::Manual;
        true
    }

    /// Where ergot's own logs go now.
    pub fn geil(&self) -> (r: InternalSink)
        ensures
            r == self.spec_state(),
    {
        self.state
    }
}

/// A logger that sends log records into a net stack (held as `N`).
pub struct LogSink<N> {
    e_stack: N,
}

impl<N> LogSink<N> {
    /// The net stack handle.
    pub closed spec fn spec_stack(&self) -> N {
        self.e_stack
    }

    /// A sink for the given net stack.
    pub fn new(e_stack: N) -> (r: Self)
        ensures
            r.spec_stack() == e_stack,
    {
        Self { e_stack }
    }

    /// The net stack handle.
    pub fn stack(&self) -> (r: &N)
        ensures
            *r == self.spec_stack(),
    {
        &self.e_stack
    }
}

} // verus!
