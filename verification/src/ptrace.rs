//! Ptrace sessions: per-tracee breakpoint state, event queues, and the
//! decisions taken at tracing stops.
//!
//! Each primitive is a decision function: it updates the session state
//! and tells its caller whether to sleep, whom to wake, and which
//! readable-event notice to post; the sleeping itself is the caller's.
use vstd::prelude::*;

use crate::context::{Context, KernelStack, SIG_DFL, SIG_IGN};

verus! {

/// Readable-data bit of the event flags posted to a poller.
pub const EVENT_READ: u64 = 1;

pub const PTRACE_STOP_PRE_SYSCALL: u64 = 1;
pub const PTRACE_STOP_POST_SYSCALL: u64 = 2;
pub const PTRACE_STOP_SINGLESTEP: u64 = 4;
pub const PTRACE_STOP_SIGNAL: u64 = 8;
pub const PTRACE_STOP_BREAKPOINT: u64 = 16;
pub const PTRACE_STOP_EXIT: u64 = 32;

/// One tracing event: the stop class that caused it and three data words.
#[derive(Copy, Clone, Debug, PartialEq, Eq, Structural)]
pub struct PtraceEvent {
    pub cause: u64,
    pub a: u64,
    pub b: u64,
    pub c: u64,
}

impl PtraceEvent {
    /// The default event for a stop class: the cause alone.
    pub fn from_cause(cause: u64) -> (r: PtraceEvent)
        ensures
            r == (PtraceEvent { cause, a: 0, b: 0, c: 0 }),
    {
        PtraceEvent { cause, a: 0, b: 0, c: 0 }
    }
}

/// A breakpoint armed by the tracer: which stop classes to stop on, and
/// whether the tracee has reached it.
#[derive(Copy, Clone, Debug, PartialEq, Eq, Structural)]
pub struct Breakpoint {
    pub reached: bool,
    pub flags: u64,
}

/// A readable-event notice owed to the `proc:` scheme poller; the caller
/// posts it after the state change commits.
#[derive(Copy, Clone, Debug, PartialEq, Eq, Structural)]
pub struct ProcNotice {
    pub file_id: u64,
    pub flags: u64,
}

/// The notice that a tracer polling file `file_id` has something to read.
pub fn proc_trigger_event(file_id: u64, flags: u64) -> (r: ProcNotice)
    ensures
        r == (ProcNotice { file_id, flags }),
{
    ProcNotice { file_id, flags }
}

/// Per-tracee session state guarded by the session lock.
#[derive(Debug)]
pub struct SessionData {
    pub breakpoint: Option<Breakpoint>,
    pub events: Vec<PtraceEvent>,
    pub file_id: u64,
}

impl SessionData {
    /// Queue an event. If the queue was empty, the tracer's poller must be
    /// told that there is something to read; the notice says so.
    pub fn add_event(&mut self, event: PtraceEvent) -> (notice: Option<ProcNotice>)
        ensures
            final(self).events@ == old(self).events@.push(event),
            final(self).breakpoint == old(self).breakpoint,
            final(self).file_id == old(self).file_id,
            notice == (if old(self).events@.len() == 0 {
                Some(ProcNotice { file_id: old(self).file_id, flags: EVENT_READ })
            } else {
                None::<ProcNotice>
            }),
    {
        self.events.push(event);
        if self.events.len() == 1 {
            Some(proc_trigger_event(self.file_id, EVENT_READ))
        } else {
            None
        }
    }

    /// Arm a fresh, unreached breakpoint on the given stop classes, or clear
    /// the breakpoint with `None`.
    pub fn set_breakpoint(&mut self, flags: Option<u64>)
        ensures
            final(self).breakpoint == (match flags {
                Some(f) => Some(Breakpoint { reached: false, flags: f }),
                None => None::<Breakpoint>,
            }),
            final(self).events == old(self).events,
            final(self).file_id == old(self).file_id,
    {
        self.breakpoint = match flags {
            Some(f) => Some(Breakpoint { reached: false, flags: f }),
            None => None,
        };
    }

    /// Whether the armed breakpoint has been reached; false when none is
    /// armed.
    pub fn is_reached(&self) -> (r: bool)
        ensures
            r == (match self.breakpoint {
                Some(b) => b.reached,
                None => false,
            }),
    {
        match self.breakpoint {
            Some(b) => b.reached,
            None => false,
        }
    }

    /// The event flags a poller of this session sees: readable exactly when
    /// events are queued.
    pub fn session_fevent_flags(&self) -> (r: u64)
        ensures
            r == (if self.events@.len() > 0 {
                EVENT_READ
            } else {
                0u64
            }),
    {
        if self.events.len() > 0 {
            EVENT_READ
        } else {
            0
        }
    }

    /// Drain up to `max` events from the front of the queue, oldest first.
    pub fn recv_events(&mut self, max: usize) -> (out: Vec<PtraceEvent>)
        ensures
            out@.len() == vstd::math::min(max as int, old(self).events@.len() as int),
            out@ == old(self).events@.subrange(0, out@.len() as int),
            final(self).events@ == old(self).events@.subrange(
                out@.len() as int,
                old(self).events@.len() as int,
            ),
            final(self).breakpoint == old(self).breakpoint,
            final(self).file_id == old(self).file_id,
    {
        let n = if max < self.events.len() {
            max
        } else {
            self.events.len()
        };
        let mut out: Vec<PtraceEvent> = Vec::new();
        let mut i: usize = 0;
        while i < n
            invariant
                n <= self.events@.len(),
                i <= n,
                *self == *old(self),
                out@ == self.events@.subrange(0, i as int),
            decreases n - i,
        {
            out.push(self.events[i]);
            proof {
                assert(out@ =~= self.events@.subrange(0, i + 1));
            }
            i += 1;
        }
        let mut k: usize = 0;
        while k < n
            invariant
                k <= n,
                n <= old(self).events@.len(),
                self.events@ == old(self).events@.subrange(
                    k as int,
                    old(self).events@.len() as int,
                ),
                self.breakpoint == old(self).breakpoint,
                self.file_id == old(self).file_id,
            decreases n - k,
        {
            self.events.remove(0);
            proof {
                assert(self.events@ =~= old(self).events@.subrange(
                    k + 1,
                    old(self).events@.len() as int,
                ));
            }
            k += 1;
        }
        out
    }
}

/// A tracing session. The two condition variables both sides sleep on
/// (tracer and tracee) live with the caller that runs the sleeps; the
/// session keeps the state both sides decide on.
pub struct Session {
    pub data: SessionData,
}

/// All open tracing sessions, keyed by tracee context id.
pub struct Sessions {
    pub inner: Vec<(usize, Session)>,
}

/// Session keys are unique, so a lookup is unambiguous.
pub open spec fn sessions_wf(s: Seq<(usize, Session)>) -> bool {
    forall|i: int, j: int| 0 <= i < j < s.len() ==> s[i].0 != s[j].0
}

/// Some session is attached to `pid`.
pub open spec fn has_session(s: Seq<(usize, Session)>, pid: usize) -> bool {
    exists|i: int| 0 <= i < s.len() && s[i].0 == pid
}

/// The position of the session attached to `pid`.
pub open spec fn session_index(s: Seq<(usize, Session)>, pid: usize) -> int {
    choose|i: int| 0 <= i < s.len() && s[i].0 == pid
}

/// The state of the session attached to `pid`.
pub open spec fn session_data(s: Seq<(usize, Session)>, pid: usize) -> SessionData {
    s[session_index(s, pid)].1.data
}

/// The tracee must stop for `match_flags` here: a breakpoint is armed and
/// asks for every one of the classes in `match_flags`.
pub open spec fn stops_at(s: Seq<(usize, Session)>, pid: usize, match_flags: u64) -> bool {
    &&& has_session(s, pid)
    &&& match session_data(s, pid).breakpoint {
        Some(b) => b.flags & match_flags == match_flags,
        None => false,
    }
}

impl Sessions {
    pub fn new() -> (r: Sessions)
        ensures
            r.inner@.len() == 0,
    {
        Sessions { inner: Vec::new() }
    }

    /// Find the position of the session attached to `pid`.
    fn find(&self, pid: usize) -> (r: Option<usize>)
        requires
            sessions_wf(self.inner@),
        ensures
            match r {
                Some(i) => i < self.inner@.len() && self.inner@[i as int].0 == pid
                    && i == session_index(self.inner@, pid),
                None => !has_session(self.inner@, pid),
            },
    {
        let mut i: usize = 0;
        let len = self.inner.len();
        while i < len
            invariant
                sessions_wf(self.inner@),
                len == self.inner@.len(),
                i <= len,
                forall|j: int| 0 <= j < i ==> self.inner@[j].0 != pid,
            decreases len - i,
        {
            if self.inner[i].0 == pid {
                proof {
                    assert(has_session(self.inner@, pid)) by {
                        assert(self.inner@[i as int].0 == pid);
                    }
                    let j = session_index(self.inner@, pid);
                    if j < i as int {
                        assert(self.inner@[j].0 != self.inner@[i as int].0);
                    } else if j > i as int {
                        assert(self.inner@[i as int].0 != self.inner@[j].0);
                    }
                }
                return Some(i);
            }
            i += 1;
        }
        None
    }

    /// Attach a new session to `pid` with a fresh state, unless one exists.
    /// Reports whether the attach happened.
    pub fn try_new_session(&mut self, pid: usize, file_id: u64) -> (r: bool)
        requires
            sessions_wf(old(self).inner@),
        ensures
            sessions_wf(final(self).inner@),
            r == !has_session(old(self).inner@, pid),
            r ==> {
                let t = final(self).inner@[old(self).inner@.len() as int];
                &&& final(self).inner@.len() == old(self).inner@.len() + 1
                &&& final(self).inner@.subrange(0, old(self).inner@.len() as int) == old(
                    self,
                ).inner@
                &&& t.0 == pid
                &&& t.1.data.breakpoint is None
                &&& t.1.data.events@.len() == 0
                &&& t.1.data.file_id == file_id
            },
            !r ==> *final(self) == *old(self),
            has_session(final(self).inner@, pid),
    {
        match self.find(pid) {
            Some(_) => false,
            None => {
                let data = SessionData { breakpoint: None, events: Vec::new(), file_id };
                self.inner.push((pid, Session { data }));
                proof {
                    assert forall|i: int, j: int|
                        0 <= i < j < self.inner@.len() implies self.inner@[i].0
                        != self.inner@[j].0 by {
                        if j < self.inner@.len() - 1 {
                            assert(self.inner@[i] == old(self).inner@[i]);
                            assert(self.inner@[j] == old(self).inner@[j]);
                        } else {
                            assert(self.inner@[i] == old(self).inner@[i]);
                        }
                    }
                }
                true
            },
        }
    }

    /// Detach the session of `pid`, if any; both sides of it must then be
    /// woken by the caller. Reports whether one existed.
    pub fn close_session(&mut self, pid: usize) -> (r: bool)
        requires
            sessions_wf(old(self).inner@),
        ensures
            sessions_wf(final(self).inner@),
            r == has_session(old(self).inner@, pid),
            !has_session(final(self).inner@, pid),
            r ==> final(self).inner@ == old(self).inner@.remove(
                session_index(old(self).inner@, pid),
            ),
            !r ==> *final(self) == *old(self),
    {
        match self.find(pid) {
            Some(i) => {
                self.inner.remove(i);
                proof {
                    let s = old(self).inner@;
                    assert forall|k: int| 0 <= k < self.inner@.len() implies self.inner@[k].0
                        != pid by {
                        if k < i {
                            assert(self.inner@[k] == s[k]);
                        } else {
                            assert(self.inner@[k] == s[k + 1]);
                        }
                    }
                }
                true
            },
            None => false,
        }
    }

    /// Wake the tracer because the tracee is dying, and post a readable
    /// notice to its poller; the session itself stays for final pickup.
    pub fn close_tracee(&self, pid: usize) -> (r: Option<ProcNotice>)
        requires
            sessions_wf(self.inner@),
        ensures
            r == (if has_session(self.inner@, pid) {
                Some(
                    ProcNotice {
                        file_id: session_data(self.inner@, pid).file_id,
                        flags: EVENT_READ,
                    },
                )
            } else {
                None::<ProcNotice>
            }),
    {
        match self.find(pid) {
            Some(i) => {
                let file_id = self.inner[i].1.data.file_id;
                Some(proc_trigger_event(file_id, EVENT_READ))
            },
            None => None,
        }
    }

    /// Whether a session is attached to `pid`.
    pub fn is_traced(&self, pid: usize) -> (r: bool)
        requires
            sessions_wf(self.inner@),
        ensures
            r == has_session(self.inner@, pid),
    {
        self.find(pid).is_some()
    }

    /// Work against the session attached to `pid`: the session state is
    /// handed back for the caller to read under its lock, and `ENODEV`
    /// names a process nobody traces.
    pub fn with_session(&self, pid: usize) -> (r: Result<&SessionData, crate::error::Error>)
        requires
            sessions_wf(self.inner@),
        ensures
            match r {
                Ok(d) => has_session(self.inner@, pid) && *d == session_data(self.inner@, pid),
                Err(e) => !has_session(self.inner@, pid) && e.errno == crate::error::ENODEV,
            },
    {
        match self.find(pid) {
            Some(i) => Ok(&self.inner[i].1.data),
            None => Err(crate::error::Error::new(crate::error::ENODEV)),
        }
    }

    /// Queue `event` for the tracer of the context `pid`, provided a session
    /// with a breakpoint covering the event's cause exists. Reports whether
    /// the event was sent (the tracer must then be woken) and any readable
    /// notice owed to its poller.
    pub fn send_event(&mut self, pid: usize, event: PtraceEvent) -> (r: (
        bool,
        Option<ProcNotice>,
    ))
        requires
            sessions_wf(old(self).inner@),
        ensures
            sessions_wf(final(self).inner@),
            r.0 == stops_at(old(self).inner@, pid, event.cause),
            !r.0 ==> *final(self) == *old(self) && r.1 is None,
            r.0 ==> {
                let i = session_index(old(self).inner@, pid);
                let d = old(self).inner@[i].1.data;
                &&& final(self).inner@.len() == old(self).inner@.len()
                &&& final(self).inner@[i].0 == pid
                &&& final(self).inner@[i].1.data.breakpoint == d.breakpoint
                &&& final(self).inner@[i].1.data.events@ == d.events@.push(event)
                &&& final(self).inner@[i].1.data.file_id == d.file_id
                &&& forall|j: int|
                    0 <= j < old(self).inner@.len() && j != i ==> final(self).inner@[j] == old(
                        self,
                    ).inner@[j]
                &&& r.1 == (if d.events@.len() == 0 {
                    Some(ProcNotice { file_id: d.file_id, flags: EVENT_READ })
                } else {
                    None::<ProcNotice>
                })
            },
    {
        let i = match self.find(pid) {
            Some(i) => i,
            None => {
                return (false, None);
            },
        };
        let covered = match self.inner[i].1.data.breakpoint {
            Some(b) => b.flags & event.cause == event.cause,
            None => false,
        };
        if !covered {
            return (false, None);
        }
        let entry = &mut self.inner[i];
        let notice = entry.1.data.add_event(event);
        proof {
            assert forall|a: int, b: int|
                0 <= a < b < self.inner@.len() implies self.inner@[a].0
                != self.inner@[b].0 by {
                assert(self.inner@[a].0 == old(self).inner@[a].0);
                assert(self.inner@[b].0 == old(self).inner@[b].0);
            }
        }
        (true, notice)
    }

    /// Whether the tracer's `wait` may return now: there is no session, a
    /// breakpoint is reached, or an event is queued. Otherwise the tracer
    /// must sleep and retry once woken.
    pub fn wait(&self, pid: usize) -> (done: bool)
        requires
            sessions_wf(self.inner@),
        ensures
            done == (!has_session(self.inner@, pid) || match session_data(
                self.inner@,
                pid,
            ).breakpoint {
                Some(b) => b.reached,
                None => false,
            } || session_data(self.inner@, pid).events@.len() > 0),
    {
        match self.find(pid) {
            Some(i) => {
                let data = &self.inner[i].1.data;
                let reached = match data.breakpoint {
                    Some(b) => b.reached,
                    None => false,
                };
                reached || data.events.len() > 0
            },
            None => true,
        }
    }

    /// The tracee reaches a well-known stop point of classes `match_flags`.
    /// If a breakpoint armed by the tracer covers all of them, the stop
    /// commits: it is marked reached, the event (or the default one for
    /// `match_flags`) is queued, and the armed flag set is returned — the
    /// caller wakes the tracer, sleeps the tracee, and hands those flags
    /// back to it on resume. Otherwise the tracee passes by unstopped.
    pub fn breakpoint_callback(
        &mut self,
        pid: usize,
        match_flags: u64,
        event: Option<PtraceEvent>,
    ) -> (r: (Option<u64>, Option<ProcNotice>))
        requires
            sessions_wf(old(self).inner@),
        ensures
            sessions_wf(final(self).inner@),
            r.0 is Some == stops_at(old(self).inner@, pid, match_flags),
            !stops_at(old(self).inner@, pid, match_flags) ==> *final(self) == *old(self)
                && r.1 is None,
            stops_at(old(self).inner@, pid, match_flags) ==> {
                let i = session_index(old(self).inner@, pid);
                let d = old(self).inner@[i].1.data;
                let queued = match event {
                    Some(e) => e,
                    None => PtraceEvent { cause: match_flags, a: 0, b: 0, c: 0 },
                };
                &&& r.0 == Some(d.breakpoint->0.flags)
                &&& final(self).inner@.len() == old(self).inner@.len()
                &&& final(self).inner@[i].0 == pid
                &&& final(self).inner@[i].1.data.breakpoint == Some(
                    Breakpoint { reached: true, flags: d.breakpoint->0.flags },
                )
                &&& final(self).inner@[i].1.data.events@ == d.events@.push(queued)
                &&& final(self).inner@[i].1.data.file_id == d.file_id
                &&& forall|j: int|
                    0 <= j < old(self).inner@.len() && j != i ==> final(self).inner@[j] == old(
                        self,
                    ).inner@[j]
                &&& r.1 == (if d.events@.len() == 0 {
                    Some(ProcNotice { file_id: d.file_id, flags: EVENT_READ })
                } else {
                    None::<ProcNotice>
                })
            },
    {
        let i = match self.find(pid) {
            Some(i) => i,
            None => {
                return (None, None);
            },
        };
        let flags = match self.inner[i].1.data.breakpoint {
            Some(b) => {
                if b.flags & match_flags != match_flags {
                    return (None, None);
                }
                b.flags
            },
            None => {
                return (None, None);
            },
        };
        let entry = &mut self.inner[i];
        entry.1.data.breakpoint = Some(Breakpoint { reached: true, flags });
        let queued = match event {
            Some(e) => e,
            None => PtraceEvent::from_cause(match_flags),
        };
        let notice = entry.1.data.add_event(queued);
        proof {
            assert forall|a: int, b: int|
                0 <= a < b < self.inner@.len() implies self.inner@[a].0
                != self.inner@[b].0 by {
                assert(self.inner@[a].0 == old(self).inner@[a].0);
                assert(self.inner@[b].0 == old(self).inner@[b].0);
            }
        }
        (Some(flags), notice)
    }

    /// The flags of the breakpoint currently armed for `pid`, if any: how a
    /// stopped tracee learns whether the tracer chose syscall emulation.
    pub fn next_breakpoint(&self, pid: usize) -> (r: Option<u64>)
        requires
            sessions_wf(self.inner@),
        ensures
            r == (if has_session(self.inner@, pid) {
                match session_data(self.inner@, pid).breakpoint {
                    Some(b) => Some(b.flags),
                    None => None::<u64>,
                }
            } else {
                None::<u64>
            }),
    {
        match self.find(pid) {
            Some(i) => {
                match self.inner[i].1.data.breakpoint {
                    Some(b) => Some(b.flags),
                    None => None,
                }
            },
            None => None,
        }
    }
}

/// Marker for the scope during which a context's saved user registers are
/// published. `clear_process_regs` ends the scope, and every
/// kernel-to-user exit path owes a call to it.
pub struct ProcessRegsGuard;

/// Publish the location of the user interrupt frame of `context`: the frame
/// sits at `pointer` inside the context's kernel stack. Fails without a
/// kernel stack.
pub fn set_process_regs(context: &mut Context, pointer: u64) -> (r: Option<ProcessRegsGuard>)
    ensures
        crate::context::eq_core(*final(context), *old(context)),
        final(context).files == old(context).files,
        final(context).addr_space == old(context).addr_space,
        match old(context).kstack {
            Some(stack) => final(context).regs == Some((stack.base, pointer)) && r is Some,
            None => *final(context) == *old(context) && r is None,
        },
{
    let base = match &context.kstack {
        Some(stack) => stack.base,
        None => {
            return None;
        },
    };
    context.regs = Some((base, pointer));
    Some(ProcessRegsGuard)
}

/// Unpublish the interrupt-frame location; the scope of `set_process_regs`
/// ends here on every exit path.
pub fn clear_process_regs(context: &mut Context)
    ensures
        crate::context::eq_core(*final(context), *old(context)),
        final(context).files == old(context).files,
        final(context).addr_space == old(context).addr_space,
        final(context).regs is None,
{
    context.regs = None;
}

/// The frame pointer `regs`, relocated from the stack it was captured on to
/// the stack `kstack`, keeping the offset inside the stack.
pub fn rebase_regs_ptr(regs: Option<(u64, u64)>, kstack: Option<&KernelStack>) -> (r: Option<
    u64,
>)
    requires
        match (regs, kstack) {
            (Some((old_base, ptr)), Some(stack)) => old_base <= ptr && ptr - old_base
                + stack.base <= u64::MAX,
            _ => true,
        },
    ensures
        r == (match (regs, kstack) {
            (Some((old_base, ptr)), Some(stack)) => Some((ptr - old_base + stack.base) as u64),
            _ => None::<u64>,
        }),
{
    let (old_base, ptr) = match regs {
        Some(t) => t,
        None => {
            return None;
        },
    };
    let new_base = match kstack {
        Some(stack) => stack.base,
        None => {
            return None;
        },
    };
    Some(ptr - old_base + new_base)
}

/// Rebasing keeps the frame's relative offset: the pointer sits as far
/// into the new stack as it sat into the one it was captured on, so a
/// frame strictly inside one stack's byte range stays strictly inside an
/// equally sized one.
pub proof fn lemma_rebase_keeps_offset(old_base: u64, ptr: u64, new_stack: KernelStack)
    requires
        old_base <= ptr,
        ptr - old_base + new_stack.base <= u64::MAX,
    ensures
        ((ptr - old_base + new_stack.base) as u64) - new_stack.base == ptr - old_base,
{
}

/// A signal handler the user installed, as opposed to the kernel's default
/// or ignore dispositions.
pub fn is_user_handled(handler: u64) -> (r: bool)
    ensures
        r == (handler != SIG_DFL && handler != SIG_IGN),
{
    handler != SIG_DFL && handler != SIG_IGN
}

/// Where the user registers of `context` live: inside the signal backup
/// stack when a kernel-handled signal is in flight (the backup is what the
/// next restore reinstates), otherwise at the published frame pointer.
pub open spec fn spec_regs_for(context: Context) -> Option<u64> {
    match context.ksig {
        Some(k) => {
            let handler = context.actions@[k.signum as int].0.sa_handler;
            if handler != SIG_DFL && handler != SIG_IGN {
                match context.regs {
                    Some(t) => Some(t.1),
                    None => None,
                }
            } else {
                match (context.regs, k.kstack) {
                    (Some((old_base, ptr)), Some(stack)) => Some(
                        (ptr - old_base + stack.base) as u64,
                    ),
                    _ => None,
                }
            }
        },
        None => match context.regs {
            Some(t) => Some(t.1),
            None => None,
        },
    }
}

/// The address of the interrupt frame a tracer must read for `context`,
/// honouring an in-flight signal delivery. See `spec_regs_for`.
pub fn regs_for(context: &Context) -> (r: Option<u64>)
    requires
        match context.ksig {
            Some(k) => k.signum < context.actions@.len() && match (context.regs, k.kstack) {
                (Some((old_base, ptr)), Some(stack)) => old_base <= ptr && ptr - old_base
                    + stack.base <= u64::MAX,
                _ => true,
            },
            None => true,
        },
    ensures
        r == spec_regs_for(*context),
{
    match &context.ksig {
        Some(k) => {
            let handler = context.actions[k.signum as usize].0.sa_handler;
            if is_user_handled(handler) {
                match context.regs {
                    Some(t) => Some(t.1),
                    None => None,
                }
            } else {
                rebase_regs_ptr(context.regs, k.kstack.as_ref())
            }
        },
        None => match context.regs {
            Some(t) => Some(t.1),
            None => None,
        },
    }
}

/// Writable twin of `regs_for`: the same address, chosen by the same rule.
pub fn regs_for_mut(context: &mut Context) -> (r: Option<u64>)
    requires
        match old(context).ksig {
            Some(k) => k.signum < old(context).actions@.len() && match (
                old(context).regs,
                k.kstack,
            ) {
                (Some((old_base, ptr)), Some(stack)) => old_base <= ptr && ptr - old_base
                    + stack.base <= u64::MAX,
                _ => true,
            },
            None => true,
        },
    ensures
        *final(context) == *old(context),
        r == spec_regs_for(*old(context)),
{
    match &context.ksig {
        Some(k) => {
            let handler = context.actions[k.signum as usize].0.sa_handler;
            if is_user_handled(handler) {
                match context.regs {
                    Some(t) => Some(t.1),
                    None => None,
                }
            } else {
                rebase_regs_ptr(context.regs, k.kstack.as_ref())
            }
        },
        None => match context.regs {
            Some(t) => Some(t.1),
            None => None,
        },
    }
}

} // verus!
