//! Context records: per-process/thread state, credentials, signal state,
//! the file table and the low-level save areas.
//!
//! A context is one schedulable entity. Global sharing (reference-counted
//! cells, per-field locks) is modelled by plain ownership: the context table
//! owns each record, and every operation states how it changes the record.
use vstd::prelude::*;

use crate::error::{Error, ESRCH};
use crate::CONTEXT_MAX_FILES;
use core::cmp::Ordering;

verus! {

/// Bytes of the FPU/SIMD save area.
pub const KFX_SIZE: usize = 1024;

/// Number of entries of the signal action table.
pub const SIGNAL_ACTIONS: usize = 128;

/// Signal handler word meaning "default action".
pub const SIG_DFL: u64 = 0;

/// Signal handler word meaning "ignore".
pub const SIG_IGN: u64 = 1;

/// The status of a context, used for scheduling.
#[derive(Copy, Clone, Debug, PartialEq, Eq, Structural)]
pub enum Status {
    Runnable,
    Blocked,
    Stopped(u64),
    Exited(u64),
}

/// Key of the wait-for-child completion map: an exact child, a process
/// group, or a wildcard when both are absent.
#[derive(Copy, Clone, Debug)]
pub struct WaitpidKey {
    pub pid: Option<usize>,
    pub pgid: Option<usize>,
}

/// Total order on plain integers, as a specification value.
pub open spec fn ord_of(a: usize, b: usize) -> Ordering {
    if a < b {
        Ordering::Less
    } else if a == b {
        Ordering::Equal
    } else {
        Ordering::Greater
    }
}

impl WaitpidKey {
    /// Where `self` sorts relative to `other`: exact pids first when both
    /// are present, then process groups, then whichever is more specific.
    pub open spec fn spec_cmp(self, other: WaitpidKey) -> Ordering {
        if self.pid is Some && other.pid is Some {
            ord_of(self.pid->0, other.pid->0)
        } else if self.pgid is Some && other.pgid is Some {
            ord_of(self.pgid->0, other.pgid->0)
        } else if self.pid is Some {
            Ordering::Greater
        } else if other.pid is Some {
            Ordering::Less
        } else if self.pgid is Some {
            Ordering::Greater
        } else if other.pgid is Some {
            Ordering::Less
        } else {
            Ordering::Equal
        }
    }

    pub fn cmp(&self, other: &WaitpidKey) -> (r: Ordering)
        ensures
            r == self.spec_cmp(*other),
    {
        if let (Some(s_pid), Some(o_pid)) = (self.pid, other.pid) {
            if s_pid < o_pid {
                Ordering::Less
            } else if s_pid == o_pid {
                Ordering::Equal
            } else {
                Ordering::Greater
            }
        } else if let (Some(s_pgid), Some(o_pgid)) = (self.pgid, other.pgid) {
            if s_pgid < o_pgid {
                Ordering::Less
            } else if s_pgid == o_pgid {
                Ordering::Equal
            } else {
                Ordering::Greater
            }
        } else if self.pid.is_some() {
            Ordering::Greater
        } else if other.pid.is_some() {
            Ordering::Less
        } else if self.pgid.is_some() {
            Ordering::Greater
        } else if other.pgid.is_some() {
            Ordering::Less
        } else {
            Ordering::Equal
        }
    }
}

impl PartialEq for WaitpidKey {
    fn eq(&self, other: &WaitpidKey) -> (r: bool) {
        matches!(self.cmp(other), Ordering::Equal)
    }
}

impl vstd::std_specs::cmp::PartialEqSpecImpl for WaitpidKey {
    open spec fn obeys_eq_spec() -> bool {
        true
    }

    open spec fn eq_spec(&self, other: &WaitpidKey) -> bool {
        self.spec_cmp(*other) == Ordering::Equal
    }
}

impl Eq for WaitpidKey {}

/// One signal action: handler address, mask and flags.
#[derive(Copy, Clone, Debug, PartialEq, Eq)]
pub struct SigAction {
    pub sa_handler: u64,
    pub sa_mask: (u64, u64),
    pub sa_flags: u64,
}

/// What an open file refers to: a scheme-local id under a scheme,
/// in a namespace, with open flags.
#[derive(Copy, Clone, Debug, PartialEq, Eq, Structural)]
pub struct FileDescription {
    pub namespace: usize,
    pub scheme: usize,
    pub number: u64,
    pub flags: u64,
}

/// One slot of a context's file table.
#[derive(Copy, Clone, Debug, PartialEq, Eq, Structural)]
pub struct FileDescriptor {
    pub description: FileDescription,
    pub cloexec: bool,
}

/// Architecture register snapshot of a context: where it resumes,
/// on which stack, and with which pending argument.
#[derive(Copy, Clone, Debug, PartialEq, Eq, Structural)]
pub struct ArchContext {
    pub ip: u64,
    pub sp: u64,
    pub arg: u64,
}

impl ArchContext {
    pub fn zeroed() -> (r: Self)
        ensures
            r == (ArchContext { ip: 0, sp: 0, arg: 0 }),
    {
        ArchContext { ip: 0, sp: 0, arg: 0 }
    }
}

/// A kernel stack: where it sits in the kernel's address range, and its
/// bytes. The base never moves; restores copy bytes into place.
pub struct KernelStack {
    pub base: u64,
    pub bytes: Vec<u8>,
}

/// Saved signal-entry state: registers, FPU area, kernel stack and the
/// signal number being delivered, restored verbatim on the next switch in.
pub struct KSignal {
    pub arch: ArchContext,
    pub kfx: Vec<u8>,
    pub kstack: Option<KernelStack>,
    pub signum: u8,
}

/// A context: one process or thread.
pub struct Context {
    /// Dense id of this context, allocated monotonically.
    pub id: usize,
    /// Process-group id.
    pub pgid: usize,
    /// Id of the parent context.
    pub ppid: usize,
    /// Real user id.
    pub ruid: u32,
    /// Real group id.
    pub rgid: u32,
    /// Real scheme-namespace id.
    pub rns: usize,
    /// Effective user id.
    pub euid: u32,
    /// Effective group id.
    pub egid: u32,
    /// Effective scheme-namespace id.
    pub ens: usize,
    /// Signal mask, 128 bits.
    pub sigmask: (u64, u64),
    /// Process umask.
    pub umask: u64,
    /// Scheduling status.
    pub status: Status,
    /// Why the context is blocked, for debugging.
    pub status_reason: &'static str,
    /// Currently executing on some CPU.
    pub running: bool,
    /// Owning CPU, once claimed.
    pub cpu_id: Option<usize>,
    /// Monotonic time at which this context was last switched to.
    pub switch_time: u128,
    /// Cumulative CPU time.
    pub cpu_time: u128,
    /// In-flight system call tuple.
    pub syscall: Option<(u64, u64, u64, u64, u64, u64)>,
    /// Scratch page for unaligned syscall buffer heads.
    pub syscall_head: Vec<u8>,
    /// Scratch page for unaligned syscall buffer tails.
    pub syscall_tail: Vec<u8>,
    /// Context is halting its parent.
    pub vfork: bool,
    /// Completion map a waiting parent blocks on.
    pub waitpid: Vec<(WaitpidKey, (usize, u64))>,
    /// Queue of pending signal numbers, oldest first.
    pub pending: Vec<u8>,
    /// Deadline at which a sleep expires.
    pub wake: Option<u128>,
    /// Architecture register snapshot.
    pub arch: ArchContext,
    /// FPU/SIMD save area.
    pub kfx: Vec<u8>,
    /// Kernel stack.
    pub kstack: Option<KernelStack>,
    /// Saved signal-entry state, if a signal is being delivered.
    pub ksig: Option<KSignal>,
    /// Restore the saved signal-entry state on the next switch in.
    pub ksig_restore: bool,
    /// Handle of the owned address space, if any.
    pub addr_space: Option<usize>,
    /// Name of the context.
    pub name: &'static str,
    /// Open files.
    pub files: Vec<Option<FileDescriptor>>,
    /// Signal action table with per-entry data word.
    pub actions: Vec<(SigAction, u64)>,
    /// Saved user interrupt frame: kernel stack base at capture time and
    /// the frame's address inside that stack.
    pub regs: Option<(u64, u64)>,
    /// Stopped by ptrace, independently of signals.
    pub ptrace_stop: bool,
    /// User-space signal stack base.
    pub sigstack: Option<u64>,
    /// Entry point and stack pointer a cloned context starts from.
    pub clone_entry: Option<(u64, u64)>,
}

/// A vector of `n` zero bytes.
pub fn zeroed_bytes(n: usize) -> (v: Vec<u8>)
    ensures
        v@.len() == n,
        forall|i: int| 0 <= i < n ==> v@[i] == 0u8,
{
    let mut v: Vec<u8> = Vec::new();
    let mut i: usize = 0;
    while i < n
        invariant
            i <= n,
            v@.len() == i,
            forall|j: int| 0 <= j < i ==> v@[j] == 0u8,
        decreases n - i,
    {
        v.push(0u8);
        i += 1;
    }
    v
}

/// The slot `i` can take a new file: it is past the end of the table or holds
/// nothing.
pub open spec fn slot_free(files: Seq<Option<FileDescriptor>>, i: int) -> bool {
    i >= files.len() || files[i] is None
}

/// `b` is `a` with `file` placed in slot `i`, padded with empty slots if the
/// table was shorter than `i`.
pub open spec fn table_with(
    a: Seq<Option<FileDescriptor>>,
    b: Seq<Option<FileDescriptor>>,
    i: int,
    file: FileDescriptor,
) -> bool {
    &&& b.len() == if i + 1 > a.len() {
        i + 1
    } else {
        a.len() as int
    }
    &&& b[i] == Some(file)
    &&& forall|j: int|
        0 <= j < b.len() && j != i ==> b[j] == (if j < a.len() {
            a[j]
        } else {
            None::<FileDescriptor>
        })
}

/// The file table respects its bound; constructors establish this and the
/// table operations preserve it.
pub open spec fn files_bounded(c: Context) -> bool {
    c.files@.len() <= CONTEXT_MAX_FILES
}

/// Two contexts agree on everything but the file table and the address
/// space.
pub open spec fn eq_core(a: Context, b: Context) -> bool {
    &&& a.id == b.id
    &&& a.pgid == b.pgid
    &&& a.ppid == b.ppid
    &&& a.ruid == b.ruid
    &&& a.rgid == b.rgid
    &&& a.rns == b.rns
    &&& a.euid == b.euid
    &&& a.egid == b.egid
    &&& a.ens == b.ens
    &&& a.sigmask == b.sigmask
    &&& a.umask == b.umask
    &&& a.status == b.status
    &&& a.status_reason == b.status_reason
    &&& a.running == b.running
    &&& a.cpu_id == b.cpu_id
    &&& a.switch_time == b.switch_time
    &&& a.cpu_time == b.cpu_time
    &&& a.syscall == b.syscall
    &&& a.syscall_head == b.syscall_head
    &&& a.syscall_tail == b.syscall_tail
    &&& a.vfork == b.vfork
    &&& a.waitpid == b.waitpid
    &&& a.pending == b.pending
    &&& a.wake == b.wake
    &&& a.arch == b.arch
    &&& a.kfx == b.kfx
    &&& a.kstack == b.kstack
    &&& a.ksig == b.ksig
    &&& a.ksig_restore == b.ksig_restore
    &&& a.name == b.name
    &&& a.actions == b.actions
    &&& a.ptrace_stop == b.ptrace_stop
    &&& a.sigstack == b.sigstack
    &&& a.clone_entry == b.clone_entry
}

/// Two contexts agree on everything but the file table.
pub open spec fn eq_but_files(a: Context, b: Context) -> bool {
    eq_core(a, b) && a.addr_space == b.addr_space && a.regs == b.regs
}

/// Two contexts agree on everything but the status and its reason.
pub open spec fn eq_but_status(a: Context, b: Context) -> bool {
    &&& a.id == b.id
    &&& a.pgid == b.pgid
    &&& a.ppid == b.ppid
    &&& a.ruid == b.ruid
    &&& a.rgid == b.rgid
    &&& a.rns == b.rns
    &&& a.euid == b.euid
    &&& a.egid == b.egid
    &&& a.ens == b.ens
    &&& a.sigmask == b.sigmask
    &&& a.umask == b.umask
    &&& a.running == b.running
    &&& a.cpu_id == b.cpu_id
    &&& a.switch_time == b.switch_time
    &&& a.cpu_time == b.cpu_time
    &&& a.syscall == b.syscall
    &&& a.syscall_head == b.syscall_head
    &&& a.syscall_tail == b.syscall_tail
    &&& a.vfork == b.vfork
    &&& a.waitpid == b.waitpid
    &&& a.pending == b.pending
    &&& a.wake == b.wake
    &&& a.arch == b.arch
    &&& a.kfx == b.kfx
    &&& a.kstack == b.kstack
    &&& a.ksig == b.ksig
    &&& a.ksig_restore == b.ksig_restore
    &&& a.addr_space == b.addr_space
    &&& a.name == b.name
    &&& a.files == b.files
    &&& a.actions == b.actions
    &&& a.regs == b.regs
    &&& a.ptrace_stop == b.ptrace_stop
    &&& a.sigstack == b.sigstack
    &&& a.clone_entry == b.clone_entry
}

impl Context {
    /// A fresh context: blocked, unclaimed, with empty tables, zeroed scratch
    /// pages and default signal actions.
    pub fn new(id: usize) -> (c: Context)
        ensures
            c.id == id,
            c.pgid == id,
            c.ppid == 0,
            c.ruid == 0 && c.rgid == 0 && c.rns == 0,
            c.euid == 0 && c.egid == 0 && c.ens == 0,
            c.sigmask == (0u64, 0u64),
            c.umask == 0o022,
            c.status == Status::Blocked,
            c.running == false,
            c.cpu_id is None,
            c.switch_time == 0 && c.cpu_time == 0,
            c.syscall is None,
            c.syscall_head@.len() == crate::PAGE_SIZE,
            c.syscall_tail@.len() == crate::PAGE_SIZE,
            c.vfork == false,
            c.waitpid@.len() == 0,
            c.pending@.len() == 0,
            c.wake is None,
            c.arch == (ArchContext { ip: 0, sp: 0, arg: 0 }),
            c.kfx@.len() == KFX_SIZE,
            c.kstack is None,
            c.ksig is None,
            c.ksig_restore == false,
            c.addr_space is None,
            c.files@.len() == 0,
            c.actions@.len() == SIGNAL_ACTIONS,
            forall|i: int|
                0 <= i < SIGNAL_ACTIONS ==> c.actions@[i] == (
                SigAction {
                    sa_handler: SIG_DFL,
                    sa_mask: (0u64, 0u64),
                    sa_flags: 0,
                },
                0u64,
                ),
            c.regs is None,
            c.ptrace_stop == false,
            c.sigstack is None,
            c.clone_entry is None,
    {
        Context {
            id,
            pgid: id,
            ppid: 0,
            ruid: 0,
            rgid: 0,
            rns: 0,
            euid: 0,
            egid: 0,
            ens: 0,
            sigmask: (0, 0),
            umask: 0o022,
            status: Status::Blocked,
            status_reason: "",
            running: false,
            cpu_id: None,
            switch_time: 0,
            cpu_time: 0,
            syscall: None,
            syscall_head: zeroed_bytes(crate::PAGE_SIZE as usize),
            syscall_tail: zeroed_bytes(crate::PAGE_SIZE as usize),
            vfork: false,
            waitpid: Vec::new(),
            pending: Vec::new(),
            wake: None,
            arch: ArchContext::zeroed(),
            kfx: zeroed_bytes(KFX_SIZE),
            kstack: None,
            ksig: None,
            ksig_restore: false,
            addr_space: None,
            name: "",
            files: Vec::new(),
            actions: Self::empty_actions(),
            regs: None,
            ptrace_stop: false,
            sigstack: None,
            clone_entry: None,
        }
    }

    /// A full table of default signal actions.
    pub fn empty_actions() -> (v: Vec<(SigAction, u64)>)
        ensures
            v@.len() == SIGNAL_ACTIONS,
            forall|i: int|
                0 <= i < SIGNAL_ACTIONS ==> v@[i] == (
                SigAction {
                    sa_handler: SIG_DFL,
                    sa_mask: (0u64, 0u64),
                    sa_flags: 0,
                },
                0u64,
                ),
    {
        let mut v: Vec<(SigAction, u64)> = Vec::new();
        let mut i: usize = 0;
        while i < SIGNAL_ACTIONS
            invariant
                i <= SIGNAL_ACTIONS,
                v@.len() == i,
                forall|j: int|
                    0 <= j < i ==> v@[j] == (
                    SigAction {
                        sa_handler: SIG_DFL,
                        sa_mask: (0u64, 0u64),
                        sa_flags: 0,
                    },
                    0u64,
                    ),
            decreases SIGNAL_ACTIONS - i,
        {
            v.push((
                SigAction { sa_handler: SIG_DFL, sa_mask: (0, 0), sa_flags: 0 },
                0,
            ));
            i += 1;
        }
        v
    }

    /// Block the context; report whether it was runnable before.
    pub fn block(&mut self, reason: &'static str) -> (was_runnable: bool)
        ensures
            eq_but_status(*final(self), *old(self)),
            was_runnable == (old(self).status == Status::Runnable),
            was_runnable ==> final(self).status == Status::Blocked
                && final(self).status_reason == reason,
            !was_runnable ==> *final(self) == *old(self),
    {
        if self.status == Status::Runnable {
            self.status = Status::Blocked;
            self.status_reason = reason;
            true
        } else {
            false
        }
    }

    /// Unblock the context; report whether it was blocked before, and whether
    /// a wakeup interrupt must be sent because another CPU owns it.
    pub fn unblock(&mut self, cur_cpu: usize) -> (r: (bool, bool))
        ensures
            eq_but_status(*final(self), *old(self)),
            r.0 == (old(self).status == Status::Blocked),
            r.0 ==> final(self).status == Status::Runnable
                && final(self).status_reason@.len() == 0,
            !r.0 ==> *final(self) == *old(self),
            r.1 == (r.0 && match old(self).cpu_id {
                Some(k) => k != cur_cpu,
                None => false,
            }),
    {
        if self.status == Status::Blocked {
            self.status = Status::Runnable;
            self.status_reason = "";
            proof {
                reveal_strlit("");
            }

            let ipi = match self.cpu_id {
                Some(cpu_id) => cpu_id != cur_cpu,
                None => false,
            };
            (true, ipi)
        } else {
            (false, false)
        }
    }

    /// Add a file to the lowest free slot; the slot number, or `None` if the
    /// table is saturated.
    pub fn add_file(&mut self, file: FileDescriptor) -> (r: Option<usize>)
        requires
            files_bounded(*old(self)),
        ensures
            files_bounded(*final(self)),
            eq_but_files(*final(self), *old(self)),
            match r {
                Some(k) => {
                    &&& k < CONTEXT_MAX_FILES
                    &&& slot_free(old(self).files@, k as int)
                    &&& forall|j: int| 0 <= j < k ==> !slot_free(old(self).files@, j)
                    &&& table_with(old(self).files@, final(self).files@, k as int, file)
                },
                None => {
                    &&& forall|j: int|
                        0 <= j < CONTEXT_MAX_FILES ==> !slot_free(old(self).files@, j)
                    &&& final(self).files == old(self).files
                },
            },
    {
        self.add_file_min(file, 0)
    }

    /// Add a file to the lowest free slot at or above `min`; the slot number,
    /// or `None` if no such slot exists below the table bound.
    pub fn add_file_min(&mut self, file: FileDescriptor, min: usize) -> (r: Option<usize>)
        requires
            files_bounded(*old(self)),
        ensures
            files_bounded(*final(self)),
            eq_but_files(*final(self), *old(self)),
            match r {
                Some(k) => {
                    &&& min <= k < CONTEXT_MAX_FILES
                    &&& slot_free(old(self).files@, k as int)
                    &&& forall|j: int| min <= j < k ==> !slot_free(old(self).files@, j)
                    &&& table_with(old(self).files@, final(self).files@, k as int, file)
                },
                None => {
                    &&& forall|j: int|
                        min <= j < CONTEXT_MAX_FILES ==> !slot_free(old(self).files@, j)
                    &&& final(self).files == old(self).files
                },
            },
    {
        let len = self.files.len();
        let mut i: usize = 0;
        while i < len
            invariant
                len == self.files@.len(),
                len <= CONTEXT_MAX_FILES,
                i <= len,
                *self == *old(self),
                forall|j: int| min <= j < i ==> !slot_free(self.files@, j),
            decreases len - i,
        {
            if self.files[i].is_none() && i >= min {
                self.files[i] = Some(file);
                return Some(i);
            }
            i += 1;
        }
        if len < CONTEXT_MAX_FILES {
            if len >= min {
                self.files.push(Some(file));
                Some(len)
            } else {
                self.insert_file(min, file)
            }
        } else {
            None
        }
    }

    /// The file in slot `i`, if the slot exists and is full.
    pub fn get_file(&self, i: usize) -> (r: Option<FileDescriptor>)
        ensures
            r == (if i < self.files@.len() {
                self.files@[i as int]
            } else {
                None::<FileDescriptor>
            }),
    {
        if i < self.files.len() {
            self.files[i]
        } else {
            None
        }
    }

    /// Place a file in exactly slot `i`, padding the table if it is short.
    /// `None` if the slot is occupied or past the table bound.
    pub fn insert_file(&mut self, i: usize, file: FileDescriptor) -> (r: Option<usize>)
        ensures
            eq_but_files(*final(self), *old(self)),
            i < CONTEXT_MAX_FILES && slot_free(old(self).files@, i as int) ==> {
                &&& r == Some(i)
                &&& table_with(old(self).files@, final(self).files@, i as int, file)
            },
            !(i < CONTEXT_MAX_FILES && slot_free(old(self).files@, i as int)) ==> {
                &&& r is None
                &&& final(self).files == old(self).files
            },
    {
        if i < CONTEXT_MAX_FILES {
            if i < self.files.len() {
                if self.files[i].is_none() {
                    self.files[i] = Some(file);
                    Some(i)
                } else {
                    None
                }
            } else {
                while i >= self.files.len()
                    invariant
                        eq_but_files(*self, *old(self)),
                        self.files@.len() >= old(self).files@.len(),
                        self.files@.len() <= i + 1,
                        forall|j: int|
                            0 <= j < self.files@.len() ==> self.files@[j] == (if j < old(
                                self,
                            ).files@.len() {
                                old(self).files@[j]
                            } else {
                                None::<FileDescriptor>
                            }),
                    decreases i + 1 - self.files@.len(),
                {
                    self.files.push(None);
                }
                self.files[i] = Some(file);
                Some(i)
            }
        } else {
            None
        }
    }

    /// Take the file out of slot `i`; what it held, if anything.
    pub fn remove_file(&mut self, i: usize) -> (r: Option<FileDescriptor>)
        ensures
            eq_but_files(*final(self), *old(self)),
            r == (if i < old(self).files@.len() {
                old(self).files@[i as int]
            } else {
                None::<FileDescriptor>
            }),
            i < old(self).files@.len() ==> final(self).files@ == old(self).files@.update(
                i as int,
                None::<FileDescriptor>,
            ),
            i >= old(self).files@.len() ==> final(self).files == old(self).files,
    {
        if i < self.files.len() {
            let r = self.files[i];
            self.files[i] = None;
            r
        } else {
            None
        }
    }

    /// The owned address-space handle, or `ESRCH` if the context has none
    /// (it is being reaped, or was never given one).
    pub fn addr_space(&self) -> (r: Result<usize, Error>)
        ensures
            match r {
                Ok(h) => self.addr_space == Some(h),
                Err(e) => self.addr_space is None && e.errno == ESRCH,
            },
    {
        match self.addr_space {
            Some(h) => Ok(h),
            None => Err(Error::new(ESRCH)),
        }
    }

    /// Install a new address space and hand back the old one. Reports whether
    /// the caller must make the new page table current, which is owed exactly
    /// when this context is the one running (`current_id`).
    pub fn set_addr_space(&mut self, addr_space: usize, current_id: usize) -> (r: (
        Option<usize>,
        bool,
    ))
        ensures
            final(self).addr_space == Some(addr_space),
            r.0 == old(self).addr_space,
            r.1 == (old(self).id == current_id),
            eq_core(*final(self), *old(self)),
            final(self).files == old(self).files,
            final(self).regs == old(self).regs,
    {
        let make_current = self.id == current_id;
        let prev = self.addr_space;
        self.addr_space = Some(addr_space);
        (prev, make_current)
    }
}

/// A point-in-time copy of a context's scheduling-relevant fields, with the
/// file table flattened to plain descriptions.
pub struct ContextSnapshot {
    pub id: usize,
    pub pgid: usize,
    pub ppid: usize,
    pub ruid: u32,
    pub rgid: u32,
    pub rns: usize,
    pub euid: u32,
    pub egid: u32,
    pub ens: usize,
    pub sigmask: (u64, u64),
    pub umask: u64,
    pub status: Status,
    pub status_reason: &'static str,
    pub running: bool,
    pub cpu_id: Option<usize>,
    pub cpu_time: u128,
    pub syscall: Option<(u64, u64, u64, u64, u64, u64)>,
    pub name: &'static str,
    pub files: Vec<Option<FileDescription>>,
}

impl ContextSnapshot {
    /// Copy out everything a debugger or scheduler report needs, slot by
    /// slot for the file table.
    pub fn new(context: &Context) -> (s: ContextSnapshot)
        ensures
            s.id == context.id,
            s.pgid == context.pgid,
            s.ppid == context.ppid,
            s.ruid == context.ruid,
            s.rgid == context.rgid,
            s.rns == context.rns,
            s.euid == context.euid,
            s.egid == context.egid,
            s.ens == context.ens,
            s.sigmask == context.sigmask,
            s.umask == context.umask,
            s.status == context.status,
            s.status_reason == context.status_reason,
            s.running == context.running,
            s.cpu_id == context.cpu_id,
            s.cpu_time == context.cpu_time,
            s.syscall == context.syscall,
            s.name == context.name,
            s.files@.len() == context.files@.len(),
            forall|i: int|
                0 <= i < context.files@.len() ==> s.files@[i] == (match context.files@[i] {
                    Some(d) => Some(d.description),
                    None => None::<FileDescription>,
                }),
    {
        let mut files: Vec<Option<FileDescription>> = Vec::new();
        let len = context.files.len();
        let mut i: usize = 0;
        while i < len
            invariant
                len == context.files@.len(),
                i <= len,
                files@.len() == i,
                forall|j: int|
                    0 <= j < i ==> files@[j] == (match context.files@[j] {
                        Some(d) => Some(d.description),
                        None => None::<FileDescription>,
                    }),
            decreases len - i,
        {
            let description = match &context.files[i] {
                Some(descriptor) => Some(descriptor.description),
                None => None,
            };
            files.push(description);
            i += 1;
        }

        ContextSnapshot {
            id: context.id,
            pgid: context.pgid,
            ppid: context.ppid,
            ruid: context.ruid,
            rgid: context.rgid,
            rns: context.rns,
            euid: context.euid,
            egid: context.egid,
            ens: context.ens,
            sigmask: context.sigmask,
            umask: context.umask,
            status: context.status,
            status_reason: context.status_reason,
            running: context.running,
            cpu_id: context.cpu_id,
            cpu_time: context.cpu_time,
            syscall: context.syscall,
            name: context.name,
            files,
        }
    }
}

} // verus!
