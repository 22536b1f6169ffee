//! The scheduler: pick the next runnable context owned by this CPU, in
//! strict round-robin order, and do all the bookkeeping of the switch.
//!
//! The low-level register swap, the cross-stack lock release and the
//! busy-waited global switch flag stay with the caller; `switch` makes
//! every decision and state change and tells the caller whom to swap to.
use vstd::prelude::*;

use crate::context::{ArchContext, Context, KSignal, KernelStack, Status};

verus! {

/// Where a freshly delivered signal makes the context resume: the kernel's
/// signal-handler trampoline.
pub const SIGNAL_HANDLER_ENTRY: u64 = 0xFFFF_8000_0000_1000;

/// All contexts, in ascending id order, and the id of the context each CPU
/// is currently executing.
pub struct ContextList {
    pub contexts: Vec<Context>,
    pub current: Vec<usize>,
    /// Next context id to hand out; ids grow monotonically and are never
    /// reused while an entry holds them.
    pub next_id: usize,
}

/// Every registered id is below the allocation counter: a fresh id is
/// fresh.
pub open spec fn ids_below(l: ContextList) -> bool {
    forall|i: int| 0 <= i < l.contexts@.len() ==> (#[trigger] l.contexts@[i]).id < l.next_id
}

/// Ids are strictly ascending: the list is the id-ordered registry.
pub open spec fn ids_sorted(s: Seq<Context>) -> bool {
    forall|i: int, j: int| 0 <= i < j < s.len() ==> s[i].id < s[j].id
}

/// No CPU sees two of its contexts running at once.
pub open spec fn running_exclusive(s: Seq<Context>) -> bool {
    forall|i: int, j: int|
        0 <= i < j < s.len() && (#[trigger] s[i]).running && (#[trigger] s[j]).running
            ==> s[i].cpu_id != s[j].cpu_id
}

/// A context whose signal state asks for a restore has everything the
/// restore needs: the saved state exists and the stacks and FPU areas agree
/// in size, so the copy puts every byte back.
pub open spec fn restore_wf(c: Context) -> bool {
    c.ksig_restore ==> match (c.ksig, c.kstack) {
        (Some(k), Some(st)) => match k.kstack {
            Some(saved) => saved.bytes@.len() == st.bytes@.len() && k.kfx@.len() == c.kfx@.len(),
            None => false,
        },
        _ => false,
    }
}

/// The saved signal state must be reinstated now: the context asked for it
/// and is not on a CPU, so its stack can be overwritten safely.
pub open spec fn restore_applies(c: Context) -> bool {
    c.ksig_restore && !c.running
}

/// The context's sleep deadline has passed.
pub open spec fn wake_due(c: Context, now: u128) -> bool {
    match c.wake {
        Some(w) => now >= w,
        None => false,
    }
}

/// The update pass unblocks this context: a restore lands, a signal is
/// pending, or its sleep expired.
pub open spec fn becomes_runnable(c: Context, now: u128) -> bool {
    c.status == Status::Blocked && (restore_applies(c) || c.pending@.len() > 0 || wake_due(
        c,
        now,
    ))
}

/// The sleep deadline is consumed: the context stayed blocked past the
/// restore and pending-signal checks and its deadline alone woke it.
pub open spec fn wake_cleared(c: Context, now: u128) -> bool {
    c.status == Status::Blocked && !restore_applies(c) && c.pending@.len() == 0 && wake_due(
        c,
        now,
    )
}

pub open spec fn upd_status(c: Context, now: u128) -> Status {
    if becomes_runnable(c, now) {
        Status::Runnable
    } else {
        c.status
    }
}

pub open spec fn upd_wake(c: Context, now: u128) -> Option<u128> {
    if wake_cleared(c, now) {
        None
    } else {
        c.wake
    }
}

pub open spec fn upd_cpu_id(c: Context, cpu: usize) -> Option<usize> {
    if c.cpu_id is None {
        Some(cpu)
    } else {
        c.cpu_id
    }
}

/// Fields neither the update pass nor the switch bookkeeping ever
/// touches: identity, credentials, tables and tracing markers all stand
/// still across a switch.
pub open spec fn sched_inert_eq(o: Context, n: Context) -> bool {
    &&& n.id == o.id
    &&& n.pgid == o.pgid
    &&& n.ppid == o.ppid
    &&& n.ruid == o.ruid
    &&& n.rgid == o.rgid
    &&& n.rns == o.rns
    &&& n.euid == o.euid
    &&& n.egid == o.egid
    &&& n.ens == o.ens
    &&& n.sigmask == o.sigmask
    &&& n.umask == o.umask
    &&& n.syscall == o.syscall
    &&& n.syscall_head == o.syscall_head
    &&& n.syscall_tail == o.syscall_tail
    &&& n.vfork == o.vfork
    &&& n.waitpid == o.waitpid
    &&& n.addr_space == o.addr_space
    &&& n.name == o.name
    &&& n.files == o.files
    &&& n.actions == o.actions
    &&& n.regs == o.regs
    &&& n.ptrace_stop == o.ptrace_stop
    &&& n.sigstack == o.sigstack
    &&& n.clone_entry == o.clone_entry
}

/// The registers the context resumes with after its update: the saved
/// signal-entry snapshot when a restore lands, else untouched.
pub open spec fn upd_arch(c: Context) -> ArchContext {
    if restore_applies(c) {
        c.ksig->0.arch
    } else {
        c.arch
    }
}

/// The FPU/SIMD bytes after the update, for the same reason.
pub open spec fn upd_kfx_view(c: Context) -> Seq<u8> {
    if restore_applies(c) {
        c.ksig->0.kfx@
    } else {
        c.kfx@
    }
}

/// The in-flight signal state after the update: consumed by a restore,
/// else untouched.
pub open spec fn upd_ksig(c: Context) -> Option<KSignal> {
    if restore_applies(c) {
        None
    } else {
        c.ksig
    }
}

/// The kernel stack after the update: same base always, the snapshot's
/// bytes when a restore lands, else the same bytes.
pub open spec fn upd_kstack_ok(o: Context, n_kstack: Option<KernelStack>) -> bool {
    match (n_kstack, o.kstack) {
        (Some(nst), Some(ost)) => nst.base == ost.base && nst.bytes@ == (if restore_applies(o) {
            o.ksig->0.kstack->0.bytes@
        } else {
            ost.bytes@
        }),
        (None, None) => !restore_applies(o),
        _ => false,
    }
}

/// `n` is `o` after one update pass on CPU `cpu` at time `now`: ownership
/// claimed if free, the saved signal state reinstated byte for byte when a
/// restore applies, and the context unblocked when a restore, a pending
/// signal or an expired sleep says so. Everything else stands still.
pub open spec fn updated_ok(o: Context, n: Context, cpu: usize, now: u128) -> bool {
    &&& sched_inert_eq(o, n)
    &&& n.pending == o.pending
    &&& n.status == upd_status(o, now)
    &&& n.wake == upd_wake(o, now)
    &&& n.cpu_id == upd_cpu_id(o, cpu)
    &&& n.arch == upd_arch(o)
    &&& n.kfx@ == upd_kfx_view(o)
    &&& upd_kstack_ok(o, n.kstack)
    &&& n.ksig == upd_ksig(o)
    &&& n.ksig_restore == (if restore_applies(o) {
        false
    } else {
        o.ksig_restore
    })
    &&& n.running == o.running
    &&& n.switch_time == o.switch_time
    &&& n.cpu_time == o.cpu_time
}

/// After its update the context could be picked by CPU `cpu`: not on a CPU,
/// not held by ptrace, runnable, and owned by (or free for) this CPU.
pub open spec fn runnable_after_update(c: Context, cpu: usize, now: u128) -> bool {
    &&& !c.running
    &&& !c.ptrace_stop
    &&& upd_status(c, now) == Status::Runnable
    &&& upd_cpu_id(c, cpu) == Some(cpu)
}

/// Total CPU time booked across all contexts.
pub open spec fn sum_cpu_time(s: Seq<Context>) -> int
    decreases s.len(),
{
    if s.len() == 0 {
        0
    } else {
        sum_cpu_time(s.drop_last()) + s.last().cpu_time
    }
}

/// Replacing one context changes the total by the difference of its booked
/// time.
pub proof fn lemma_sum_update(s: Seq<Context>, i: int, c: Context)
    requires
        0 <= i < s.len(),
    ensures
        sum_cpu_time(s.update(i, c)) == sum_cpu_time(s) - s[i].cpu_time + c.cpu_time,
    decreases s.len(),
{
    if i == s.len() - 1 {
        assert(s.update(i, c).drop_last() =~= s.drop_last());
    } else {
        assert(s.update(i, c).drop_last() =~= s.drop_last().update(i, c));
        lemma_sum_update(s.drop_last(), i, c);
    }
}

/// Two registries that book the same time per slot book the same total.
pub proof fn lemma_sum_pointwise(s1: Seq<Context>, s2: Seq<Context>)
    requires
        s1.len() == s2.len(),
        forall|i: int| 0 <= i < s1.len() ==> (#[trigger] s1[i]).cpu_time == s2[i].cpu_time,
    ensures
        sum_cpu_time(s1) == sum_cpu_time(s2),
    decreases s1.len(),
{
    if s1.len() > 0 {
        lemma_sum_pointwise(s1.drop_last(), s2.drop_last());
    }
}

/// At most one CPU sees any context running, and no CPU runs two at once:
/// any two distinct running contexts belong to different CPUs. `switch`
/// preserves this through `list_wf`.
pub proof fn lemma_running_exclusive(s: Seq<Context>, i: int, j: int)
    requires
        running_exclusive(s),
        0 <= i < s.len(),
        0 <= j < s.len(),
        i != j,
        s[i].running,
        s[j].running,
    ensures
        s[i].cpu_id != s[j].cpu_id,
{
    if i < j {
        assert(s[i].cpu_id != s[j].cpu_id);
    } else {
        assert(s[j].cpu_id != s[i].cpu_id);
    }
}

/// The total booked CPU time never decreases at a switch point: the charge
/// of the ending slice is the elapsed monotonic time and never negative.
/// Together with `switch`'s accounting clause, the booked total after a
/// switch equals the total before plus exactly that elapsed slice.
pub proof fn lemma_charge_matches_elapsed(c: Context, now: u128)
    ensures
        charge(c, now) >= 0,
        now >= c.switch_time ==> charge(c, now) == now - c.switch_time,
{
}

/// A context whose signal state asked for a restore gets back, at its next
/// update, exactly the snapshot taken at signal entry: registers, FPU area
/// and kernel stack, byte for byte.
pub proof fn lemma_restore_exact(o: Context, n: Context, cpu: usize, now: u128)
    requires
        updated_ok(o, n, cpu, now),
        restore_applies(o),
        restore_wf(o),
    ensures
        n.arch == o.ksig->0.arch,
        n.kfx@ == o.ksig->0.kfx@,
        n.kstack->0.bytes@ == o.ksig->0.kstack->0.bytes@,
        n.kstack->0.base == o.kstack->0.base,
        n.ksig is None,
        !n.ksig_restore,
{
}

/// Round-robin closes the circle: a runnable context switched away from
/// stays selectable by its CPU, so once its peers have had their turn the
/// rotation brings it back. The premises on `p` are what `switch` ensures
/// of the outgoing context.
pub proof fn lemma_outgoing_stays_selectable(
    op: Context,
    p: Context,
    cpu: usize,
    now: u128,
    later: u128,
)
    requires
        op.status == Status::Runnable,
        !op.ptrace_stop,
        op.cpu_id == Some(cpu),
        p.running == false,
        p.status == upd_status(op, now),
        p.cpu_id == upd_cpu_id(op, cpu),
        p.ptrace_stop == op.ptrace_stop,
    ensures
        runnable_after_update(p, cpu, later),
{
}

/// A context may be switched to: it needs to run, is not on a CPU, is not
/// held by ptrace, and this CPU owns it.
pub fn runnable(context: &Context, cpu_id: usize) -> (r: bool)
    ensures
        r == (!context.running && !context.ptrace_stop && context.status == Status::Runnable
            && context.cpu_id == Some(cpu_id)),
{
    !context.running && !context.ptrace_stop && context.status == Status::Runnable
        && match context.cpu_id {
        Some(k) => k == cpu_id,
        None => false,
    }
}

/// A byte-for-byte copy of a vector.
fn clone_bytes(v: &Vec<u8>) -> (r: Vec<u8>)
    ensures
        r@ == v@,
{
    let mut r: Vec<u8> = Vec::new();
    let len = v.len();
    let mut i: usize = 0;
    while i < len
        invariant
            len == v@.len(),
            i <= len,
            r@ == v@.subrange(0, i as int),
        decreases len - i,
    {
        r.push(v[i]);
        proof {
            assert(r@ =~= v@.subrange(0, i + 1));
        }
        i += 1;
    }
    proof {
        assert(v@.subrange(0, len as int) =~= v@);
    }
    r
}

/// One update pass over a context: claim it if unowned, reinstate a saved
/// signal state, and unblock it when a restore, a pending signal or an
/// expired sleep deadline says so. Reports whether a wakeup interrupt is
/// owed to the CPU that owns it.
pub fn update(context: &mut Context, cpu_id: usize, now: u128) -> (ipi: bool)
    requires
        restore_wf(*old(context)),
    ensures
        updated_ok(*old(context), *final(context), cpu_id, now),
        ipi == (becomes_runnable(*old(context), now) && match upd_cpu_id(*old(context), cpu_id) {
            Some(k) => k != cpu_id,
            None => false,
        }),
{
    if self_cpu_unclaimed(context) {
        context.cpu_id = Some(cpu_id);
    }
    let mut ipi = false;

    if context.ksig_restore && !context.running {
        let (k_arch, k_kfx, k_saved_bytes) = match &context.ksig {
            Some(k) => {
                let saved_bytes = match &k.kstack {
                    Some(saved) => clone_bytes(&saved.bytes),
                    None => {
                        proof {
                            assert(false);
                        }
                        return false;
                    },
                };
                (k.arch, clone_bytes(&k.kfx), saved_bytes)
            },
            None => {
                proof {
                    assert(false);
                }
                return false;
            },
        };
        context.arch = k_arch;
        context.kfx = k_kfx;
        let base = match &context.kstack {
            Some(st) => st.base,
            None => {
                proof {
                    assert(false);
                }
                return false;
            },
        };
        context.kstack = Some(KernelStack { base, bytes: k_saved_bytes });
        context.ksig = None;
        context.ksig_restore = false;

        let (_was_blocked, need_ipi) = context.unblock(cpu_id);
        if need_ipi {
            ipi = true;
        }
    }

    if context.status == Status::Blocked && context.pending.len() > 0 {
        let (_was_blocked, need_ipi) = context.unblock(cpu_id);
        if need_ipi {
            ipi = true;
        }
    }

    if context.status == Status::Blocked && context.wake.is_some() {
        let wake = match context.wake {
            Some(w) => w,
            None => 0,
        };
        if now >= wake {
            context.wake = None;
            let (_was_blocked, need_ipi) = context.unblock(cpu_id);
            if need_ipi {
                ipi = true;
            }
        }
    }
    ipi
}

/// The context has not been claimed by any CPU yet.
fn self_cpu_unclaimed(context: &Context) -> (r: bool)
    ensures
        r == (context.cpu_id is None),
{
    context.cpu_id.is_none()
}

/// What the caller must do after a switch decision: mark the previous and
/// next context of the register swap, point the TSS at the incoming kernel
/// stack's top, and, if a signal was popped, enter its handler.
pub struct SwitchOutcome {
    pub prev: usize,
    pub next: usize,
    pub tss_stack: Option<u64>,
    pub sig: Option<u8>,
}

/// The decision of one `switch` call: whom to swap to, if anyone, and which
/// contexts are owed a wakeup interrupt because they became runnable while
/// another CPU owns them.
pub struct SwitchResult {
    pub next: Option<SwitchOutcome>,
    pub ipis: Vec<usize>,
}

/// A registry fit for scheduling: id-ordered, every running context claimed
/// by a CPU, no CPU running two contexts, every requested restore
/// restorable, and every kernel stack's byte range addressable.
pub open spec fn list_wf(l: ContextList) -> bool {
    &&& ids_sorted(l.contexts@)
    &&& running_exclusive(l.contexts@)
    &&& forall|i: int|
        0 <= i < l.contexts@.len() && (#[trigger] l.contexts@[i]).running ==> l.contexts@[i].cpu_id
            is Some
    &&& forall|i: int| 0 <= i < l.contexts@.len() ==> restore_wf(#[trigger] l.contexts@[i])
    &&& forall|i: int|
        0 <= i < l.contexts@.len() ==> match (#[trigger] l.contexts@[i]).kstack {
            Some(st) => st.base + st.bytes@.len() <= u64::MAX,
            None => true,
        }
}

/// Some context has this id.
pub open spec fn has_id(s: Seq<Context>, id: usize) -> bool {
    exists|i: int| 0 <= i < s.len() && s[i].id == id
}

/// The position of the context with this id.
pub open spec fn index_of_id(s: Seq<Context>, id: usize) -> int {
    choose|i: int| 0 <= i < s.len() && s[i].id == id
}

/// The CPU time the outgoing context is charged for this slice.
pub open spec fn charge(c: Context, now: u128) -> int {
    if now >= c.switch_time {
        now - c.switch_time
    } else {
        0
    }
}

/// Find the position of the context with id `id` in an id-ordered registry.
fn find_index(contexts: &Vec<Context>, id: usize) -> (r: Option<usize>)
    requires
        ids_sorted(contexts@),
    ensures
        match r {
            Some(i) => i < contexts@.len() && contexts@[i as int].id == id && i == index_of_id(
                contexts@,
                id,
            ),
            None => !has_id(contexts@, id),
        },
{
    let len = contexts.len();
    let mut i: usize = 0;
    while i < len
        invariant
            ids_sorted(contexts@),
            len == contexts@.len(),
            i <= len,
            forall|j: int| 0 <= j < i ==> (#[trigger] contexts@[j]).id != id,
        decreases len - i,
    {
        if contexts[i].id == id {
            proof {
                assert(has_id(contexts@, id)) by {
                    assert(contexts@[i as int].id == id);
                }
                let j = index_of_id(contexts@, id);
                if j < i as int {
                    assert(contexts@[j].id < contexts@[i as int].id);
                } else if j > i as int {
                    assert(contexts@[i as int].id < contexts@[j].id);
                }
            }
            return Some(i);
        }
        i += 1;
    }
    None
}

/// The ids owed a wakeup interrupt by one update pass, in registry order:
/// the contexts the pass made runnable while another CPU owns them.
pub open spec fn wakeup_ids(s: Seq<Context>, cpu: usize, now: u128) -> Seq<usize>
    decreases s.len(),
{
    if s.len() == 0 {
        Seq::empty()
    } else {
        let rest = wakeup_ids(s.drop_last(), cpu, now);
        let c = s.last();
        if becomes_runnable(c, now) && (match upd_cpu_id(c, cpu) {
            Some(k) => k != cpu,
            None => false,
        }) {
            rest.push(c.id)
        } else {
            rest
        }
    }
}

/// A context is selectable right now.
pub open spec fn selectable(c: Context, cpu: usize) -> bool {
    !c.running && !c.ptrace_stop && c.status == Status::Runnable && c.cpu_id == Some(cpu)
}

/// The first selectable context after position `ci`, wrapping around and
/// never picking `ci` itself: strict round-robin.
fn select_next(contexts: &Vec<Context>, ci: usize, cpu: usize) -> (r: Option<usize>)
    requires
        ci < contexts@.len(),
    ensures
        match r {
            Some(ni) => {
                &&& ni < contexts@.len()
                &&& ni != ci
                &&& selectable(contexts@[ni as int], cpu)
                &&& (ni > ci ==> forall|j: int|
                    ci < j < ni ==> !selectable(#[trigger] contexts@[j], cpu))
                &&& (ni < ci ==> (forall|j: int|
                    ci < j < contexts@.len() ==> !selectable(#[trigger] contexts@[j], cpu))
                    && (forall|j: int| 0 <= j < ni ==> !selectable(#[trigger] contexts@[j], cpu)))
            },
            None => forall|j: int|
                0 <= j < contexts@.len() && j != ci ==> !selectable(#[trigger] contexts@[j], cpu),
        },
{
    let len = contexts.len();
    let mut k: usize = ci + 1;
    while k < len
        invariant
            ci < len,
            len == contexts@.len(),
            ci < k,
            forall|j: int| ci < j < k ==> !selectable(#[trigger] contexts@[j], cpu),
        decreases len - k,
    {
        if runnable(&contexts[k], cpu) {
            return Some(k);
        }
        k += 1;
    }
    let mut m: usize = 0;
    while m < ci
        invariant
            ci < len,
            len == contexts@.len(),
            m <= ci,
            forall|j: int| ci < j < len ==> !selectable(#[trigger] contexts@[j], cpu),
            forall|j: int| 0 <= j < m ==> !selectable(#[trigger] contexts@[j], cpu),
        decreases ci - m,
    {
        if runnable(&contexts[m], cpu) {
            return Some(m);
        }
        m += 1;
    }
    None
}

/// Switch to the next context this CPU should run: update every context,
/// pick the first runnable peer after the current one in id order
/// (wrapping), hand the CPU time of the ending slice to the outgoing
/// context, stamp the incoming one, pop one pending signal for it if none
/// is in flight, and say whom to swap to. With no runnable peer the same
/// context resumes and nothing but the update pass has happened.
#[verifier::rlimit(60)]
pub fn switch(list: &mut ContextList, cpu_id: usize, now: u128) -> (r: SwitchResult)
    requires
        list_wf(*old(list)),
        cpu_id < old(list).current@.len(),
        has_id(old(list).contexts@, old(list).current@[cpu_id as int]),
        ({
            let c = old(list).contexts@[index_of_id(
                old(list).contexts@,
                old(list).current@[cpu_id as int],
            )];
            c.running && c.cpu_id == Some(cpu_id) && c.cpu_time + now <= u128::MAX
        }),
    ensures
        list_wf(*final(list)),
        final(list).contexts@.len() == old(list).contexts@.len(),
        final(list).current@.len() == old(list).current@.len(),
        forall|i: int|
            0 <= i < final(list).contexts@.len() ==> (#[trigger] final(list).contexts@[i]).id
                == old(list).contexts@[i].id,
        r.ipis@ == wakeup_ids(old(list).contexts@, cpu_id, now),
        ({
            let ci = index_of_id(old(list).contexts@, old(list).current@[cpu_id as int]);
            match r.next {
                None => {
                    &&& forall|i: int|
                        0 <= i < old(list).contexts@.len() ==> updated_ok(
                            #[trigger] old(list).contexts@[i],
                            final(list).contexts@[i],
                            cpu_id,
                            now,
                        )
                    &&& forall|j: int|
                        0 <= j < old(list).contexts@.len() && j != ci
                            ==> !runnable_after_update(
                            #[trigger] old(list).contexts@[j],
                            cpu_id,
                            now,
                        )
                    &&& final(list).current == old(list).current
                    &&& sum_cpu_time(final(list).contexts@) == sum_cpu_time(old(list).contexts@)
                },
                Some(o) => {
                    &&& o.prev == old(list).current@[cpu_id as int]
                    &&& sum_cpu_time(final(list).contexts@) == sum_cpu_time(old(list).contexts@)
                        + charge(old(list).contexts@[ci], now)
                    &&& exists|ni: int|
                        #![trigger old(list).contexts@[ni]]
                        {
                            let oq = old(list).contexts@[ni];
                            let q = final(list).contexts@[ni];
                            &&& 0 <= ni < old(list).contexts@.len()
                            &&& ni != ci
                            &&& runnable_after_update(oq, cpu_id, now)
                            &&& o.next == oq.id
                            &&& (ni > ci ==> forall|j: int|
                                ci < j < ni ==> !runnable_after_update(
                                    #[trigger] old(list).contexts@[j],
                                    cpu_id,
                                    now,
                                ))
                            &&& (ni < ci ==> (forall|j: int|
                                ci < j < old(list).contexts@.len() ==> !runnable_after_update(
                                    #[trigger] old(list).contexts@[j],
                                    cpu_id,
                                    now,
                                )) && (forall|j: int|
                                0 <= j < ni ==> !runnable_after_update(
                                    #[trigger] old(list).contexts@[j],
                                    cpu_id,
                                    now,
                                )))
                            &&& final(list).current@ == old(list).current@.update(
                                cpu_id as int,
                                oq.id,
                            )
                            &&& forall|i: int|
                                0 <= i < old(list).contexts@.len() && i != ci && i != ni
                                    ==> updated_ok(
                                    #[trigger] old(list).contexts@[i],
                                    final(list).contexts@[i],
                                    cpu_id,
                                    now,
                                )
                            &&& ({
                                let op = old(list).contexts@[ci];
                                let p = final(list).contexts@[ci];
                                &&& p.running == false
                                &&& p.cpu_time == op.cpu_time + charge(op, now)
                                &&& p.status == upd_status(op, now)
                                &&& p.switch_time == op.switch_time
                                &&& sched_inert_eq(op, p)
                                &&& p.pending == op.pending
                                &&& p.wake == upd_wake(op, now)
                                &&& p.cpu_id == upd_cpu_id(op, cpu_id)
                                &&& p.arch == upd_arch(op)
                                &&& p.kfx@ == upd_kfx_view(op)
                                &&& upd_kstack_ok(op, p.kstack)
                                &&& p.ksig == upd_ksig(op)
                                &&& p.ksig_restore == (if restore_applies(op) {
                                    false
                                } else {
                                    op.ksig_restore
                                })
                            })
                            &&& q.running == true
                            &&& q.switch_time == now
                            &&& q.status == Status::Runnable
                            &&& q.cpu_id == Some(cpu_id)
                            &&& q.ksig_restore == false
                            &&& q.wake == upd_wake(oq, now)
                            &&& sched_inert_eq(oq, q)
                            &&& q.cpu_time == oq.cpu_time
                            &&& q.kfx@ == upd_kfx_view(oq)
                            &&& upd_kstack_ok(oq, q.kstack)
                            &&& o.tss_stack == (match oq.kstack {
                                Some(st) => Some((st.base + st.bytes@.len()) as u64),
                                None => None::<u64>,
                            })
                            &&& (if (if restore_applies(oq) {
                                true
                            } else {
                                oq.ksig is None
                            }) && oq.pending@.len() > 0 {
                                let sig = oq.pending@[0];
                                &&& o.sig == Some(sig)
                                &&& q.pending@ == oq.pending@.subrange(
                                    1,
                                    oq.pending@.len() as int,
                                )
                                &&& (match q.ksig {
                                    Some(k) => {
                                        &&& k.signum == sig
                                        &&& k.arch == upd_arch(oq)
                                        &&& k.kfx@ == upd_kfx_view(oq)
                                        &&& upd_kstack_ok(oq, k.kstack)
                                    },
                                    None => false,
                                })
                                &&& q.arch == (ArchContext {
                                    ip: SIGNAL_HANDLER_ENTRY,
                                    sp: upd_arch(oq).sp,
                                    arg: sig as u64,
                                })
                            } else {
                                &&& o.sig is None
                                &&& q.pending == oq.pending
                                &&& q.arch == upd_arch(oq)
                                &&& q.ksig == upd_ksig(oq)
                            })
                        }
                },
            }
        }),
{
    let len = list.contexts.len();
    let cur_id = list.current[cpu_id];
    let ci = match find_index(&list.contexts, cur_id) {
        Some(ci) => ci,
        None => {
            proof {
                assert(false);
            }
            return SwitchResult { next: None, ipis: Vec::new() };
        },
    };

    let mut ipis: Vec<usize> = Vec::new();
    let mut i: usize = 0;
    while i < len
        invariant
            list_wf(*old(list)),
            len == list.contexts@.len(),
            len == old(list).contexts@.len(),
            i <= len,
            list.current == old(list).current,
            forall|j: int|
                0 <= j < i ==> updated_ok(
                    #[trigger] old(list).contexts@[j],
                    list.contexts@[j],
                    cpu_id,
                    now,
                ),
            forall|j: int| i <= j < len ==> list.contexts@[j] == old(list).contexts@[j],
            ipis@ == wakeup_ids(old(list).contexts@.take(i as int), cpu_id, now),
        decreases len - i,
    {
        proof {
            assert(restore_wf(list.contexts@[i as int]));
        }
        let ipi = update(&mut list.contexts[i], cpu_id, now);
        if ipi {
            let id = list.contexts[i].id;
            ipis.push(id);
        }
        proof {
            assert(old(list).contexts@.take(i + 1).drop_last() =~= old(list).contexts@.take(
                i as int,
            ));
            assert(old(list).contexts@.take(i + 1).last() == old(list).contexts@[i as int]);
        }
        i += 1;
    }
    proof {
        assert(old(list).contexts@.take(len as int) =~= old(list).contexts@);
    }

    proof {
        assert forall|j: int| 0 <= j < len implies (#[trigger] list.contexts@[j]).cpu_time == old(
            list,
        ).contexts@[j].cpu_time by {
            assert(updated_ok(old(list).contexts@[j], list.contexts@[j], cpu_id, now));
        }
        lemma_sum_pointwise(list.contexts@, old(list).contexts@);
        assert forall|j: int| 0 <= j < len implies (selectable(
            #[trigger] list.contexts@[j],
            cpu_id,
        ) == runnable_after_update(old(list).contexts@[j], cpu_id, now)) by {
            assert(updated_ok(old(list).contexts@[j], list.contexts@[j], cpu_id, now));
        }
    }

    let ni = match select_next(&list.contexts, ci, cpu_id) {
        Some(ni) => ni,
        None => {
            return SwitchResult { next: None, ipis };
        },
    };

    let ghost after_update = list.contexts@;

    // Pop one pending signal for the incoming context, unless a signal is
    // already in flight.
    let to_sig: Option<u8> = if list.contexts[ni].ksig.is_none() && list.contexts[ni].pending.len()
        > 0 {
        let sig = list.contexts[ni].pending.remove(0);
        Some(sig)
    } else {
        None
    };

    // The outgoing context stops running and is charged for its slice.
    let prev_st = list.contexts[ci].switch_time;
    let delta: u128 = if now >= prev_st {
        now - prev_st
    } else {
        0
    };
    let prev_ct = list.contexts[ci].cpu_time;
    list.contexts[ci].running = false;
    list.contexts[ci].cpu_time = prev_ct + delta;

    // The incoming context starts running now.
    list.contexts[ni].running = true;
    list.contexts[ni].switch_time = now;

    let tss = match &list.contexts[ni].kstack {
        Some(st) => Some(st.base + st.bytes.len() as u64),
        None => None,
    };
    let next_id = list.contexts[ni].id;
    list.current[cpu_id] = next_id;

    if let Some(sig) = to_sig {
        let sarch = list.contexts[ni].arch;
        let skfx = clone_bytes(&list.contexts[ni].kfx);
        let skstack = match &list.contexts[ni].kstack {
            Some(st) => Some(KernelStack { base: st.base, bytes: clone_bytes(&st.bytes) }),
            None => None,
        };
        list.contexts[ni].ksig = Some(
            KSignal { arch: sarch, kfx: skfx, kstack: skstack, signum: sig },
        );
        let sp = list.contexts[ni].arch.sp;
        list.contexts[ni].arch = ArchContext { ip: SIGNAL_HANDLER_ENTRY, sp, arg: sig as u64 };
    }

    proof {
        let oldc = old(list).contexts@;
        let cur = list.contexts@;
        assert(cur.len() == oldc.len());
        // Total accounting: only the outgoing context's booked time moved,
        // and it moved by exactly the charge of the ending slice.
        assert forall|j: int| 0 <= j < cur.len() && j != ci implies (#[trigger] cur[j]).cpu_time
            == oldc[j].cpu_time by {
            if j != ni {
                assert(updated_ok(oldc[j], cur[j], cpu_id, now));
            }
        }
        let witness = after_update.update(ci as int, cur[ci as int]);
        assert forall|j: int| 0 <= j < cur.len() implies (#[trigger] witness[j]).cpu_time
            == cur[j].cpu_time by {}
        lemma_sum_pointwise(witness, cur);
        lemma_sum_update(after_update, ci as int, cur[ci as int]);
        lemma_sum_pointwise(after_update, oldc);
        // Exclusivity: the incoming context is the only one running on this
        // CPU, because the outgoing one was before.
        assert forall|a: int, b: int|
            0 <= a < b < cur.len() && (#[trigger] cur[a]).running && (#[trigger] cur[b]).running
            implies cur[a].cpu_id != cur[b].cpu_id by {
            if a != ni as int && b != ni as int {
                assert(oldc[a].running && oldc[b].running);
            } else {
                let other: int = if a == ni as int {
                    b
                } else {
                    a
                };
                if other != ci as int {
                    assert(oldc[other].running);
                    if oldc[other].cpu_id == Some(cpu_id) {
                        assert(oldc[ci as int].running);
                        if other < ci as int {
                            assert(oldc[other].cpu_id != oldc[ci as int].cpu_id);
                        } else {
                            assert(oldc[ci as int].cpu_id != oldc[other].cpu_id);
                        }
                    }
                }
            }
        }
        assert(runnable_after_update(oldc[ni as int], cpu_id, now));
    }

    SwitchResult {
        next: Some(SwitchOutcome { prev: cur_id, next: next_id, tss_stack: tss, sig: to_sig }),
        ipis,
    }
}


impl ContextList {
    /// An empty registry for `cpus` processors, each starting with no
    /// current context recorded.
    pub fn new(cpus: usize) -> (r: ContextList)
        ensures
            r.contexts@.len() == 0,
            r.current@.len() == cpus,
            r.next_id == 1,
            list_wf(r),
            ids_below(r),
    {
        let mut current: Vec<usize> = Vec::new();
        let mut i: usize = 0;
        while i < cpus
            invariant
                i <= cpus,
                current@.len() == i,
            decreases cpus - i,
        {
            current.push(0);
            i += 1;
        }
        ContextList { contexts: Vec::new(), current, next_id: 1 }
    }

    /// The id of the context CPU `cpu` is executing, if the CPU exists.
    pub fn current(&self, cpu: usize) -> (r: Option<usize>)
        ensures
            r == (if cpu < self.current@.len() {
                Some(self.current@[cpu as int])
            } else {
                None::<usize>
            }),
    {
        if cpu < self.current.len() {
            Some(self.current[cpu])
        } else {
            None
        }
    }

    /// The context registered under `id`.
    pub fn get(&self, id: usize) -> (r: Option<&Context>)
        requires
            ids_sorted(self.contexts@),
        ensures
            match r {
                Some(c) => has_id(self.contexts@, id) && *c == self.contexts@[index_of_id(
                    self.contexts@,
                    id,
                )],
                None => !has_id(self.contexts@, id),
            },
    {
        match find_index(&self.contexts, id) {
            Some(i) => Some(&self.contexts[i]),
            None => None,
        }
    }

    /// Register a fresh context: it gets the next id, starts blocked and
    /// unclaimed, and sits at the end of the id order.
    pub fn insert_new(&mut self) -> (id: usize)
        requires
            ids_sorted(old(self).contexts@),
            ids_below(*old(self)),
            old(self).next_id < usize::MAX,
        ensures
            ids_sorted(final(self).contexts@),
            ids_below(*final(self)),
            id == old(self).next_id,
            final(self).next_id == old(self).next_id + 1,
            final(self).current == old(self).current,
            final(self).contexts@.len() == old(self).contexts@.len() + 1,
            final(self).contexts@.subrange(0, old(self).contexts@.len() as int) == old(
                self,
            ).contexts@,
            ({
                let c = final(self).contexts@.last();
                &&& c.id == id
                &&& c.status == Status::Blocked
                &&& !c.running
                &&& c.cpu_id is None
            }),
    {
        let id = self.next_id;
        self.next_id = self.next_id + 1;
        let context = Context::new(id);
        self.contexts.push(context);
        proof {
            assert forall|i: int, j: int|
                0 <= i < j < self.contexts@.len() implies self.contexts@[i].id
                < self.contexts@[j].id by {
                if j < self.contexts@.len() - 1 {
                    assert(self.contexts@[i] == old(self).contexts@[i]);
                    assert(self.contexts@[j] == old(self).contexts@[j]);
                } else {
                    assert(self.contexts@[i] == old(self).contexts@[i]);
                }
            }
        }
        id
    }

    /// Unregister the context with `id` and hand it out, keeping the id
    /// order of the rest.
    pub fn remove(&mut self, id: usize) -> (r: Option<Context>)
        requires
            ids_sorted(old(self).contexts@),
        ensures
            ids_sorted(final(self).contexts@),
            final(self).current == old(self).current,
            final(self).next_id == old(self).next_id,
            match r {
                Some(c) => {
                    &&& has_id(old(self).contexts@, id)
                    &&& c == old(self).contexts@[index_of_id(old(self).contexts@, id)]
                    &&& final(self).contexts@ == old(self).contexts@.remove(
                        index_of_id(old(self).contexts@, id),
                    )
                },
                None => !has_id(old(self).contexts@, id) && *final(self) == *old(self),
            },
    {
        match find_index(&self.contexts, id) {
            Some(i) => {
                let c = self.contexts.remove(i);
                proof {
                    let s = old(self).contexts@;
                    assert forall|a: int, b: int|
                        0 <= a < b < self.contexts@.len() implies self.contexts@[a].id
                        < self.contexts@[b].id by {
                        let af: int = if a < i {
                            a
                        } else {
                            a + 1
                        };
                        let bf: int = if b < i {
                            b
                        } else {
                            b + 1
                        };
                        assert(self.contexts@[a] == s[af]);
                        assert(self.contexts@[b] == s[bf]);
                    }
                }
                Some(c)
            },
            None => None,
        }
    }
}

} // verus!
