use core::cmp::Ordering;
use kcore::context::{
    ArchContext, Context, ContextSnapshot, FileDescription, FileDescriptor, KSignal,
    KernelStack, SigAction, Status, WaitpidKey, KFX_SIZE, SIGNAL_ACTIONS, SIG_DFL,
};
use kcore::error::{ENODEV, ESRCH};
use kcore::gdt::{GdtEntry, GDT_A_PRESENT, GDT_F_LONG_MODE};
use kcore::ptrace::{
    clear_process_regs, is_user_handled, proc_trigger_event, rebase_regs_ptr, regs_for,
    regs_for_mut, set_process_regs, Breakpoint, PtraceEvent, Sessions, EVENT_READ,
    PTRACE_STOP_POST_SYSCALL, PTRACE_STOP_PRE_SYSCALL, PTRACE_STOP_SINGLESTEP,
};
use kcore::CONTEXT_MAX_FILES;

fn fd(number: u64) -> FileDescriptor {
    FileDescriptor {
        description: FileDescription { namespace: 0, scheme: 1, number, flags: 0 },
        cloexec: false,
    }
}

#[test]
fn new_context_is_blocked_and_empty() {
    let c = Context::new(4);
    assert_eq!(c.id, 4);
    assert_eq!(c.pgid, 4);
    assert_eq!(c.status, Status::Blocked);
    assert!(!c.running);
    assert_eq!(c.cpu_id, None);
    assert_eq!(c.files.len(), 0);
    assert_eq!(c.actions.len(), SIGNAL_ACTIONS);
    assert_eq!(c.actions[0].0.sa_handler, SIG_DFL);
    assert_eq!(c.kfx.len(), KFX_SIZE);
    assert_eq!(c.umask, 0o022);
}

#[test]
fn block_and_unblock_round_trip() {
    let mut c = Context::new(4);
    c.status = Status::Runnable;
    assert!(c.block("waiting on packet"));
    assert_eq!(c.status, Status::Blocked);
    assert_eq!(c.status_reason, "waiting on packet");
    // Blocking a blocked context does nothing.
    assert!(!c.block("again"));

    let (was_blocked, ipi) = c.unblock(0);
    assert!(was_blocked);
    assert!(!ipi);
    assert_eq!(c.status, Status::Runnable);
    // Waking also clears the blocking reason.
    assert_eq!(c.status_reason, "");
    let (was_blocked, _) = c.unblock(0);
    assert!(!was_blocked);

    // Waking a context owned by another CPU owes an interrupt.
    let mut remote = Context::new(5);
    remote.status = Status::Blocked;
    remote.cpu_id = Some(2);
    let (was_blocked, ipi) = remote.unblock(0);
    assert!(was_blocked);
    assert!(ipi);
}

#[test]
fn file_table_allocates_smallest_free_slot() {
    let mut c = Context::new(4);
    assert_eq!(c.add_file(fd(10)), Some(0));
    assert_eq!(c.add_file(fd(11)), Some(1));
    assert_eq!(c.add_file(fd(12)), Some(2));
    assert_eq!(c.remove_file(1), Some(fd(11)));
    // The smallest free slot is reused.
    assert_eq!(c.add_file(fd(13)), Some(1));
    // add_file_min skips below the minimum even when slots are free.
    assert_eq!(c.remove_file(0), Some(fd(10)));
    assert_eq!(c.add_file_min(fd(14), 2), Some(3));
    assert_eq!(c.get_file(0), None);
    assert_eq!(c.get_file(3), Some(fd(14)));
    assert_eq!(c.get_file(99), None);
}

#[test]
fn file_table_insert_at_fixed_slot() {
    let mut c = Context::new(4);
    // Insertion pads the table.
    assert_eq!(c.insert_file(3, fd(30)), Some(3));
    assert_eq!(c.get_file(0), None);
    assert_eq!(c.get_file(3), Some(fd(30)));
    // An occupied slot is refused.
    assert_eq!(c.insert_file(3, fd(31)), None);
    // A slot past the bound is refused.
    assert_eq!(c.insert_file(CONTEXT_MAX_FILES, fd(32)), None);
    // add_file_min below the table's end lands on the padded free slot.
    assert_eq!(c.add_file_min(fd(33), 1), Some(1));
}

#[test]
fn address_space_handle() {
    let mut c = Context::new(4);
    assert_eq!(c.addr_space().unwrap_err().errno, ESRCH);
    let (prev, make_current) = c.set_addr_space(6, 4);
    assert_eq!(prev, None);
    // The context is the current one: the new table must be made current.
    assert!(make_current);
    assert_eq!(c.addr_space(), Ok(6));
    let (prev, make_current) = c.set_addr_space(8, 99);
    assert_eq!(prev, Some(6));
    assert!(!make_current);
}

#[test]
fn snapshot_copies_fields_and_flattens_files() {
    let mut c = Context::new(4);
    c.euid = 17;
    c.status = Status::Stopped(9);
    c.files.push(Some(fd(10)));
    c.files.push(None);
    let s = ContextSnapshot::new(&c);
    assert_eq!(s.id, 4);
    assert_eq!(s.euid, 17);
    assert_eq!(s.status, Status::Stopped(9));
    assert_eq!(s.files.len(), 2);
    assert_eq!(s.files[0], Some(fd(10).description));
    assert_eq!(s.files[1], None);
}

#[test]
fn waitpid_key_ordering() {
    let none = WaitpidKey { pid: None, pgid: None };
    let pid1 = WaitpidKey { pid: Some(1), pgid: None };
    let pid2 = WaitpidKey { pid: Some(2), pgid: None };
    let pg1 = WaitpidKey { pid: None, pgid: Some(1) };
    assert_eq!(pid1.cmp(&pid2), Ordering::Less);
    assert_eq!(pid2.cmp(&pid1), Ordering::Greater);
    assert_eq!(pid1.cmp(&pid1), Ordering::Equal);
    // A key with a pid sorts above one without.
    assert_eq!(pid1.cmp(&pg1), Ordering::Greater);
    assert_eq!(pg1.cmp(&pid1), Ordering::Less);
    assert_eq!(pg1.cmp(&none), Ordering::Greater);
    assert_eq!(none.cmp(&none), Ordering::Equal);
    assert!(pid1 == pid1);
    assert!(pid1 != pid2);
}

#[test]
fn gdt_entry_packs_and_unpacks() {
    let e = GdtEntry::new(0x1234_5678, 0xFFFFF, GDT_A_PRESENT, GDT_F_LONG_MODE);
    assert_eq!(e.offset(), 0x1234_5678);
    assert_eq!(e.access, GDT_A_PRESENT);
    let mut e2 = e;
    e2.set_offset(0xDEAD_BEEF);
    assert_eq!(e2.offset(), 0xDEAD_BEEF);
    assert_eq!(e2.limitl, e.limitl);
    e2.set_limit(0x456AB);
    // The 20 limit bits land in limitl and the shared nibble.
    assert_eq!(e2.limitl, 0x56AB);
    assert_eq!(e2.flags_limith & 0x0F, 0x4);
    assert_eq!(e2.flags_limith & 0xF0, GDT_F_LONG_MODE);
    assert_eq!(e2.offset(), 0xDEAD_BEEF);
}

#[test]
fn ptrace_sessions_lifecycle() {
    let mut sessions = Sessions::new();
    assert!(!sessions.is_traced(4));
    assert!(sessions.try_new_session(4, 8));
    assert!(!sessions.try_new_session(4, 9));
    assert!(sessions.is_traced(4));

    // The tracee dying wakes the tracer with a readable notice, but the
    // session stays for final pickup.
    let notice = sessions.close_tracee(4).unwrap();
    assert_eq!(notice.file_id, 8);
    assert_eq!(notice.flags, EVENT_READ);
    assert!(sessions.is_traced(4));

    assert!(sessions.close_session(4));
    assert!(!sessions.is_traced(4));
    assert!(!sessions.close_session(4));
}

#[test]
fn breakpoint_stops_iff_flags_cover_match() {
    let mut sessions = Sessions::new();
    sessions.try_new_session(4, 8);
    sessions.inner[0].1.data.set_breakpoint(Some(PTRACE_STOP_PRE_SYSCALL
        | PTRACE_STOP_POST_SYSCALL));

    // Covered classes stop and return the armed flag set.
    let (stopped, _notice) = sessions.breakpoint_callback(4, PTRACE_STOP_PRE_SYSCALL, None);
    assert_eq!(stopped, Some(PTRACE_STOP_PRE_SYSCALL | PTRACE_STOP_POST_SYSCALL));
    // An uncovered class passes by.
    let (passed, _) = sessions.breakpoint_callback(4, PTRACE_STOP_SINGLESTEP, None);
    assert_eq!(passed, None);
    // Without any session nothing stops.
    let (no_session, _) = sessions.breakpoint_callback(5, PTRACE_STOP_PRE_SYSCALL, None);
    assert_eq!(no_session, None);
}

#[test]
fn syscall_stop_scenario() {
    // Tracer arms a syscall breakpoint; tracee hits it and stops; the
    // tracer's wait returns; clearing the breakpoint lets the tracee pass.
    let mut sessions = Sessions::new();
    sessions.try_new_session(4, 8);
    sessions.inner[0].1.data.set_breakpoint(Some(PTRACE_STOP_PRE_SYSCALL));
    assert!(!sessions.wait(4), "nothing to report yet: the tracer sleeps");

    let (stopped, notice) = sessions.breakpoint_callback(4, PTRACE_STOP_PRE_SYSCALL, None);
    assert_eq!(stopped, Some(PTRACE_STOP_PRE_SYSCALL));
    assert_eq!(notice.unwrap().file_id, 8);
    assert!(sessions.inner[0].1.data.is_reached());
    assert!(sessions.wait(4), "the breakpoint is reached: wait returns");

    sessions.inner[0].1.data.set_breakpoint(None);
    let (passed, _) = sessions.breakpoint_callback(4, PTRACE_STOP_PRE_SYSCALL, None);
    assert_eq!(passed, None);
}

#[test]
fn send_event_respects_breakpoint_cover() {
    let mut sessions = Sessions::new();
    sessions.try_new_session(4, 8);
    sessions.inner[0].1.data.set_breakpoint(Some(PTRACE_STOP_PRE_SYSCALL));
    let covered = PtraceEvent { cause: PTRACE_STOP_PRE_SYSCALL, a: 1, b: 2, c: 3 };
    let (sent, notice) = sessions.send_event(4, covered);
    assert!(sent);
    assert_eq!(notice.unwrap().file_id, 8);
    let uncovered = PtraceEvent { cause: PTRACE_STOP_SINGLESTEP, a: 0, b: 0, c: 0 };
    let (sent, _) = sessions.send_event(4, uncovered);
    assert!(!sent);
    // Events drain oldest first.
    let drained = sessions.inner[0].1.data.recv_events(8);
    assert_eq!(drained, vec![covered]);
    assert_eq!(sessions.inner[0].1.data.session_fevent_flags(), 0);
}

#[test]
fn next_breakpoint_reports_armed_flags() {
    let mut sessions = Sessions::new();
    sessions.try_new_session(4, 8);
    assert_eq!(sessions.next_breakpoint(4), None);
    sessions.inner[0].1.data.set_breakpoint(Some(PTRACE_STOP_POST_SYSCALL));
    assert_eq!(sessions.next_breakpoint(4), Some(PTRACE_STOP_POST_SYSCALL));
    assert_eq!(
        sessions.inner[0].1.data.breakpoint,
        Some(Breakpoint { reached: false, flags: PTRACE_STOP_POST_SYSCALL })
    );
}

#[test]
fn process_regs_capture_and_rebase() {
    let mut c = Context::new(4);
    // Without a kernel stack there is nothing to publish.
    assert!(set_process_regs(&mut c, 0x1234).is_none());

    c.kstack = Some(KernelStack { base: 0x8000, bytes: vec![0; 0x1000] });
    let guard = set_process_regs(&mut c, 0x8AB0);
    assert!(guard.is_some());
    assert_eq!(c.regs, Some((0x8000, 0x8AB0)));

    // No signal in flight: the published frame is read directly.
    assert_eq!(regs_for(&c), Some(0x8AB0));
    assert_eq!(regs_for_mut(&mut c), Some(0x8AB0));

    // Rebasing keeps the offset inside the stack.
    let other = KernelStack { base: 0x20_000, bytes: vec![0; 0x1000] };
    assert_eq!(rebase_regs_ptr(c.regs, Some(&other)), Some(0x20AB0));
    assert_eq!(rebase_regs_ptr(None, Some(&other)), None);

    clear_process_regs(&mut c);
    assert_eq!(c.regs, None);
}

#[test]
fn regs_for_honours_signal_backup() {
    let mut c = Context::new(4);
    c.kstack = Some(KernelStack { base: 0x8000, bytes: vec![0; 0x1000] });
    set_process_regs(&mut c, 0x8AB0);
    c.ksig = Some(KSignal {
        arch: ArchContext { ip: 0, sp: 0, arg: 0 },
        kfx: vec![],
        kstack: Some(KernelStack { base: 0x40_000, bytes: vec![0; 0x1000] }),
        signum: 9,
    });
    // Signal 9 is kernel-handled (the action table holds SIG_DFL): the
    // registers live in the backup stack, rebased.
    assert_eq!(regs_for(&c), Some(0x40AB0));
    // A user-handled signal reads the primary registers instead.
    c.actions[9].0.sa_handler = 0x7777;
    assert!(is_user_handled(0x7777));
    assert_eq!(regs_for(&c), Some(0x8AB0));
}

#[test]
fn add_event_notifies_only_on_first() {
    let mut sessions = Sessions::new();
    sessions.try_new_session(4, 8);
    let e1 = PtraceEvent { cause: PTRACE_STOP_PRE_SYSCALL, a: 0, b: 0, c: 0 };
    let first = sessions.inner[0].1.data.add_event(e1);
    assert_eq!(first, Some(proc_trigger_event(8, EVENT_READ)));
    let second = sessions.inner[0].1.data.add_event(e1);
    assert_eq!(second, None);
    assert_eq!(sessions.inner[0].1.data.session_fevent_flags(), EVENT_READ);
}

#[test]
fn default_actions_table() {
    let actions = Context::empty_actions();
    assert_eq!(actions.len(), SIGNAL_ACTIONS);
    for (action, data) in &actions {
        assert_eq!(
            *action,
            SigAction { sa_handler: SIG_DFL, sa_mask: (0, 0), sa_flags: 0 }
        );
        assert_eq!(*data, 0);
    }
}

#[test]
fn file_table_saturated_at_minimum() {
    let mut c = Context::new(4);
    // The last legal slot is taken; nothing at or above the minimum is
    // free, so allocation reports saturation.
    assert_eq!(c.insert_file(CONTEXT_MAX_FILES - 1, fd(1)), Some(CONTEXT_MAX_FILES - 1));
    assert_eq!(c.add_file_min(fd(2), CONTEXT_MAX_FILES - 1), None);
}

#[test]
fn with_session_names_enodev() {
    let mut sessions = Sessions::new();
    assert_eq!(sessions.with_session(4).unwrap_err().errno, ENODEV);
    sessions.try_new_session(4, 8);
    assert_eq!(sessions.with_session(4).unwrap().file_id, 8);
}
