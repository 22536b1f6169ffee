use kcore::context::{ArchContext, Context, KSignal, KernelStack, Status};
use kcore::switch::{switch, update, ContextList, SIGNAL_HANDLER_ENTRY};

fn fresh(id: usize) -> Context {
    Context::new(id)
}

fn runnable_on(id: usize, cpu: usize) -> Context {
    let mut c = fresh(id);
    c.status = Status::Runnable;
    c.cpu_id = Some(cpu);
    c
}

#[test]
fn round_robin_three_contexts() {
    // Three contexts A(1), B(2), C(3), all runnable on CPU 0, starting in A.
    let mut a = runnable_on(1, 0);
    a.running = true;
    let b = runnable_on(2, 0);
    let c = runnable_on(3, 0);
    let mut list = ContextList { contexts: vec![a, b, c], current: vec![1], next_id: 10 };

    let r1 = switch(&mut list, 0, 1000);
    let o1 = r1.next.expect("a peer is runnable");
    assert_eq!(o1.prev, 1);
    assert_eq!(o1.next, 2);
    assert_eq!(list.current[0], 2);

    let r2 = switch(&mut list, 0, 2000);
    let o2 = r2.next.expect("a peer is runnable");
    assert_eq!(o2.prev, 2);
    assert_eq!(o2.next, 3);

    let r3 = switch(&mut list, 0, 3000);
    let o3 = r3.next.expect("a peer is runnable");
    assert_eq!(o3.prev, 3);
    assert_eq!(o3.next, 1);
}

#[test]
fn running_flag_moves_with_the_switch() {
    let mut a = runnable_on(1, 0);
    a.running = true;
    let b = runnable_on(2, 0);
    let mut list = ContextList { contexts: vec![a, b], current: vec![1], next_id: 10 };

    let r = switch(&mut list, 0, 500);
    assert!(r.next.is_some());
    assert!(!list.contexts[0].running);
    assert!(list.contexts[1].running);
    // At most one context runs on the CPU at any instant.
    let both = list.contexts.iter().filter(|c| c.running).count();
    assert_eq!(both, 1);
}

#[test]
fn sleep_wakeup_at_deadline() {
    // A(1) runs; B(2) sleeps until t0 + 10.
    let t0: u128 = 1_000_000;
    let mut a = runnable_on(1, 0);
    a.running = true;
    let mut b = runnable_on(2, 0);
    b.status = Status::Blocked;
    b.wake = Some(t0 + 10);
    let mut list = ContextList { contexts: vec![a, b], current: vec![1], next_id: 10 };

    // One tick before the deadline B stays blocked and is not selected.
    let r = switch(&mut list, 0, t0 + 9);
    assert!(r.next.is_none());
    assert_eq!(list.contexts[1].status, Status::Blocked);
    assert_eq!(list.contexts[1].wake, Some(t0 + 10));

    // Past the deadline B wakes, is selected, and its deadline is consumed.
    let r = switch(&mut list, 0, t0 + 11);
    let o = r.next.expect("B is due");
    assert_eq!(o.next, 2);
    assert_eq!(list.contexts[1].status, Status::Runnable);
    assert_eq!(list.contexts[1].wake, None);
}

#[test]
fn cpu_time_accounting_matches_elapsed() {
    let mut a = runnable_on(1, 0);
    a.running = true;
    a.switch_time = 100;
    a.cpu_time = 40;
    let b = runnable_on(2, 0);
    let mut list = ContextList { contexts: vec![a, b], current: vec![1], next_id: 10 };

    let before: u128 = list.contexts.iter().map(|c| c.cpu_time).sum();
    let r = switch(&mut list, 0, 160);
    assert!(r.next.is_some());
    // The outgoing context is charged exactly the elapsed slice.
    assert_eq!(list.contexts[0].cpu_time, 40 + 60);
    // The incoming context is stamped with the switch time.
    assert_eq!(list.contexts[1].switch_time, 160);
    let after: u128 = list.contexts.iter().map(|c| c.cpu_time).sum();
    assert_eq!(after, before + 60);
    assert!(after >= before);
}

#[test]
fn update_restores_signal_snapshot_bit_for_bit() {
    let mut c = fresh(5);
    c.status = Status::Blocked;
    c.running = false;
    c.arch = ArchContext { ip: 11, sp: 22, arg: 33 };
    c.kfx = vec![1u8; 16];
    c.kstack = Some(KernelStack { base: 0x9000, bytes: vec![0xAA; 32] });
    c.ksig = Some(KSignal {
        arch: ArchContext { ip: 77, sp: 88, arg: 99 },
        kfx: vec![2u8; 16],
        kstack: Some(KernelStack { base: 0x9000, bytes: vec![0x55; 32] }),
        signum: 9,
    });
    c.ksig_restore = true;

    let ipi = update(&mut c, 0, 12345);
    assert!(!ipi);
    // The snapshot comes back exactly.
    assert_eq!(c.arch, ArchContext { ip: 77, sp: 88, arg: 99 });
    assert_eq!(c.kfx, vec![2u8; 16]);
    let st = c.kstack.as_ref().unwrap();
    assert_eq!(st.base, 0x9000);
    assert_eq!(st.bytes, vec![0x55; 32]);
    assert!(c.ksig.is_none());
    assert!(!c.ksig_restore);
    // The restore also unblocks the context.
    assert_eq!(c.status, Status::Runnable);
}

#[test]
fn update_unblocks_on_pending_signal_and_reports_remote_ipi() {
    let mut c = fresh(6);
    c.status = Status::Blocked;
    c.cpu_id = Some(3);
    c.pending = vec![15];
    let ipi = update(&mut c, 0, 1);
    assert_eq!(c.status, Status::Runnable);
    // Owned by CPU 3, woken from CPU 0: a wakeup interrupt is owed.
    assert!(ipi);
}

#[test]
fn switch_delivers_popped_signal() {
    let mut a = runnable_on(1, 0);
    a.running = true;
    let mut b = runnable_on(2, 0);
    b.pending = vec![2, 7];
    b.arch = ArchContext { ip: 400, sp: 500, arg: 0 };
    let mut list = ContextList { contexts: vec![a, b], current: vec![1], next_id: 10 };

    let r = switch(&mut list, 0, 10);
    let o = r.next.expect("B runnable");
    assert_eq!(o.sig, Some(2));
    let bb = &list.contexts[1];
    assert_eq!(bb.pending, vec![7]);
    let k = bb.ksig.as_ref().unwrap();
    assert_eq!(k.signum, 2);
    assert_eq!(k.arch, ArchContext { ip: 400, sp: 500, arg: 0 });
    assert_eq!(bb.arch, ArchContext { ip: SIGNAL_HANDLER_ENTRY, sp: 500, arg: 2 });
}

#[test]
fn switch_skips_other_cpus_contexts() {
    let mut a = runnable_on(1, 0);
    a.running = true;
    let b = runnable_on(2, 1);
    let mut list = ContextList { contexts: vec![a, b], current: vec![1, 2], next_id: 10 };
    let r = switch(&mut list, 0, 5);
    assert!(r.next.is_none());
}

#[test]
fn switch_skips_ptrace_stopped() {
    let mut a = runnable_on(1, 0);
    a.running = true;
    let mut b = runnable_on(2, 0);
    b.ptrace_stop = true;
    let mut list = ContextList { contexts: vec![a, b], current: vec![1], next_id: 10 };
    let r = switch(&mut list, 0, 5);
    assert!(r.next.is_none());
}

#[test]
fn switch_reports_tss_stack_top() {
    let mut a = runnable_on(1, 0);
    a.running = true;
    let mut b = runnable_on(2, 0);
    b.kstack = Some(KernelStack { base: 0x10_000, bytes: vec![0; 0x100] });
    let mut list = ContextList { contexts: vec![a, b], current: vec![1], next_id: 10 };
    let r = switch(&mut list, 0, 5);
    let o = r.next.unwrap();
    assert_eq!(o.tss_stack, Some(0x10_100));
}

#[test]
fn lone_context_has_no_peer() {
    let mut a = runnable_on(1, 0);
    a.running = true;
    let mut list = ContextList { contexts: vec![a], current: vec![1], next_id: 10 };
    let r = switch(&mut list, 0, 7);
    assert!(r.next.is_none());
    assert_eq!(list.current[0], 1);
}

#[test]
fn registry_allocates_monotonic_ids() {
    let mut list = ContextList::new(2);
    let a = list.insert_new();
    let b = list.insert_new();
    let c = list.insert_new();
    assert_eq!((a, b, c), (1, 2, 3));
    assert_eq!(list.current(0), Some(0));
    assert_eq!(list.current(5), None);
    assert_eq!(list.get(2).unwrap().status, Status::Blocked);

    let removed = list.remove(2).unwrap();
    assert_eq!(removed.id, 2);
    assert!(list.get(2).is_none());
    // The freed id is not reused: allocation stays monotonic.
    assert_eq!(list.insert_new(), 4);
    assert!(list.remove(2).is_none());
}

#[test]
fn two_cpus_run_disjoint_contexts() {
    let mut a = runnable_on(1, 0);
    a.running = true;
    let mut b = runnable_on(2, 1);
    b.running = true;
    let c = runnable_on(3, 0);
    let d = runnable_on(4, 1);
    let mut list = ContextList { contexts: vec![a, b, c, d], current: vec![1, 2], next_id: 10 };

    let r0 = switch(&mut list, 0, 100);
    assert_eq!(r0.next.unwrap().next, 3);
    let r1 = switch(&mut list, 1, 200);
    assert_eq!(r1.next.unwrap().next, 4);

    // Each CPU runs exactly one context, and no context runs on both.
    let running: Vec<_> = list.contexts.iter().filter(|c| c.running).collect();
    assert_eq!(running.len(), 2);
    assert_ne!(running[0].cpu_id, running[1].cpu_id);
}

#[test]
fn unclaimed_context_is_claimed_before_selection() {
    let mut a = runnable_on(1, 0);
    a.running = true;
    let mut b = fresh(2);
    b.status = Status::Runnable;
    b.cpu_id = None;
    let mut list = ContextList { contexts: vec![a, b], current: vec![1], next_id: 10 };

    let r = switch(&mut list, 0, 100);
    assert_eq!(r.next.unwrap().next, 2);
    assert_eq!(list.contexts[1].cpu_id, Some(0));
}
