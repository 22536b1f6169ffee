use kcore::context::{Context, FileDescription, FileDescriptor};
use kcore::error::{demux, mux, Error, EAGAIN, EBADF, EINVAL, ENODEV, EOVERFLOW, EPERM};
use kcore::memory::{AddrSpace, FunmapEntry, PROT_READ};
use kcore::scheme::{
    MapInfo, O_NONBLOCK, O_RDONLY, SYS_FMAP, SYS_FUNMAP, SYS_OPEN, SYS_WRITE,
};
use kcore::user::{
    packet_from_bytes, push_packet_bytes, seek_finish, CallerInfo, Packet, ReadOutcome,
    UserInner, UserScheme, PACKET_SIZE,
};
use kcore::PAGE_SIZE;

fn caller() -> CallerInfo {
    CallerInfo { pid: 9, uid: 0, gid: 0 }
}

/// A caller space with pages [2, 5) mapped to frames 7, 8, 9.
fn caller_space() -> AddrSpace {
    let mut s = AddrSpace::new();
    s.mmap(Some(2), vec![7, 8, 9], PROT_READ, true, None).unwrap();
    s
}

#[test]
fn packet_wire_round_trip() {
    let p = Packet { id: 1, pid: 2, uid: 3, gid: 4, a: 5, b: 6, c: 7, d: 0xDEAD_BEEF_0BAD_F00D };
    let mut bytes = Vec::new();
    push_packet_bytes(&mut bytes, &p);
    assert_eq!(bytes.len(), PACKET_SIZE);
    let q = packet_from_bytes(&bytes, 0);
    assert_eq!(p, q);
}

#[test]
fn user_scheme_open_flow() {
    // The caller issues open("disk:/x", O_RDONLY): a packet with a=SYS_OPEN,
    // b=captured path address, c=7, d=O_RDONLY reaches the server; the
    // server replies 42 and the caller's open returns 42.
    let mut inner = UserInner::new(7, 5, "disk", 0);
    let cs = caller_space();
    let mut srv = AddrSpace::new();
    let path_addr = 2 * PAGE_SIZE + 0x10;
    let path_len = 7u64;

    let (id, cap_addr, _ev) = UserScheme::new()
        .open(&mut inner, caller(), &cs, &mut srv, path_addr, path_len, O_RDONLY)
        .unwrap();

    match inner.read(PACKET_SIZE) {
        ReadOutcome::Data(bytes) => {
            let p = packet_from_bytes(&bytes, 0);
            assert_eq!(p.id, id);
            assert_eq!(p.pid, 9);
            assert_eq!(p.a, SYS_OPEN);
            assert_eq!(p.b, cap_addr);
            assert_eq!(p.c, 7);
            assert_eq!(p.d, O_RDONLY);
        },
        _ => panic!("a packet is queued"),
    }

    // Blocking on the id before the reply: keep waiting.
    assert!(inner.call_finish(id).is_none());

    let reply = Packet { id, pid: 0, uid: 0, gid: 0, a: 42, b: 0, c: 0, d: 0 };
    let mut bytes = Vec::new();
    push_packet_bytes(&mut bytes, &reply);
    let mut cs2 = caller_space();
    let (n, _events) = inner.write(&bytes, &mut cs2, &srv).unwrap();
    assert_eq!(n as usize, PACKET_SIZE);

    // Exactly one completion arrives and the caller unblocks with it.
    assert_eq!(inner.call_finish(id), Some(Ok(42)));
    assert!(inner.call_finish(id).is_none());

    // The capture is released once the call is over.
    inner.release(&mut srv, cap_addr).unwrap();
    assert_eq!(srv.grants.len(), 0);
}

#[test]
fn capture_preserves_page_offset() {
    let mut inner = UserInner::new(7, 5, "disk", 0);
    let cs = caller_space();
    let mut srv = AddrSpace::new();
    let addr = inner.capture(&mut srv, &cs, 2 * PAGE_SIZE + 0x234, 0x2000).unwrap();
    // Offset within the page is preserved; pages [2, 5) are covered.
    assert_eq!(addr % PAGE_SIZE, 0x234);
    assert_eq!(srv.grants.len(), 1);
    assert_eq!(srv.grants[0].frames, vec![7, 8, 9]);
    inner.release(&mut srv, addr).unwrap();
    assert_eq!(srv.grants.len(), 0);
}

#[test]
fn zero_length_capture_returns_dangling() {
    // capture(buf, 0) returns the dangling sentinel; release(dangling) is
    // Ok; no grant is created.
    let mut inner = UserInner::new(7, 5, "disk", 0);
    let cs = caller_space();
    let mut srv = AddrSpace::new();
    let addr = inner.capture(&mut srv, &cs, 2 * PAGE_SIZE, 0).unwrap();
    assert_eq!(addr, kcore::DANGLING);
    assert_eq!(srv.grants.len(), 0);
    assert_eq!(inner.release(&mut srv, kcore::DANGLING), Ok(()));
    assert_eq!(srv.grants.len(), 0);
}

#[test]
fn fmap_completion_shares_frames_and_funmap_translates_back() {
    let mut inner = UserInner::new(7, 5, "disk", 0);
    inner.scheme_id = 1;
    let mut caller_ctx = Context::new(9);
    caller_ctx.files.push(Some(FileDescriptor {
        description: FileDescription { namespace: 0, scheme: 1, number: 3, flags: 0 },
        cloexec: false,
    }));
    let mut cs = AddrSpace::new();
    // The server has [S, S + 0x2000) mapped at page 16 to frames 100, 101.
    let mut srv = AddrSpace::new();
    let s_addr = 16 * PAGE_SIZE;
    srv.mmap(Some(16), vec![100, 101], PROT_READ, true, None).unwrap();

    let map = MapInfo { address: 0, size: 8192, offset: 0, flags: PROT_READ };
    let (id, _ev) = UserScheme::new().fmap(&mut inner, &caller_ctx, 3, &map).unwrap();

    match inner.read(PACKET_SIZE) {
        ReadOutcome::Data(bytes) => {
            let p = packet_from_bytes(&bytes, 0);
            assert_eq!(p.a, SYS_FMAP);
            assert_eq!(p.b, 3);
            assert_eq!(p.d, 8192);
        },
        _ => panic!("the fmap packet is queued"),
    }

    // The server replies with its local address S.
    let reply = Packet { id, pid: 0, uid: 0, gid: 0, a: s_addr, b: 0, c: 0, d: 0 };
    let mut bytes = Vec::new();
    push_packet_bytes(&mut bytes, &reply);
    inner.write(&bytes, &mut cs, &srv).unwrap();

    let u_addr = match inner.call_finish(id) {
        Some(Ok(u)) => u,
        other => panic!("fmap completes: {other:?}"),
    };
    // The caller's first page resolves to the same physical frame as S's.
    let (caller_frame, _) = cs.translate(u_addr / PAGE_SIZE).unwrap();
    let (server_frame, _) = srv.translate(s_addr / PAGE_SIZE).unwrap();
    assert_eq!(caller_frame, server_frame);
    assert_eq!(caller_frame, 100);

    // funmap(U, 8192) turns into one SYS_FUNMAP packet with address S.
    let (id2, _ev) =
        UserScheme::new().funmap(&mut inner, caller(), &mut cs, u_addr, 8192).unwrap();
    match inner.read(PACKET_SIZE) {
        ReadOutcome::Data(bytes) => {
            let p = packet_from_bytes(&bytes, 0);
            assert_eq!(p.id, id2);
            assert_eq!(p.a, SYS_FUNMAP);
            assert_eq!(p.b, s_addr);
            assert_eq!(p.c, 8192);
        },
        _ => panic!("the funmap packet is queued"),
    }
    // The funmap entry is consumed: a second funmap finds nothing.
    assert_eq!(
        UserScheme::new().funmap(&mut inner, caller(), &mut cs, u_addr, 8192),
        Err(Error { errno: EINVAL })
    );
}

#[test]
fn fmap_without_matching_file_is_ebadf() {
    let mut inner = UserInner::new(7, 5, "disk", 0);
    inner.scheme_id = 1;
    let caller_ctx = Context::new(9);
    let map = MapInfo { address: 0, size: 4096, offset: 0, flags: PROT_READ };
    assert_eq!(
        UserScheme::new().fmap(&mut inner, &caller_ctx, 3, &map),
        Err(Error { errno: EBADF })
    );
}

#[test]
fn read_decisions_without_packets() {
    // Blocking handle: sleep. Non-blocking: EAGAIN. Unmounting: EOF.
    let mut blocking = UserInner::new(7, 5, "disk", 0);
    assert!(matches!(blocking.read(PACKET_SIZE), ReadOutcome::Block));

    let mut nonblocking = UserInner::new(7, 5, "disk", O_NONBLOCK);
    assert!(matches!(nonblocking.read(PACKET_SIZE), ReadOutcome::Again));

    let mut unmounting = UserInner::new(7, 5, "disk", 0);
    unmounting.unmount();
    assert!(matches!(unmounting.read(PACKET_SIZE), ReadOutcome::Eof));
}

#[test]
fn call_while_unmounting_is_enodev() {
    let mut inner = UserInner::new(7, 5, "disk", 0);
    inner.unmount();
    assert_eq!(
        inner.call(caller(), SYS_WRITE, 1, 2, 3),
        Err(Error { errno: ENODEV })
    );
}

#[test]
fn write_rejects_partial_packets() {
    let mut inner = UserInner::new(7, 5, "disk", 0);
    let mut cs = AddrSpace::new();
    let srv = AddrSpace::new();
    let bytes = vec![0u8; PACKET_SIZE - 1];
    assert_eq!(
        inner.write(&bytes, &mut cs, &srv),
        Err(Error { errno: EINVAL })
    );
}

#[test]
fn packets_deliver_in_submission_order() {
    let mut inner = UserInner::new(7, 5, "disk", 0);
    let (id1, _) = inner.call(caller(), SYS_WRITE, 1, 0, 0).unwrap();
    let (id2, _) = inner.call(caller(), SYS_WRITE, 2, 0, 0).unwrap();
    assert!(id1 < id2);
    match inner.read(2 * PACKET_SIZE) {
        ReadOutcome::Data(bytes) => {
            assert_eq!(bytes.len(), 2 * PACKET_SIZE);
            let p1 = packet_from_bytes(&bytes, 0);
            let p2 = packet_from_bytes(&bytes, PACKET_SIZE);
            assert_eq!(p1.id, id1);
            assert_eq!(p2.id, id2);
        },
        _ => panic!("two packets are queued"),
    }
}

#[test]
fn out_of_order_completions_reach_their_callers() {
    let mut inner = UserInner::new(7, 5, "disk", 0);
    let mut cs = AddrSpace::new();
    let srv = AddrSpace::new();
    let (id1, _) = inner.call(caller(), SYS_WRITE, 1, 0, 0).unwrap();
    let (id2, _) = inner.call(caller(), SYS_WRITE, 2, 0, 0).unwrap();
    inner.read(2 * PACKET_SIZE);
    // The server completes the second request first.
    let mut bytes = Vec::new();
    push_packet_bytes(&mut bytes, &Packet { id: id2, pid: 0, uid: 0, gid: 0, a: 22, b: 0, c: 0, d: 0 });
    push_packet_bytes(&mut bytes, &Packet { id: id1, pid: 0, uid: 0, gid: 0, a: 11, b: 0, c: 0, d: 0 });
    inner.write(&bytes, &mut cs, &srv).unwrap();
    assert_eq!(inner.call_finish(id1), Some(Ok(11)));
    assert_eq!(inner.call_finish(id2), Some(Ok(22)));
}

#[test]
fn server_error_replies_decode() {
    let mut inner = UserInner::new(7, 5, "disk", 0);
    let mut cs = AddrSpace::new();
    let srv = AddrSpace::new();
    let (id, _) = inner.call(caller(), SYS_OPEN, 0, 0, 0).unwrap();
    inner.read(PACKET_SIZE);
    let word = mux(Err(Error { errno: EINVAL }));
    let mut bytes = Vec::new();
    push_packet_bytes(&mut bytes, &Packet { id, pid: 0, uid: 0, gid: 0, a: word, b: 0, c: 0, d: 0 });
    inner.write(&bytes, &mut cs, &srv).unwrap();
    assert_eq!(inner.call_finish(id), Some(Err(Error { errno: EINVAL })));
}

#[test]
fn fevent_retarget_yields_scheme_event() {
    let mut inner = UserInner::new(7, 5, "disk", 0);
    inner.scheme_id = 4;
    let mut cs = AddrSpace::new();
    let srv = AddrSpace::new();
    let mut bytes = Vec::new();
    push_packet_bytes(&mut bytes, &Packet {
        id: 0,
        pid: 0,
        uid: 0,
        gid: 0,
        a: kcore::scheme::SYS_FEVENT,
        b: 77,
        c: 1,
        d: 0,
    });
    let (_n, events) = inner.write(&bytes, &mut cs, &srv).unwrap();
    assert_eq!(events.len(), 1);
    assert_eq!(events[0].scheme, 4);
    assert_eq!(events[0].id, 77);
    assert_eq!(events[0].flags, 1);
}

#[test]
fn fchown_requires_matching_ids_for_non_root() {
    let mut inner = UserInner::new(7, 5, "disk", 0);
    let non_root = CallerInfo { pid: 9, uid: 100, gid: 100 };
    assert_eq!(
        UserScheme::new().fchown(&mut inner, non_root, 1, 0, 0),
        Err(Error { errno: EPERM })
    );
    // Naming its own ids is allowed.
    assert!(UserScheme::new().fchown(&mut inner, non_root, 1, 100, 100).is_ok());
    // Root may give a file away.
    assert!(UserScheme::new().fchown(&mut inner, caller(), 1, 123, 456).is_ok());
}

#[test]
fn seek_result_overflow() {
    assert_eq!(seek_finish(1 << 40), Ok(1 << 40));
    assert_eq!(seek_finish(u64::MAX - 10_000), Err(Error { errno: EOVERFLOW }));
}

#[test]
fn sign_encoding_is_bijective() {
    assert_eq!(demux(mux(Ok(0))), Ok(0));
    assert_eq!(demux(mux(Ok(42))), Ok(42));
    let e = Error { errno: EAGAIN };
    assert_eq!(demux(mux(Err(e))), Err(e));
    assert_eq!(mux(Err(Error { errno: 1 })), u64::MAX);
}

#[test]
fn read_with_short_buffer_does_not_drain() {
    let mut inner = UserInner::new(7, 5, "disk", O_NONBLOCK);
    inner.call(caller(), SYS_OPEN, 0, 0, 0).unwrap();
    // A buffer below one packet takes nothing and reports would-block.
    assert!(matches!(inner.read(PACKET_SIZE - 1), ReadOutcome::Again));
    // The packet is still there for a full-sized read.
    assert!(matches!(inner.read(PACKET_SIZE), ReadOutcome::Data(_)));
}

#[test]
fn funmap_of_a_sub_range_splits_the_entry() {
    let mut inner = UserInner::new(7, 5, "disk", 0);
    let mut cs = AddrSpace::new();
    // One mapping of four pages at 0x10000, backed by server memory at
    // 0x50000.
    cs.funmap.push(FunmapEntry { base: 0x10000, size: 0x4000, server_base: 0x50000 });

    // Unmapping the second page alone leaves the pages before and after,
    // rebased onto the server's addresses.
    let (_, _ev) = UserScheme::new()
        .funmap(&mut inner, caller(), &mut cs, 0x11000, 0x1000)
        .unwrap();
    assert_eq!(cs.funmap.len(), 2);
    assert_eq!(cs.funmap[0], FunmapEntry { base: 0x10000, size: 0x1000, server_base: 0x50000 });
    assert_eq!(cs.funmap[1], FunmapEntry { base: 0x12000, size: 0x2000, server_base: 0x52000 });

    // A range reaching past the entry is malformed.
    assert_eq!(
        UserScheme::new().funmap(&mut inner, caller(), &mut cs, 0x12000, 0x9000),
        Err(Error { errno: EINVAL })
    );
}

#[test]
fn server_handle_fevent_and_fsync_are_trivial() {
    let inner = UserInner::new(7, 5, "disk", 0);
    assert_eq!(inner.fevent(1), Ok(0));
    assert_eq!(inner.fsync(), Ok(0));
}

#[test]
fn one_batch_mixes_events_and_completions() {
    let mut inner = UserInner::new(7, 5, "disk", 0);
    inner.scheme_id = 4;
    let mut cs = AddrSpace::new();
    let srv = AddrSpace::new();
    let (id, _) = inner.call(caller(), SYS_WRITE, 1, 0, 0).unwrap();
    inner.read(PACKET_SIZE);

    // One write carries a file-event retarget followed by the completion.
    let mut bytes = Vec::new();
    push_packet_bytes(&mut bytes, &Packet {
        id: 0,
        pid: 0,
        uid: 0,
        gid: 0,
        a: kcore::scheme::SYS_FEVENT,
        b: 9,
        c: 2,
        d: 0,
    });
    push_packet_bytes(&mut bytes, &Packet { id, pid: 0, uid: 0, gid: 0, a: 7, b: 0, c: 0, d: 0 });
    let (n, events) = inner.write(&bytes, &mut cs, &srv).unwrap();
    assert_eq!(n as usize, 2 * PACKET_SIZE);
    assert_eq!(events.len(), 1);
    assert_eq!(events[0].id, 9);
    // The completion carries the server's reply word, not a stand-in.
    assert_eq!(inner.call_finish(id), Some(Ok(7)));
}
