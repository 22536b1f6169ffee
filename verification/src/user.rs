//! The user-scheme bridge: a user-space server implements a scheme, the
//! kernel forwards each call as a fixed-size packet and blocks the caller
//! on its completion.
//!
//! Blocking itself lives with the caller of this module: the functions
//! here decide, move packets and completions, and report the
//! readable-event notices owed to pollers.
use vstd::prelude::*;

use crate::context::{Context, FileDescriptor};
use crate::error::{
    spec_demux, Error, EBADF, EINVAL, ENODEV, EOVERFLOW, EPERM,
};
use crate::memory::{
    capture_error, capture_grants_into, capture_succeeds_at, capture_to, captured_into_at,
    release, space_wf, AddrSpace, FunmapEntry, GrantFileRef, PROT_READ, PROT_WRITE,
};
use crate::scheme::{
    MapInfo, SYS_CLOSE, SYS_DUP, SYS_FCHMOD, SYS_FCHOWN, SYS_FCNTL, SYS_FEVENT, SYS_FMAP,
    SYS_FPATH, SYS_FRENAME, SYS_FSTAT, SYS_FSTATVFS, SYS_FSYNC, SYS_FTRUNCATE, SYS_FUNMAP,
    SYS_FUTIMENS, SYS_LSEEK, SYS_OPEN, SYS_READ, SYS_RMDIR, SYS_UNLINK, SYS_WRITE,
};
use crate::{PAGE_SIZE, USER_END_OFFSET};

verus! {

/// Readable-data bit posted to a scheme handle's poller.
pub const EVENT_READ: u64 = 1;

/// Bytes of one packet on the wire.
pub const PACKET_SIZE: usize = 56;

/// The fixed record crossing the kernel and server boundary: the request id
/// (zero marks a server-to-kernel event), the caller's identity, and four
/// words that carry the syscall number or reply and its arguments.
#[derive(Copy, Clone, Debug, PartialEq, Eq, Structural)]
pub struct Packet {
    pub id: u64,
    pub pid: u64,
    pub uid: u32,
    pub gid: u32,
    pub a: u64,
    pub b: u64,
    pub c: u64,
    pub d: u64,
}

/// The eight little-endian bytes of a word.
pub open spec fn u64_le_bytes(x: u64) -> Seq<u8> {
    seq![
        (x & 0xFF) as u8,
        ((x >> 8) & 0xFF) as u8,
        ((x >> 16) & 0xFF) as u8,
        ((x >> 24) & 0xFF) as u8,
        ((x >> 32) & 0xFF) as u8,
        ((x >> 40) & 0xFF) as u8,
        ((x >> 48) & 0xFF) as u8,
        ((x >> 56) & 0xFF) as u8,
    ]
}

/// The four little-endian bytes of a half word.
pub open spec fn u32_le_bytes(x: u32) -> Seq<u8> {
    seq![(x & 0xFF) as u8, ((x >> 8) & 0xFF) as u8, ((x >> 16) & 0xFF) as u8, ((x >> 24)
        & 0xFF) as u8]
}

/// The word eight little-endian bytes spell.
pub open spec fn u64_from_le(s: Seq<u8>) -> u64 {
    (s[0] as u64) | (s[1] as u64) << 8 | (s[2] as u64) << 16 | (s[3] as u64) << 24 | (
    s[4] as u64) << 32 | (s[5] as u64) << 40 | (s[6] as u64) << 48 | (s[7] as u64) << 56
}

/// The half word four little-endian bytes spell.
pub open spec fn u32_from_le(s: Seq<u8>) -> u32 {
    (s[0] as u32) | (s[1] as u32) << 8 | (s[2] as u32) << 16 | (s[3] as u32) << 24
}

/// The 56-byte wire layout of a packet: id, pid, uid, gid, then the four
/// data words, each little-endian.
pub open spec fn packet_bytes(p: Packet) -> Seq<u8> {
    u64_le_bytes(p.id) + u64_le_bytes(p.pid) + u32_le_bytes(p.uid) + u32_le_bytes(p.gid)
        + u64_le_bytes(p.a) + u64_le_bytes(p.b) + u64_le_bytes(p.c) + u64_le_bytes(p.d)
}

/// The packet 56 wire bytes spell.
pub open spec fn packet_from_bytes_spec(s: Seq<u8>) -> Packet {
    Packet {
        id: u64_from_le(s.subrange(0, 8)),
        pid: u64_from_le(s.subrange(8, 16)),
        uid: u32_from_le(s.subrange(16, 20)),
        gid: u32_from_le(s.subrange(20, 24)),
        a: u64_from_le(s.subrange(24, 32)),
        b: u64_from_le(s.subrange(32, 40)),
        c: u64_from_le(s.subrange(40, 48)),
        d: u64_from_le(s.subrange(48, 56)),
    }
}

/// Decoding eight little-endian bytes gives back the word they encode.
pub proof fn lemma_u64_le_round_trip(x: u64)
    ensures
        u64_from_le(u64_le_bytes(x)) == x,
{
    let b0 = (x & 0xFF) as u8;
    let b1 = ((x >> 8) & 0xFF) as u8;
    let b2 = ((x >> 16) & 0xFF) as u8;
    let b3 = ((x >> 24) & 0xFF) as u8;
    let b4 = ((x >> 32) & 0xFF) as u8;
    let b5 = ((x >> 40) & 0xFF) as u8;
    let b6 = ((x >> 48) & 0xFF) as u8;
    let b7 = ((x >> 56) & 0xFF) as u8;
    assert((b0 as u64) | (b1 as u64) << 8 | (b2 as u64) << 16 | (b3 as u64) << 24 | (b4 as u64)
        << 32 | (b5 as u64) << 40 | (b6 as u64) << 48 | (b7 as u64) << 56 == x) by (bit_vector)
        requires
            b0 == (x & 0xFF) as u8,
            b1 == ((x >> 8) & 0xFF) as u8,
            b2 == ((x >> 16) & 0xFF) as u8,
            b3 == ((x >> 24) & 0xFF) as u8,
            b4 == ((x >> 32) & 0xFF) as u8,
            b5 == ((x >> 40) & 0xFF) as u8,
            b6 == ((x >> 48) & 0xFF) as u8,
            b7 == ((x >> 56) & 0xFF) as u8,
    ;
}

/// Decoding four little-endian bytes gives back the half word they encode.
pub proof fn lemma_u32_le_round_trip(x: u32)
    ensures
        u32_from_le(u32_le_bytes(x)) == x,
{
    let b0 = (x & 0xFF) as u8;
    let b1 = ((x >> 8) & 0xFF) as u8;
    let b2 = ((x >> 16) & 0xFF) as u8;
    let b3 = ((x >> 24) & 0xFF) as u8;
    assert((b0 as u32) | (b1 as u32) << 8 | (b2 as u32) << 16 | (b3 as u32) << 24 == x) by (
    bit_vector)
        requires
            b0 == (x & 0xFF) as u8,
            b1 == ((x >> 8) & 0xFF) as u8,
            b2 == ((x >> 16) & 0xFF) as u8,
            b3 == ((x >> 24) & 0xFF) as u8,
    ;
}

/// A packet survives the wire: decoding its bytes gives the same packet.
pub proof fn lemma_packet_round_trip(p: Packet)
    ensures
        packet_from_bytes_spec(packet_bytes(p)) == p,
{
    let s = packet_bytes(p);
    assert(s.subrange(0, 8) =~= u64_le_bytes(p.id));
    assert(s.subrange(8, 16) =~= u64_le_bytes(p.pid));
    assert(s.subrange(16, 20) =~= u32_le_bytes(p.uid));
    assert(s.subrange(20, 24) =~= u32_le_bytes(p.gid));
    assert(s.subrange(24, 32) =~= u64_le_bytes(p.a));
    assert(s.subrange(32, 40) =~= u64_le_bytes(p.b));
    assert(s.subrange(40, 48) =~= u64_le_bytes(p.c));
    assert(s.subrange(48, 56) =~= u64_le_bytes(p.d));
    lemma_u64_le_round_trip(p.id);
    lemma_u64_le_round_trip(p.pid);
    lemma_u32_le_round_trip(p.uid);
    lemma_u32_le_round_trip(p.gid);
    lemma_u64_le_round_trip(p.a);
    lemma_u64_le_round_trip(p.b);
    lemma_u64_le_round_trip(p.c);
    lemma_u64_le_round_trip(p.d);
}

/// Append the eight little-endian bytes of a word.
fn push_u64_le(out: &mut Vec<u8>, x: u64)
    ensures
        final(out)@ == old(out)@ + u64_le_bytes(x),
{
    proof {
        assert((x & 0xFF) <= 0xFF && ((x >> 8) & 0xFF) <= 0xFF && ((x >> 16) & 0xFF) <= 0xFF && ((
        x >> 24) & 0xFF) <= 0xFF && ((x >> 32) & 0xFF) <= 0xFF && ((x >> 40) & 0xFF) <= 0xFF && ((
        x >> 48) & 0xFF) <= 0xFF && ((x >> 56) & 0xFF) <= 0xFF) by (bit_vector);
    }
    out.push((x & 0xFF) as u8);
    out.push(((x >> 8) & 0xFF) as u8);
    out.push(((x >> 16) & 0xFF) as u8);
    out.push(((x >> 24) & 0xFF) as u8);
    out.push(((x >> 32) & 0xFF) as u8);
    out.push(((x >> 40) & 0xFF) as u8);
    out.push(((x >> 48) & 0xFF) as u8);
    out.push(((x >> 56) & 0xFF) as u8);
    proof {
        assert(out@ =~= old(out)@ + u64_le_bytes(x));
    }
}

/// Append the four little-endian bytes of a half word.
fn push_u32_le(out: &mut Vec<u8>, x: u32)
    ensures
        final(out)@ == old(out)@ + u32_le_bytes(x),
{
    proof {
        assert((x & 0xFF) <= 0xFF && ((x >> 8) & 0xFF) <= 0xFF && ((x >> 16) & 0xFF) <= 0xFF && ((
        x >> 24) & 0xFF) <= 0xFF) by (bit_vector);
    }
    out.push((x & 0xFF) as u8);
    out.push(((x >> 8) & 0xFF) as u8);
    out.push(((x >> 16) & 0xFF) as u8);
    out.push(((x >> 24) & 0xFF) as u8);
    proof {
        assert(out@ =~= old(out)@ + u32_le_bytes(x));
    }
}

/// Append a packet's 56 wire bytes.
pub fn push_packet_bytes(out: &mut Vec<u8>, p: &Packet)
    ensures
        final(out)@ == old(out)@ + packet_bytes(*p),
{
    push_u64_le(out, p.id);
    push_u64_le(out, p.pid);
    push_u32_le(out, p.uid);
    push_u32_le(out, p.gid);
    push_u64_le(out, p.a);
    push_u64_le(out, p.b);
    push_u64_le(out, p.c);
    push_u64_le(out, p.d);
    proof {
        assert(out@ =~= old(out)@ + packet_bytes(*p));
    }
}

/// Read the word at `at`, little-endian.
fn read_u64_le(buf: &Vec<u8>, at: usize) -> (r: u64)
    requires
        at + 8 <= buf@.len() <= usize::MAX,
    ensures
        r == u64_from_le(buf@.subrange(at as int, at as int + 8)),
{
    let r = (buf[at] as u64) | (buf[at + 1] as u64) << 8 | (buf[at + 2] as u64) << 16 | (buf[at
        + 3] as u64) << 24 | (buf[at + 4] as u64) << 32 | (buf[at + 5] as u64) << 40 | (buf[at
        + 6] as u64) << 48 | (buf[at + 7] as u64) << 56;
    proof {
        let s = buf@.subrange(at as int, at as int + 8);
        assert(s[0] == buf@[at as int] && s[1] == buf@[at as int + 1] && s[2] == buf@[at as int
            + 2] && s[3] == buf@[at as int + 3] && s[4] == buf@[at as int + 4] && s[5] == buf@[
        at as int + 5] && s[6] == buf@[at as int + 6] && s[7] == buf@[at as int + 7]);
    }
    r
}

/// Read the half word at `at`, little-endian.
fn read_u32_le(buf: &Vec<u8>, at: usize) -> (r: u32)
    requires
        at + 4 <= buf@.len() <= usize::MAX,
    ensures
        r == u32_from_le(buf@.subrange(at as int, at as int + 4)),
{
    let r = (buf[at] as u32) | (buf[at + 1] as u32) << 8 | (buf[at + 2] as u32) << 16 | (buf[at
        + 3] as u32) << 24;
    proof {
        let s = buf@.subrange(at as int, at as int + 4);
        assert(s[0] == buf@[at as int] && s[1] == buf@[at as int + 1] && s[2] == buf@[at as int
            + 2] && s[3] == buf@[at as int + 3]);
    }
    r
}

/// Decode the packet whose 56 wire bytes start at `at`.
pub fn packet_from_bytes(buf: &Vec<u8>, at: usize) -> (p: Packet)
    requires
        at + PACKET_SIZE <= buf@.len() <= usize::MAX,
    ensures
        p == packet_from_bytes_spec(buf@.subrange(at as int, at as int + PACKET_SIZE)),
{
    let p = Packet {
        id: read_u64_le(buf, at),
        pid: read_u64_le(buf, at + 8),
        uid: read_u32_le(buf, at + 16),
        gid: read_u32_le(buf, at + 20),
        a: read_u64_le(buf, at + 24),
        b: read_u64_le(buf, at + 32),
        c: read_u64_le(buf, at + 40),
        d: read_u64_le(buf, at + 48),
    };
    proof {
        let s = buf@.subrange(at as int, at as int + PACKET_SIZE);
        assert(s.subrange(0, 8) =~= buf@.subrange(at as int, at as int + 8));
        assert(s.subrange(8, 16) =~= buf@.subrange(at as int + 8, at as int + 16));
        assert(s.subrange(16, 20) =~= buf@.subrange(at as int + 16, at as int + 20));
        assert(s.subrange(20, 24) =~= buf@.subrange(at as int + 20, at as int + 24));
        assert(s.subrange(24, 32) =~= buf@.subrange(at as int + 24, at as int + 32));
        assert(s.subrange(32, 40) =~= buf@.subrange(at as int + 32, at as int + 40));
        assert(s.subrange(40, 48) =~= buf@.subrange(at as int + 40, at as int + 48));
        assert(s.subrange(48, 56) =~= buf@.subrange(at as int + 48, at as int + 56));
    }
    p
}

/// An event owed to a poller: post `flags` for handle `id` of scheme
/// `scheme`. The caller delivers it once the state change commits.
#[derive(Copy, Clone, Debug, PartialEq, Eq, Structural)]
pub struct SchemeEvent {
    pub scheme: u64,
    pub id: u64,
    pub flags: u64,
}

/// Identity of the context a call is made for: its id and effective
/// credentials.
#[derive(Copy, Clone, Debug, PartialEq, Eq, Structural)]
pub struct CallerInfo {
    pub pid: u64,
    pub uid: u32,
    pub gid: u32,
}

/// A file mapping awaiting the server's reply: who asked, through which
/// descriptor, and what was requested.
#[derive(Copy, Clone, Debug, PartialEq, Eq, Structural)]
pub struct FmapRegistration {
    pub caller: u64,
    pub desc: FileDescriptor,
    pub map: MapInfo,
}

/// Kernel-side state of one mounted user scheme: the queue of requests the
/// server has not read yet, the completions callers have not picked up, the
/// pending file mappings, and the id counter behind every request.
pub struct UserInner {
    /// Scheme under which the server's own handle lives.
    pub root_id: u64,
    /// The server's handle id under that scheme.
    pub handle_id: u64,
    /// Name the scheme was mounted as.
    pub name: &'static str,
    /// Open flags of the server's handle.
    pub flags: u64,
    /// Scheme id this bridge serves.
    pub scheme_id: u64,
    /// Next request id; ids start at one and never repeat.
    pub next_id: u64,
    /// Requests awaiting the server, oldest first.
    pub todo: Vec<Packet>,
    /// Pending file mappings by request id.
    pub fmap: Vec<(u64, FmapRegistration)>,
    /// Completions awaiting their caller, as (request id, reply word).
    pub done: Vec<(u64, u64)>,
    /// The scheme is being unmounted: new calls are turned away and the
    /// server reads end-of-file once the queue drains.
    pub unmounting: bool,
}

/// Request ids are non-zero, below the counter, and never repeated among
/// queued requests or pending mappings.
pub open spec fn inner_wf(u: UserInner) -> bool {
    &&& 1 <= u.next_id
    &&& forall|i: int| 0 <= i < u.todo@.len() ==> 1 <= (#[trigger] u.todo@[i]).id < u.next_id
    &&& forall|i: int, j: int|
        0 <= i < j < u.todo@.len() ==> u.todo@[i].id != u.todo@[j].id
    &&& forall|i: int| 0 <= i < u.fmap@.len() ==> 1 <= (#[trigger] u.fmap@[i]).0 < u.next_id
    &&& forall|i: int, j: int|
        0 <= i < j < u.fmap@.len() ==> u.fmap@[i].0 != u.fmap@[j].0
}

/// A completion for `id` is waiting.
pub open spec fn done_has(s: Seq<(u64, u64)>, id: u64) -> bool {
    exists|i: int| 0 <= i < s.len() && s[i].0 == id
}

/// A mapping registration for `id` is pending.
pub open spec fn fmap_has(s: Seq<(u64, FmapRegistration)>, id: u64) -> bool {
    exists|i: int| 0 <= i < s.len() && s[i].0 == id
}

/// The position of the pending registration for `id`.
pub open spec fn fmap_index(s: Seq<(u64, FmapRegistration)>, id: u64) -> int {
    choose|i: int| 0 <= i < s.len() && s[i].0 == id
}

/// Everything but the four queues and the id counter is unchanged.
pub open spec fn inner_eq_config(a: UserInner, b: UserInner) -> bool {
    &&& a.root_id == b.root_id
    &&& a.handle_id == b.handle_id
    &&& a.name == b.name
    &&& a.flags == b.flags
    &&& a.scheme_id == b.scheme_id
    &&& a.unmounting == b.unmounting
}

/// The wire bytes of a run of packets, in order.
pub open spec fn packets_wire(ps: Seq<Packet>) -> Seq<u8>
    decreases ps.len(),
{
    if ps.len() == 0 {
        Seq::empty()
    } else {
        packets_wire(ps.drop_last()) + packet_bytes(ps.last())
    }
}

/// What a server's `read` decides: packets, end-of-file on unmount, would
/// block on a non-blocking handle, or sleep and retry once woken.
pub enum ReadOutcome {
    Data(Vec<u8>),
    Eof,
    Again,
    Block,
}

impl UserInner {
    pub fn new(root_id: u64, handle_id: u64, name: &'static str, flags: u64) -> (r: UserInner)
        ensures
            inner_wf(r),
            r.root_id == root_id,
            r.handle_id == handle_id,
            r.name == name,
            r.flags == flags,
            r.scheme_id == 0,
            r.next_id == 1,
            r.todo@.len() == 0,
            r.fmap@.len() == 0,
            r.done@.len() == 0,
            !r.unmounting,
    {
        UserInner {
            root_id,
            handle_id,
            name,
            flags,
            scheme_id: 0,
            next_id: 1,
            todo: Vec::new(),
            fmap: Vec::new(),
            done: Vec::new(),
            unmounting: false,
        }
    }

    /// Begin unmounting: turn new calls away, and hand back the readable
    /// notice that wakes a blocked server so it can read end-of-file.
    pub fn unmount(&mut self) -> (r: SchemeEvent)
        ensures
            final(self).unmounting,
            final(self).next_id == old(self).next_id,
            final(self).todo == old(self).todo,
            final(self).fmap == old(self).fmap,
            final(self).done == old(self).done,
            final(self).root_id == old(self).root_id,
            final(self).handle_id == old(self).handle_id,
            final(self).name == old(self).name,
            final(self).flags == old(self).flags,
            final(self).scheme_id == old(self).scheme_id,
            r == (SchemeEvent {
                scheme: old(self).root_id,
                id: old(self).handle_id,
                flags: EVENT_READ,
            }),
    {
        self.unmounting = true;
        SchemeEvent { scheme: self.root_id, id: self.handle_id, flags: EVENT_READ }
    }

    /// Take the next fresh request id.
    fn alloc_id(&mut self) -> (r: u64)
        requires
            old(self).next_id < u64::MAX,
        ensures
            r == old(self).next_id,
            final(self).next_id == old(self).next_id + 1,
            final(self).todo == old(self).todo,
            final(self).fmap == old(self).fmap,
            final(self).done == old(self).done,
            inner_eq_config(*final(self), *old(self)),
    {
        let id = self.next_id;
        self.next_id = self.next_id + 1;
        id
    }

    /// Submit a call on behalf of `caller`: queue a packet with a fresh id
    /// and hand back that id, which the caller then blocks on, and the
    /// readable notice owed to the server. `ENODEV` turns the call away
    /// while the scheme is unmounting.
    pub fn call(&mut self, caller: CallerInfo, a: u64, b: u64, c: u64, d: u64) -> (r: Result<
        (u64, SchemeEvent),
        Error,
    >)
        requires
            inner_wf(*old(self)),
            old(self).next_id < u64::MAX,
        ensures
            inner_wf(*final(self)),
            final(self).next_id == old(self).next_id + 1,
            final(self).fmap == old(self).fmap,
            final(self).done == old(self).done,
            inner_eq_config(*final(self), *old(self)),
            old(self).unmounting ==> r == Err::<(u64, SchemeEvent), Error>(
                Error { errno: ENODEV },
            ) && final(self).todo == old(self).todo,
            !old(self).unmounting ==> {
                &&& r == Ok::<(u64, SchemeEvent), Error>(
                    (
                        old(self).next_id,
                        SchemeEvent {
                            scheme: old(self).root_id,
                            id: old(self).handle_id,
                            flags: EVENT_READ,
                        },
                    ),
                )
                &&& final(self).todo@ == old(self).todo@.push(
                    Packet {
                        id: old(self).next_id,
                        pid: caller.pid,
                        uid: caller.uid,
                        gid: caller.gid,
                        a,
                        b,
                        c,
                        d,
                    },
                )
            },
    {
        let id = self.alloc_id();
        let packet = Packet { id, pid: caller.pid, uid: caller.uid, gid: caller.gid, a, b, c, d };
        self.call_inner(packet)
    }

    /// Queue an already-built packet, unless the scheme is unmounting.
    fn call_inner(&mut self, packet: Packet) -> (r: Result<(u64, SchemeEvent), Error>)
        requires
            forall|i: int|
                0 <= i < old(self).todo@.len() ==> 1 <= (#[trigger] old(self).todo@[i]).id,
            forall|i: int|
                0 <= i < old(self).todo@.len() ==> (#[trigger] old(self).todo@[i]).id
                    != packet.id,
            forall|i: int, j: int|
                0 <= i < j < old(self).todo@.len() ==> old(self).todo@[i].id != old(
                    self,
                ).todo@[j].id,
            1 <= packet.id,
        ensures
            final(self).next_id == old(self).next_id,
            final(self).fmap == old(self).fmap,
            final(self).done == old(self).done,
            inner_eq_config(*final(self), *old(self)),
            old(self).unmounting ==> r == Err::<(u64, SchemeEvent), Error>(
                Error { errno: ENODEV },
            ) && final(self).todo == old(self).todo,
            !old(self).unmounting ==> {
                &&& r == Ok::<(u64, SchemeEvent), Error>(
                    (
                        packet.id,
                        SchemeEvent {
                            scheme: old(self).root_id,
                            id: old(self).handle_id,
                            flags: EVENT_READ,
                        },
                    ),
                )
                &&& final(self).todo@ == old(self).todo@.push(packet)
            },
    {
        if self.unmounting {
            return Err(Error::new(ENODEV));
        }
        let id = packet.id;
        self.todo.push(packet);
        Ok((id, SchemeEvent { scheme: self.root_id, id: self.handle_id, flags: EVENT_READ }))
    }

    /// Pick up the completion of request `id`, decoding the reply word:
    /// how a blocked caller unblocks. Nothing yet for this id means keep
    /// waiting.
    pub fn call_finish(&mut self, id: u64) -> (r: Option<Result<u64, Error>>)
        ensures
            final(self).next_id == old(self).next_id,
            final(self).todo == old(self).todo,
            final(self).fmap == old(self).fmap,
            inner_eq_config(*final(self), *old(self)),
            r is None ==> !done_has(old(self).done@, id) && final(self).done == old(self).done,
            r is Some ==> exists|i: int|
                {
                    &&& 0 <= i < old(self).done@.len()
                    &&& (#[trigger] old(self).done@[i]).0 == id
                    &&& (forall|j: int| 0 <= j < i ==> old(self).done@[j].0 != id)
                    &&& final(self).done@ == old(self).done@.remove(i)
                    &&& r == Some(spec_demux(old(self).done@[i].1))
                },
    {
        let len = self.done.len();
        let mut i: usize = 0;
        while i < len
            invariant
                len == self.done@.len(),
                i <= len,
                *self == *old(self),
                forall|j: int| 0 <= j < i ==> self.done@[j].0 != id,
            decreases len - i,
        {
            if self.done[i].0 == id {
                let value = self.done[i].1;
                self.done.remove(i);
                proof {
                    let w: int = i as int;
                    assert(0 <= w < old(self).done@.len() && old(self).done@[w].0 == id
                        && self.done@ == old(self).done@.remove(w));
                }
                return Some(crate::error::demux(value));
            }
            i += 1;
        }
        None
    }

    /// The server reads: drain up to a buffer's worth of queued packets,
    /// oldest first, as wire bytes. With nothing to hand over, the decision
    /// order is end-of-file while unmounting, then would-block on a
    /// non-blocking handle, then sleep.
    pub fn read(&mut self, buf_len: usize) -> (r: ReadOutcome)
        requires
            inner_wf(*old(self)),
        ensures
            inner_wf(*final(self)),
            final(self).next_id == old(self).next_id,
            final(self).fmap == old(self).fmap,
            final(self).done == old(self).done,
            inner_eq_config(*final(self), *old(self)),
            ({
                let n = vstd::math::min((buf_len / PACKET_SIZE) as int, old(self).todo@.len() as int);
                if n > 0 {
                    match r {
                        ReadOutcome::Data(bytes) => {
                            &&& bytes@ == packets_wire(old(self).todo@.take(n))
                            &&& bytes@.len() == n * PACKET_SIZE
                            &&& final(self).todo@ == old(self).todo@.skip(n)
                        },
                        _ => false,
                    }
                } else {
                    final(self).todo == old(self).todo && (if old(self).unmounting {
                        r is Eof
                    } else if old(self).flags & crate::scheme::O_NONBLOCK
                        == crate::scheme::O_NONBLOCK {
                        r is Again
                    } else {
                        r is Block
                    })
                }
            }),
    {
        let max_packets = buf_len / PACKET_SIZE;
        let avail = self.todo.len();
        let n = if max_packets < avail {
            max_packets
        } else {
            avail
        };
        if n > 0 {
            let mut bytes: Vec<u8> = Vec::new();
            let mut k: usize = 0;
            while k < n
                invariant
                    n <= self.todo@.len(),
                    k <= n,
                    *self == *old(self),
                    bytes@ == packets_wire(self.todo@.take(k as int)),
                    bytes@.len() == k * PACKET_SIZE,
                decreases n - k,
            {
                let p = self.todo[k];
                push_packet_bytes(&mut bytes, &p);
                proof {
                    assert(self.todo@.take(k + 1).drop_last() =~= self.todo@.take(k as int));
                    assert(self.todo@.take(k + 1).last() == self.todo@[k as int]);
                }
                k += 1;
            }
            let mut m: usize = 0;
            while m < n
                invariant
                    m <= n,
                    n <= old(self).todo@.len(),
                    self.todo@ == old(self).todo@.skip(m as int),
                    self.next_id == old(self).next_id,
                    self.fmap == old(self).fmap,
                    self.done == old(self).done,
                    inner_eq_config(*self, *old(self)),
                decreases n - m,
            {
                self.todo.remove(0);
                proof {
                    assert(self.todo@ =~= old(self).todo@.skip(m + 1));
                }
                m += 1;
            }
            proof {
                assert forall|i: int, j: int|
                    0 <= i < j < self.todo@.len() implies self.todo@[i].id
                    != self.todo@[j].id by {
                    assert(self.todo@[i] == old(self).todo@[i + n]);
                    assert(self.todo@[j] == old(self).todo@[j + n]);
                }
            }
            ReadOutcome::Data(bytes)
        } else if self.unmounting {
            ReadOutcome::Eof
        } else if self.flags & crate::scheme::O_NONBLOCK == crate::scheme::O_NONBLOCK {
            ReadOutcome::Again
        } else {
            ReadOutcome::Block
        }
    }

    /// Event registration on the server's own handle: no extra sources
    /// exist, so the granted flag set is empty.
    pub fn fevent(&self, _flags: u64) -> (r: Result<u64, Error>)
        ensures
            r == Ok::<u64, Error>(0),
    {
        Ok(0)
    }

    /// The server's own handle buffers nothing, so a flush has no work.
    pub fn fsync(&self) -> (r: Result<u64, Error>)
        ensures
            r == Ok::<u64, Error>(0),
    {
        Ok(0)
    }

    /// Map a readable caller buffer into the server's space and hand back
    /// the server-side address; the borrowed grant points at the caller's
    /// frames.
    pub fn capture(
        &self,
        server_space: &mut AddrSpace,
        caller_space: &AddrSpace,
        address: u64,
        len: u64,
    ) -> (r: Result<u64, Error>)
        requires
            space_wf(*old(server_space)),
            space_wf(*caller_space),
        ensures
            space_wf(*final(server_space)),
            match r {
                Ok(a) => capture_succeeds_at(*old(server_space), *caller_space, 0, address, len)
                    && captured_into_at(
                    *old(server_space),
                    *final(server_space),
                    *caller_space,
                    0,
                    address,
                    len,
                    PROT_READ,
                    None,
                    a,
                ),
                Err(e) => {
                    &&& *final(server_space) == *old(server_space)
                    &&& !capture_succeeds_at(*old(server_space), *caller_space, 0, address, len)
                    &&& e.errno == capture_error(*caller_space, address, len)
                },
            },
    {
        capture_to(server_space, caller_space, 0, address, len, PROT_READ, None)
    }

    /// Map a writable caller buffer into the server's space; the twin of
    /// `capture` for replies the server fills in.
    pub fn capture_mut(
        &self,
        server_space: &mut AddrSpace,
        caller_space: &AddrSpace,
        address: u64,
        len: u64,
    ) -> (r: Result<u64, Error>)
        requires
            space_wf(*old(server_space)),
            space_wf(*caller_space),
        ensures
            space_wf(*final(server_space)),
            match r {
                Ok(a) => capture_succeeds_at(*old(server_space), *caller_space, 0, address, len)
                    && captured_into_at(
                    *old(server_space),
                    *final(server_space),
                    *caller_space,
                    0,
                    address,
                    len,
                    PROT_WRITE,
                    None,
                    a,
                ),
                Err(e) => {
                    &&& *final(server_space) == *old(server_space)
                    &&& !capture_succeeds_at(*old(server_space), *caller_space, 0, address, len)
                    &&& e.errno == capture_error(*caller_space, address, len)
                },
            },
    {
        capture_to(server_space, caller_space, 0, address, len, PROT_WRITE, None)
    }

    /// Unmap a borrowed grant from the server's space once the call it
    /// served is over. The dangling sentinel needs no work; an unknown
    /// address is `EFAULT`.
    pub fn release(&self, server_space: &mut AddrSpace, address: u64) -> (r: Result<(), Error>)
        requires
            space_wf(*old(server_space)),
        ensures
            space_wf(*final(server_space)),
            address == crate::DANGLING ==> r == Ok::<(), Error>(()) && *final(server_space)
                == *old(server_space),
            address != crate::DANGLING ==> match r {
                Ok(_) => {
                    &&& crate::memory::page_mapped(*old(server_space), address / PAGE_SIZE)
                    &&& final(server_space).grants@ == old(server_space).grants@.remove(
                        crate::memory::grant_index_of(*old(server_space), address / PAGE_SIZE),
                    )
                    &&& final(server_space).funmap == old(server_space).funmap
                },
                Err(e) => {
                    &&& e.errno == crate::error::EFAULT
                    &&& !crate::memory::page_mapped(*old(server_space), address / PAGE_SIZE)
                    &&& *final(server_space) == *old(server_space)
                },
            },
    {
        release(server_space, address)
    }

    /// Find the pending mapping registration for `id`.
    fn find_fmap(&self, id: u64) -> (r: Option<usize>)
        requires
            inner_wf(*self),
        ensures
            match r {
                Some(i) => i < self.fmap@.len() && self.fmap@[i as int].0 == id && i
                    == fmap_index(self.fmap@, id),
                None => !fmap_has(self.fmap@, id),
            },
    {
        let len = self.fmap.len();
        let mut i: usize = 0;
        while i < len
            invariant
                inner_wf(*self),
                len == self.fmap@.len(),
                i <= len,
                forall|j: int| 0 <= j < i ==> self.fmap@[j].0 != id,
            decreases len - i,
        {
            if self.fmap[i].0 == id {
                proof {
                    assert(fmap_has(self.fmap@, id)) by {
                        assert(self.fmap@[i as int].0 == id);
                    }
                    let j = fmap_index(self.fmap@, id);
                    if j != i as int {
                        assert(self.fmap@[j].0 == id);
                    }
                }
                return Some(i);
            }
            i += 1;
        }
        None
    }

    /// The server writes one packet back. A zero id is a server-to-kernel
    /// event: a file-event retarget yields the notice to post, anything
    /// else is dropped. A non-zero id completes the matching request: for a
    /// pending file mapping the reply address is re-captured into the
    /// caller's space at its requested place and the caller's funmap
    /// side-table learns how to translate back; every completion lands in
    /// `done` under its id, where the caller picks it up.
    pub fn write_packet(
        &mut self,
        packet: Packet,
        caller_space: &mut AddrSpace,
        server_space: &AddrSpace,
    ) -> (r: Option<SchemeEvent>)
        requires
            inner_wf(*old(self)),
            space_wf(*old(caller_space)),
            space_wf(*server_space),
        ensures
            inner_wf(*final(self)),
            space_wf(*final(caller_space)),
            packet_applied(
                *old(self),
                *final(self),
                *old(caller_space),
                *final(caller_space),
                *server_space,
                packet,
            ),
            final(self).done@ == old(self).done@ || (exists|v: (u64, u64)|
                final(self).done@ == old(self).done@.push(v)),
            r == (if packet.id == 0 && packet.a == SYS_FEVENT {
                Some(
                    SchemeEvent { scheme: old(self).scheme_id, id: packet.b, flags: packet.c },
                )
            } else {
                None::<SchemeEvent>
            }),
    {
        if packet.id == 0 {
            if packet.a == SYS_FEVENT {
                return Some(
                    SchemeEvent { scheme: self.scheme_id, id: packet.b, flags: packet.c },
                );
            }
            return None;
        }
        let mut reply: u64 = packet.a;
        match self.find_fmap(packet.id) {
            Some(i) => {
                let reg = self.fmap[i].1;
                self.fmap.remove(i);
                match crate::error::demux(packet.a) {
                    Ok(addr) => {
                        let file_ref = GrantFileRef {
                            desc: reg.desc,
                            offset: reg.map.offset,
                            flags: reg.map.flags,
                        };
                        match capture_to(
                            caller_space,
                            server_space,
                            reg.map.address,
                            addr,
                            reg.map.size,
                            reg.map.flags,
                            Some(file_ref),
                        ) {
                            Ok(grant_addr) => {
                                let cap = if reg.map.size > USER_END_OFFSET {
                                    USER_END_OFFSET
                                } else {
                                    reg.map.size
                                };
                                let map_pages = (cap + PAGE_SIZE - 1) / PAGE_SIZE;
                                proof {
                                    assert(map_pages * PAGE_SIZE <= USER_END_OFFSET
                                        + PAGE_SIZE) by (nonlinear_arith)
                                        requires
                                            map_pages == (cap as int + PAGE_SIZE - 1) / (
                                            PAGE_SIZE as int),
                                            0 <= cap <= USER_END_OFFSET,
                                            PAGE_SIZE == 4096,
                                    ;
                                }
                                caller_space.funmap.push(
                                    FunmapEntry {
                                        base: grant_addr,
                                        size: map_pages * PAGE_SIZE,
                                        server_base: addr,
                                    },
                                );
                                self.done.push((packet.id, grant_addr));
                                proof {
                                    assert(grant_addr < crate::error::ERROR_BASE);
                                    let entry = FunmapEntry {
                                        base: grant_addr,
                                        size: (map_pages * PAGE_SIZE) as u64,
                                        server_base: addr,
                                    };
                                    assert(exists|v: u64|
                                        self.done@ == old(self).done@.push((packet.id, v))
                                            && capture_grants_into(
                                            *old(caller_space),
                                            *caller_space,
                                            *server_space,
                                            reg.map.address,
                                            addr,
                                            reg.map.size,
                                            reg.map.flags,
                                            Some(
                                                GrantFileRef {
                                                    desc: reg.desc,
                                                    offset: reg.map.offset,
                                                    flags: reg.map.flags,
                                                },
                                            ),
                                            v,
                                        ) && caller_space.funmap@ == old(
                                            caller_space,
                                        ).funmap@.push(
                                            FunmapEntry {
                                                base: v,
                                                size: entry.size,
                                                server_base: addr,
                                            },
                                        )) by {
                                        assert(self.done@ == old(self).done@.push(
                                            (packet.id, grant_addr),
                                        ));
                                        assert(capture_grants_into(
                                            *old(caller_space),
                                            *caller_space,
                                            *server_space,
                                            reg.map.address,
                                            addr,
                                            reg.map.size,
                                            reg.map.flags,
                                            Some(
                                                GrantFileRef {
                                                    desc: reg.desc,
                                                    offset: reg.map.offset,
                                                    flags: reg.map.flags,
                                                },
                                            ),
                                            grant_addr,
                                        ));
                                        assert(caller_space.funmap@ == old(
                                            caller_space,
                                        ).funmap@.push(entry));
                                    }
                                }
                                return None;
                            },
                            Err(e) => {
                                reply = crate::error::mux(Err(e));
                            },
                        }
                    },
                    Err(_e) => {
                        // The reply already carries the server's error; the
                        // descriptor of the failed mapping is simply dropped.
                    },
                }
            },
            None => {},
        }
        self.done.push((packet.id, reply));
        None
    }

    /// The server writes a whole buffer of packets, applied in order: the
    /// states chain through `write_packet` exactly as `batch_applied`
    /// says, each non-zero id lands in `done` with the server's reply word
    /// (or the address a pending mapping's completion computes), and the
    /// event notices owed to pollers come back with the byte count. A
    /// length that is not a whole number of packets is rejected with
    /// `EINVAL`.
    pub fn write(
        &mut self,
        buf: &Vec<u8>,
        caller_space: &mut AddrSpace,
        server_space: &AddrSpace,
    ) -> (r: Result<(u64, Vec<SchemeEvent>), Error>)
        requires
            inner_wf(*old(self)),
            space_wf(*old(caller_space)),
            space_wf(*server_space),
        ensures
            inner_wf(*final(self)),
            space_wf(*final(caller_space)),
            final(self).next_id == old(self).next_id,
            final(self).todo == old(self).todo,
            inner_eq_config(*final(self), *old(self)),
            old(self).done@.len() <= final(self).done@.len(),
            final(self).done@.subrange(0, old(self).done@.len() as int) == old(self).done@,
            buf@.len() as int % (PACKET_SIZE as int) != 0 ==> r == Err::<(u64, Vec<SchemeEvent>), Error>(
                Error { errno: EINVAL },
            ) && *final(self) == *old(self) && *final(caller_space) == *old(caller_space),
            buf@.len() as int % (PACKET_SIZE as int) == 0 ==> match r {
                Ok((n, events)) => {
                    let count = buf@.len() as int / (PACKET_SIZE as int);
                    let cs = batch_completions(old(self).fmap@, buf@, count);
                    &&& n == buf@.len()
                    &&& batch_applied(
                        *old(self),
                        *old(caller_space),
                        *server_space,
                        buf@,
                        count,
                        *final(self),
                        *final(caller_space),
                    )
                    &&& final(self).fmap@ == fmap_after(old(self).fmap@, buf@, count)
                    &&& final(self).done@.len() == old(self).done@.len() + cs.len()
                    &&& forall|m: int|
                        0 <= m < cs.len() ==> (#[trigger] final(self).done@[old(self).done@.len()
                            + m]).0 == cs[m].0 && (cs[m].1 is Some
                            ==> final(self).done@[old(self).done@.len() + m].1 == cs[m].1->0)
                    &&& events@ == batch_events(buf@, count, old(self).scheme_id)
                },
                Err(_) => false,
            },
    {
        let len = buf.len();
        if len % PACKET_SIZE != 0 {
            return Err(Error::new(EINVAL));
        }
        let n = len / PACKET_SIZE;
        let mut events: Vec<SchemeEvent> = Vec::new();
        let mut k: usize = 0;
        while k < n
            invariant
                inner_wf(*self),
                space_wf(*caller_space),
                space_wf(*server_space),
                n == len / PACKET_SIZE,
                len == buf@.len(),
                k <= n,
                self.next_id == old(self).next_id,
                self.todo == old(self).todo,
                inner_eq_config(*self, *old(self)),
                old(self).done@.len() <= self.done@.len(),
                self.done@.subrange(0, old(self).done@.len() as int) == old(self).done@,
                batch_applied(
                    *old(self),
                    *old(caller_space),
                    *server_space,
                    buf@,
                    k as int,
                    *self,
                    *caller_space,
                ),
                self.fmap@ == fmap_after(old(self).fmap@, buf@, k as int),
                ({
                    let cs = batch_completions(old(self).fmap@, buf@, k as int);
                    &&& self.done@.len() == old(self).done@.len() + cs.len()
                    &&& forall|m: int|
                        0 <= m < cs.len() ==> (#[trigger] self.done@[old(self).done@.len()
                            + m]).0 == cs[m].0 && (cs[m].1 is Some ==> self.done@[old(
                            self,
                        ).done@.len() + m].1 == cs[m].1->0)
                }),
                events@ == batch_events(buf@, k as int, old(self).scheme_id),
            decreases n - k,
        {
            proof {
                assert(k * PACKET_SIZE + PACKET_SIZE <= len) by (nonlinear_arith)
                    requires
                        k < n,
                        n as int == len as int / (PACKET_SIZE as int),
                        PACKET_SIZE == 56,
                        len >= 0,
                ;
            }
            let packet = packet_from_bytes(buf, k * PACKET_SIZE);
            let ghost before_u = *self;
            let ghost before_c = *caller_space;
            match self.write_packet(packet, caller_space, server_space) {
                Some(event) => {
                    events.push(event);
                },
                None => {},
            }
            proof {
                if self.done@ != before_u.done@ {
                    let v = choose|v: (u64, u64)| self.done@ == before_u.done@.push(v);
                    assert(self.done@.subrange(0, old(self).done@.len() as int)
                        =~= before_u.done@.subrange(0, old(self).done@.len() as int));
                }
                assert(buf@.subrange(
                    k as int * (PACKET_SIZE as int),
                    (k + 1) * (PACKET_SIZE as int),
                ) =~= buf@.subrange(
                    (k * PACKET_SIZE) as int,
                    (k * PACKET_SIZE) as int + PACKET_SIZE,
                ));
                assert(batch_packet(buf@, k as int) == packet);
                assert(packet_applied(
                    before_u,
                    *self,
                    before_c,
                    *caller_space,
                    *server_space,
                    batch_packet(buf@, k as int),
                ));
                assert(batch_applied(
                    *old(self),
                    *old(caller_space),
                    *server_space,
                    buf@,
                    k + 1,
                    *self,
                    *caller_space,
                )) by {
                    assert(packet_applied(
                        before_u,
                        *self,
                        before_c,
                        *caller_space,
                        *server_space,
                        batch_packet(buf@, (k as int) + 1 - 1),
                    ));
                    assert(batch_applied(
                        *old(self),
                        *old(caller_space),
                        *server_space,
                        buf@,
                        (k as int) + 1 - 1,
                        before_u,
                        before_c,
                    ));
                }
                assert(self.fmap@ == fmap_after(old(self).fmap@, buf@, k + 1));
                assert(batch_completions(old(self).fmap@, buf@, k + 1) == (if packet.id == 0 {
                    batch_completions(old(self).fmap@, buf@, k as int)
                } else if fmap_has(before_u.fmap@, packet.id) {
                    batch_completions(old(self).fmap@, buf@, k as int).push((packet.id, None))
                } else {
                    batch_completions(old(self).fmap@, buf@, k as int).push(
                        (packet.id, Some(packet.a)),
                    )
                }));
                assert(batch_events(buf@, k + 1, old(self).scheme_id) == (if packet.id == 0
                    && packet.a == SYS_FEVENT {
                    batch_events(buf@, k as int, old(self).scheme_id).push(
                        SchemeEvent {
                            scheme: old(self).scheme_id,
                            id: packet.b,
                            flags: packet.c,
                        },
                    )
                } else {
                    batch_events(buf@, k as int, old(self).scheme_id)
                }));
            }
            k += 1;
        }
        proof {
            assert(n * PACKET_SIZE == len) by (nonlinear_arith)
                requires
                    n as int == len as int / (PACKET_SIZE as int),
                    len as int % (PACKET_SIZE as int) == 0,
                    PACKET_SIZE == 56,
                    len >= 0,
            ;
        }
        Ok(((n * PACKET_SIZE) as u64, events))
    }

    /// Submit a file mapping on behalf of `caller`: find the open file that
    /// the mapping goes through, register the request so the server's reply
    /// completes it, and queue a `SYS_FMAP` packet. `EBADF` names a caller
    /// without such a file.
    pub fn fmap_inner(&mut self, caller: &Context, file: u64, map: &MapInfo) -> (r: Result<
        (u64, SchemeEvent),
        Error,
    >)
        requires
            inner_wf(*old(self)),
            old(self).next_id < u64::MAX,
        ensures
            inner_wf(*final(self)),
            inner_eq_config(*final(self), *old(self)),
            final(self).done == old(self).done,
            fmap_submitted(*old(self), *final(self), *caller, file, *map, r),
    {
        let desc = match find_file(&caller.files, self.scheme_id, file) {
            Some(desc) => desc,
            None => {
                return Err(Error::new(EBADF));
            },
        };
        let id = self.alloc_id();
        let reg = FmapRegistration { caller: caller.id as u64, desc, map: *map };
        self.fmap.push((id, reg));
        proof {
            assert forall|a: int, b: int|
                0 <= a < b < self.fmap@.len() implies self.fmap@[a].0 != self.fmap@[b].0 by {
                if b < self.fmap@.len() - 1 {
                    assert(self.fmap@[a] == old(self).fmap@[a]);
                    assert(self.fmap@[b] == old(self).fmap@[b]);
                } else {
                    assert(self.fmap@[a] == old(self).fmap@[a]);
                }
            }
        }
        self.call_inner(
            Packet {
                id,
                pid: caller.id as u64,
                uid: caller.euid,
                gid: caller.egid,
                a: SYS_FMAP,
                b: file,
                c: map.address,
                d: map.size,
            },
        )
    }
}

/// Bookkeeping of a submitted file mapping: `EBADF` when the caller holds
/// no open file of this scheme under `file`; otherwise a registration under
/// a fresh id joins the pending-mapping table and, unless the scheme is
/// unmounting, a `SYS_FMAP` packet carrying the mapping's address and size
/// joins the queue.
pub open spec fn fmap_submitted(
    old_u: UserInner,
    new_u: UserInner,
    caller: Context,
    file: u64,
    map: MapInfo,
    r: Result<(u64, SchemeEvent), Error>,
) -> bool {
    &&& (forall|i: int|
        0 <= i < caller.files@.len() ==> !matching_file(
            #[trigger] caller.files@[i],
            old_u.scheme_id,
            file,
        )) ==> r == Err::<(u64, SchemeEvent), Error>(Error { errno: EBADF }) && new_u == old_u
    &&& (exists|i: int|
        0 <= i < caller.files@.len() && matching_file(
            #[trigger] caller.files@[i],
            old_u.scheme_id,
            file,
        )) ==> exists|i: int|
        {
            &&& 0 <= i < caller.files@.len()
            &&& matching_file(#[trigger] caller.files@[i], old_u.scheme_id, file)
            &&& new_u.next_id == old_u.next_id + 1
            &&& new_u.fmap@ == old_u.fmap@.push(
                (
                    old_u.next_id,
                    FmapRegistration {
                        caller: caller.id as u64,
                        desc: caller.files@[i]->0,
                        map,
                    },
                ),
            )
            &&& (if old_u.unmounting {
                r == Err::<(u64, SchemeEvent), Error>(Error { errno: ENODEV }) && new_u.todo
                    == old_u.todo
            } else {
                r == Ok::<(u64, SchemeEvent), Error>(
                    (
                        old_u.next_id,
                        SchemeEvent {
                            scheme: old_u.root_id,
                            id: old_u.handle_id,
                            flags: EVENT_READ,
                        },
                    ),
                ) && new_u.todo@ == old_u.todo@.push(
                    Packet {
                        id: old_u.next_id,
                        pid: caller.id as u64,
                        uid: caller.euid,
                        gid: caller.egid,
                        a: SYS_FMAP,
                        b: file,
                        c: map.address,
                        d: map.size,
                    },
                )
            })
        }
}

/// One written-back packet takes the bridge and the caller's space from
/// (`u0`, `c0`) to (`u1`, `c1`). A zero id changes nothing. A plain
/// completion appends its reply word under its id. A pending mapping's
/// completion consumes the registration and, on a successful reply,
/// re-captures the server's address into the caller's space, records the
/// funmap translation and completes with the caller-side address;
/// otherwise it completes with the reply or capture error and the space
/// stands still.
pub open spec fn packet_applied(
    u0: UserInner,
    u1: UserInner,
    c0: AddrSpace,
    c1: AddrSpace,
    srv: AddrSpace,
    p: Packet,
) -> bool {
    &&& u1.next_id == u0.next_id
    &&& u1.todo == u0.todo
    &&& inner_eq_config(u1, u0)
    &&& (p.id == 0 ==> u1 == u0 && c1 == c0)
    &&& (p.id != 0 && !fmap_has(u0.fmap@, p.id) ==> {
        &&& u1.done@ == u0.done@.push((p.id, p.a))
        &&& u1.fmap == u0.fmap
        &&& c1 == c0
    })
    &&& (p.id != 0 && fmap_has(u0.fmap@, p.id) ==> {
        let i = fmap_index(u0.fmap@, p.id);
        let reg = u0.fmap@[i].1;
        &&& u1.fmap@ == u0.fmap@.remove(i)
        &&& match spec_demux(p.a) {
            Err(_) => u1.done@ == u0.done@.push((p.id, p.a)) && c1 == c0,
            Ok(addr) => {
                let cap = if reg.map.size > USER_END_OFFSET {
                    USER_END_OFFSET as int
                } else {
                    reg.map.size as int
                };
                let entry_size = ((cap + PAGE_SIZE - 1) / (PAGE_SIZE as int)) * PAGE_SIZE;
                if capture_succeeds_at(c0, srv, reg.map.address, addr, reg.map.size) {
                    exists|v: u64|
                        {
                            &&& u1.done@ == u0.done@.push((p.id, v))
                            &&& capture_grants_into(
                                c0,
                                c1,
                                srv,
                                reg.map.address,
                                addr,
                                reg.map.size,
                                reg.map.flags,
                                Some(
                                    GrantFileRef {
                                        desc: reg.desc,
                                        offset: reg.map.offset,
                                        flags: reg.map.flags,
                                    },
                                ),
                                v,
                            )
                            &&& c1.funmap@ == c0.funmap@.push(
                                FunmapEntry {
                                    base: v,
                                    size: entry_size as u64,
                                    server_base: addr,
                                },
                            )
                        }
                } else {
                    &&& u1.done@ == u0.done@.push(
                        (
                            p.id,
                            (u64::MAX - capture_error(srv, addr, reg.map.size) + 1) as u64,
                        ),
                    )
                    &&& c1 == c0
                }
            },
        }
    })
}

/// The slot holds an open file of scheme `scheme_id` with scheme-local
/// number `file`.
pub open spec fn matching_file(slot: Option<FileDescriptor>, scheme_id: u64, file: u64) -> bool {
    match slot {
        Some(fd) => fd.description.scheme as u64 == scheme_id && fd.description.number == file,
        None => false,
    }
}

/// Exactly one completion reaches the caller of a request: while no
/// completion for `id` is waiting, the one the server writes becomes the
/// unique entry under that id, so `call_finish(id)` hands back precisely
/// the result the server posted.
pub proof fn lemma_completion_unique(done: Seq<(u64, u64)>, id: u64, v: u64)
    requires
        !done_has(done, id),
    ensures
        done_has(done.push((id, v)), id),
        done.push((id, v))[done.len() as int] == (id, v),
        forall|j: int| 0 <= j < done.len() ==> (#[trigger] done.push((id, v))[j]).0 != id,
{
    let s = done.push((id, v));
    assert(s[done.len() as int].0 == id);
    assert forall|j: int| 0 <= j < done.len() implies (#[trigger] s[j]).0 != id by {
        assert(s[j] == done[j]);
    }
}

/// The first open file of `scheme_id` with number `file` in the table.
fn find_file(files: &Vec<Option<FileDescriptor>>, scheme_id: u64, file: u64) -> (r: Option<
    FileDescriptor,
>)
    ensures
        match r {
            Some(fd) => exists|i: int|
                0 <= i < files@.len() && matching_file(#[trigger] files@[i], scheme_id, file)
                    && files@[i] == Some(fd),
            None => forall|i: int|
                0 <= i < files@.len() ==> !matching_file(#[trigger] files@[i], scheme_id, file),
        },
{
    let len = files.len();
    let mut i: usize = 0;
    while i < len
        invariant
            len == files@.len(),
            i <= len,
            forall|j: int| 0 <= j < i ==> !matching_file(#[trigger] files@[j], scheme_id, file),
        decreases len - i,
    {
        if let Some(fd) = &files[i] {
            if fd.description.scheme as u64 == scheme_id && fd.description.number == file {
                return Some(*fd);
            }
        }
        i += 1;
    }
    None
}


/// The packet at position `k` of a wire buffer.
pub open spec fn batch_packet(buf: Seq<u8>, k: int) -> Packet {
    packet_from_bytes_spec(buf.subrange(k * (PACKET_SIZE as int), (k + 1) * (PACKET_SIZE as int)))
}

/// The pending-mapping table after the first `n` packets of a batch: each
/// non-zero packet id consumes its registration, if one is pending at that
/// point.
pub open spec fn fmap_after(
    fm: Seq<(u64, FmapRegistration)>,
    buf: Seq<u8>,
    n: int,
) -> Seq<(u64, FmapRegistration)>
    decreases n,
{
    if n <= 0 {
        fm
    } else {
        let prev = fmap_after(fm, buf, n - 1);
        let p = batch_packet(buf, n - 1);
        if p.id != 0 && fmap_has(prev, p.id) {
            prev.remove(fmap_index(prev, p.id))
        } else {
            prev
        }
    }
}

/// The completions the first `n` packets of a batch append, in order: each
/// non-zero id, paired with the packet's own reply word for a plain
/// completion, or left open for a pending mapping's completion, whose word
/// the re-capture computes.
pub open spec fn batch_completions(
    fm: Seq<(u64, FmapRegistration)>,
    buf: Seq<u8>,
    n: int,
) -> Seq<(u64, Option<u64>)>
    decreases n,
{
    if n <= 0 {
        Seq::empty()
    } else {
        let rest = batch_completions(fm, buf, n - 1);
        let prev = fmap_after(fm, buf, n - 1);
        let p = batch_packet(buf, n - 1);
        if p.id == 0 {
            rest
        } else if fmap_has(prev, p.id) {
            rest.push((p.id, None))
        } else {
            rest.push((p.id, Some(p.a)))
        }
    }
}

/// The whole batch takes the bridge and the caller's space through its
/// packets in order: some chain of intermediate states applies each packet
/// exactly as `packet_applied` describes.
pub open spec fn batch_applied(
    u0: UserInner,
    c0: AddrSpace,
    srv: AddrSpace,
    buf: Seq<u8>,
    n: int,
    u1: UserInner,
    c1: AddrSpace,
) -> bool
    decreases n,
{
    if n <= 0 {
        u1 == u0 && c1 == c0
    } else {
        exists|um: UserInner, cm: AddrSpace|
            #![trigger packet_applied(um, u1, cm, c1, srv, batch_packet(buf, n - 1))]
            batch_applied(u0, c0, srv, buf, n - 1, um, cm) && packet_applied(
                um,
                u1,
                cm,
                c1,
                srv,
                batch_packet(buf, n - 1),
            )
    }
}

/// A one-packet batch is exactly one packet application: writing a single
/// packet back relates the states as `packet_applied` says, with no
/// intermediate chain to unfold.
pub proof fn lemma_single_packet_batch(
    u0: UserInner,
    c0: AddrSpace,
    srv: AddrSpace,
    buf: Seq<u8>,
    u1: UserInner,
    c1: AddrSpace,
)
    requires
        batch_applied(u0, c0, srv, buf, 1, u1, c1),
    ensures
        packet_applied(u0, u1, c0, c1, srv, batch_packet(buf, 0)),
{
    let (um, cm) = choose|um: UserInner, cm: AddrSpace|
        #![trigger packet_applied(um, u1, cm, c1, srv, batch_packet(buf, 0))]
        batch_applied(u0, c0, srv, buf, 0, um, cm) && packet_applied(
            um,
            u1,
            cm,
            c1,
            srv,
            batch_packet(buf, 0),
        );
    assert(um == u0 && cm == c0);
}

/// The poller events the first `n` packets of a wire buffer post, in
/// order: one per zero-id packet that retargets a file event.
pub open spec fn batch_events(buf: Seq<u8>, n: int, scheme_id: u64) -> Seq<SchemeEvent>
    decreases n,
{
    if n <= 0 {
        Seq::empty()
    } else {
        let rest = batch_events(buf, n - 1, scheme_id);
        let p = batch_packet(buf, n - 1);
        if p.id == 0 && p.a == SYS_FEVENT {
            rest.push(SchemeEvent { scheme: scheme_id, id: p.b, flags: p.c })
        } else {
            rest
        }
    }
}

/// Bookkeeping shared by every submitted call: the id counter advanced,
/// completions and pending mappings untouched, and either the exact packet
/// queued under the fresh id handed back, or `ENODEV` while unmounting.
pub open spec fn submitted(
    old_u: UserInner,
    new_u: UserInner,
    caller: CallerInfo,
    a: u64,
    b: u64,
    c: u64,
    d: u64,
    r: Result<(u64, SchemeEvent), Error>,
) -> bool {
    &&& new_u.next_id == old_u.next_id + 1
    &&& new_u.fmap == old_u.fmap
    &&& new_u.done == old_u.done
    &&& inner_eq_config(new_u, old_u)
    &&& if old_u.unmounting {
        r == Err::<(u64, SchemeEvent), Error>(Error { errno: ENODEV }) && new_u.todo
            == old_u.todo
    } else {
        r == Ok::<(u64, SchemeEvent), Error>(
            (
                old_u.next_id,
                SchemeEvent { scheme: old_u.root_id, id: old_u.handle_id, flags: EVENT_READ },
            ),
        ) && new_u.todo@ == old_u.todo@.push(
            Packet {
                id: old_u.next_id,
                pid: caller.pid,
                uid: caller.uid,
                gid: caller.gid,
                a,
                b,
                c,
                d,
            },
        )
    }
}

/// Bookkeeping of a call that first captures a caller buffer into the
/// server's space: either the capture fails and nothing moved, or the
/// packet carries the captured address (in place of the buffer's address)
/// and the server's space gained the borrowed grant.
pub open spec fn submitted_with_capture(
    old_u: UserInner,
    new_u: UserInner,
    caller: CallerInfo,
    old_srv: AddrSpace,
    new_srv: AddrSpace,
    caller_sp: AddrSpace,
    writable: bool,
    path_style: bool,
    syscall: u64,
    extra: u64,
    buf_addr: u64,
    buf_len: u64,
    r: Result<(u64, u64, SchemeEvent), Error>,
) -> bool {
    if old_u.unmounting {
        r == Err::<(u64, u64, SchemeEvent), Error>(Error { errno: ENODEV }) && new_u == old_u
            && new_srv == old_srv
    } else {
        match r {
            Ok((id, cap_addr, ev)) => {
                &&& capture_succeeds_at(old_srv, caller_sp, 0, buf_addr, buf_len)
                &&& captured_into_at(
                    old_srv,
                    new_srv,
                    caller_sp,
                    0,
                    buf_addr,
                    buf_len,
                    if writable {
                        PROT_WRITE
                    } else {
                        PROT_READ
                    },
                    None,
                    cap_addr,
                )
                &&& submitted(
                    old_u,
                    new_u,
                    caller,
                    syscall,
                    if path_style {
                        cap_addr
                    } else {
                        extra
                    },
                    if path_style {
                        buf_len
                    } else {
                        cap_addr
                    },
                    if path_style {
                        extra
                    } else {
                        buf_len
                    },
                    Ok((id, ev)),
                )
            },
            Err(e) => {
                &&& e.errno == capture_error(caller_sp, buf_addr, buf_len)
                &&& !capture_succeeds_at(old_srv, caller_sp, 0, buf_addr, buf_len)
                &&& new_u == old_u
                &&& new_srv == old_srv
            },
        }
    }
}

/// Capture a caller buffer into the server's space, then queue the call.
/// `path_style` packets carry (captured, length, extra); the others carry
/// (extra, captured, length).
fn submit_capture_op(
    inner: &mut UserInner,
    caller: CallerInfo,
    caller_space: &AddrSpace,
    server_space: &mut AddrSpace,
    writable: bool,
    path_style: bool,
    syscall: u64,
    extra: u64,
    buf_addr: u64,
    buf_len: u64,
) -> (r: Result<(u64, u64, SchemeEvent), Error>)
    requires
        inner_wf(*old(inner)),
        old(inner).next_id < u64::MAX,
        space_wf(*old(server_space)),
        space_wf(*caller_space),
    ensures
        inner_wf(*final(inner)),
        space_wf(*final(server_space)),
        submitted_with_capture(
            *old(inner),
            *final(inner),
            caller,
            *old(server_space),
            *final(server_space),
            *caller_space,
            writable,
            path_style,
            syscall,
            extra,
            buf_addr,
            buf_len,
            r,
        ),
{
    if inner.unmounting {
        return Err(Error::new(ENODEV));
    }
    let cap_result = if writable {
        inner.capture_mut(server_space, caller_space, buf_addr, buf_len)
    } else {
        inner.capture(server_space, caller_space, buf_addr, buf_len)
    };
    let cap_addr = match cap_result {
        Ok(a) => a,
        Err(e) => {
            return Err(e);
        },
    };
    let (b, c, d) = if path_style {
        (cap_addr, buf_len, extra)
    } else {
        (extra, cap_addr, buf_len)
    };
    match inner.call(caller, syscall, b, c, d) {
        Ok((id, ev)) => Ok((id, cap_addr, ev)),
        Err(e) => Err(e),
    }
}

/// The kernel-side face of a mounted user scheme: every operation becomes
/// a packet submitted through the bridge, and the caller then blocks on the
/// returned request id. Operations that pass a buffer also hand back the
/// captured server-side address, released once the call completes.
pub struct UserScheme;

impl UserScheme {
    pub fn new() -> (r: UserScheme)
        ensures
            r == UserScheme,
    {
        UserScheme
    }

    /// Open a path on the scheme: the path bytes are captured readably and
    /// `SYS_OPEN` queued.
    pub fn open(
        &self,
        inner: &mut UserInner,
        caller: CallerInfo,
        caller_space: &AddrSpace,
        server_space: &mut AddrSpace,
        path_addr: u64,
        path_len: u64,
        flags: u64,
    ) -> (r: Result<(u64, u64, SchemeEvent), Error>)
        requires
            inner_wf(*old(inner)),
            old(inner).next_id < u64::MAX,
            space_wf(*old(server_space)),
            space_wf(*caller_space),
        ensures
            inner_wf(*final(inner)),
            space_wf(*final(server_space)),
            submitted_with_capture(
                *old(inner),
                *final(inner),
                caller,
                *old(server_space),
                *final(server_space),
                *caller_space,
                false,
                true,
                SYS_OPEN,
                flags,
                path_addr,
                path_len,
                r,
            ),
    {
        submit_capture_op(
            inner,
            caller,
            caller_space,
            server_space,
            false,
            true,
            SYS_OPEN,
            flags,
            path_addr,
            path_len,
        )
    }

    /// Remove a directory: the path is captured readably and `SYS_RMDIR`
    /// queued.
    pub fn rmdir(
        &self,
        inner: &mut UserInner,
        caller: CallerInfo,
        caller_space: &AddrSpace,
        server_space: &mut AddrSpace,
        path_addr: u64,
        path_len: u64,
    ) -> (r: Result<(u64, u64, SchemeEvent), Error>)
        requires
            inner_wf(*old(inner)),
            old(inner).next_id < u64::MAX,
            space_wf(*old(server_space)),
            space_wf(*caller_space),
        ensures
            inner_wf(*final(inner)),
            space_wf(*final(server_space)),
            submitted_with_capture(
                *old(inner),
                *final(inner),
                caller,
                *old(server_space),
                *final(server_space),
                *caller_space,
                false,
                true,
                SYS_RMDIR,
                0,
                path_addr,
                path_len,
                r,
            ),
    {
        submit_capture_op(
            inner,
            caller,
            caller_space,
            server_space,
            false,
            true,
            SYS_RMDIR,
            0,
            path_addr,
            path_len,
        )
    }

    /// Unlink a path: captured readably, `SYS_UNLINK` queued.
    pub fn unlink(
        &self,
        inner: &mut UserInner,
        caller: CallerInfo,
        caller_space: &AddrSpace,
        server_space: &mut AddrSpace,
        path_addr: u64,
        path_len: u64,
    ) -> (r: Result<(u64, u64, SchemeEvent), Error>)
        requires
            inner_wf(*old(inner)),
            old(inner).next_id < u64::MAX,
            space_wf(*old(server_space)),
            space_wf(*caller_space),
        ensures
            inner_wf(*final(inner)),
            space_wf(*final(server_space)),
            submitted_with_capture(
                *old(inner),
                *final(inner),
                caller,
                *old(server_space),
                *final(server_space),
                *caller_space,
                false,
                true,
                SYS_UNLINK,
                0,
                path_addr,
                path_len,
                r,
            ),
    {
        submit_capture_op(
            inner,
            caller,
            caller_space,
            server_space,
            false,
            true,
            SYS_UNLINK,
            0,
            path_addr,
            path_len,
        )
    }

    /// Duplicate a handle, with an auxiliary name buffer captured readably.
    pub fn dup(
        &self,
        inner: &mut UserInner,
        caller: CallerInfo,
        caller_space: &AddrSpace,
        server_space: &mut AddrSpace,
        file: u64,
        buf_addr: u64,
        buf_len: u64,
    ) -> (r: Result<(u64, u64, SchemeEvent), Error>)
        requires
            inner_wf(*old(inner)),
            old(inner).next_id < u64::MAX,
            space_wf(*old(server_space)),
            space_wf(*caller_space),
        ensures
            inner_wf(*final(inner)),
            space_wf(*final(server_space)),
            submitted_with_capture(
                *old(inner),
                *final(inner),
                caller,
                *old(server_space),
                *final(server_space),
                *caller_space,
                false,
                false,
                SYS_DUP,
                file,
                buf_addr,
                buf_len,
                r,
            ),
    {
        submit_capture_op(
            inner,
            caller,
            caller_space,
            server_space,
            false,
            false,
            SYS_DUP,
            file,
            buf_addr,
            buf_len,
        )
    }

    /// Read from a handle into a caller buffer captured writably.
    pub fn read(
        &self,
        inner: &mut UserInner,
        caller: CallerInfo,
        caller_space: &AddrSpace,
        server_space: &mut AddrSpace,
        file: u64,
        buf_addr: u64,
        buf_len: u64,
    ) -> (r: Result<(u64, u64, SchemeEvent), Error>)
        requires
            inner_wf(*old(inner)),
            old(inner).next_id < u64::MAX,
            space_wf(*old(server_space)),
            space_wf(*caller_space),
        ensures
            inner_wf(*final(inner)),
            space_wf(*final(server_space)),
            submitted_with_capture(
                *old(inner),
                *final(inner),
                caller,
                *old(server_space),
                *final(server_space),
                *caller_space,
                true,
                false,
                SYS_READ,
                file,
                buf_addr,
                buf_len,
                r,
            ),
    {
        submit_capture_op(
            inner,
            caller,
            caller_space,
            server_space,
            true,
            false,
            SYS_READ,
            file,
            buf_addr,
            buf_len,
        )
    }

    /// Write a caller buffer, captured readably, to a handle.
    pub fn write(
        &self,
        inner: &mut UserInner,
        caller: CallerInfo,
        caller_space: &AddrSpace,
        server_space: &mut AddrSpace,
        file: u64,
        buf_addr: u64,
        buf_len: u64,
    ) -> (r: Result<(u64, u64, SchemeEvent), Error>)
        requires
            inner_wf(*old(inner)),
            old(inner).next_id < u64::MAX,
            space_wf(*old(server_space)),
            space_wf(*caller_space),
        ensures
            inner_wf(*final(inner)),
            space_wf(*final(server_space)),
            submitted_with_capture(
                *old(inner),
                *final(inner),
                caller,
                *old(server_space),
                *final(server_space),
                *caller_space,
                false,
                false,
                SYS_WRITE,
                file,
                buf_addr,
                buf_len,
                r,
            ),
    {
        submit_capture_op(
            inner,
            caller,
            caller_space,
            server_space,
            false,
            false,
            SYS_WRITE,
            file,
            buf_addr,
            buf_len,
        )
    }

    /// Report a handle's path into a caller buffer captured writably.
    pub fn fpath(
        &self,
        inner: &mut UserInner,
        caller: CallerInfo,
        caller_space: &AddrSpace,
        server_space: &mut AddrSpace,
        file: u64,
        buf_addr: u64,
        buf_len: u64,
    ) -> (r: Result<(u64, u64, SchemeEvent), Error>)
        requires
            inner_wf(*old(inner)),
            old(inner).next_id < u64::MAX,
            space_wf(*old(server_space)),
            space_wf(*caller_space),
        ensures
            inner_wf(*final(inner)),
            space_wf(*final(server_space)),
            submitted_with_capture(
                *old(inner),
                *final(inner),
                caller,
                *old(server_space),
                *final(server_space),
                *caller_space,
                true,
                false,
                SYS_FPATH,
                file,
                buf_addr,
                buf_len,
                r,
            ),
    {
        submit_capture_op(
            inner,
            caller,
            caller_space,
            server_space,
            true,
            false,
            SYS_FPATH,
            file,
            buf_addr,
            buf_len,
        )
    }

    /// Rename a handle to a new path captured readably.
    pub fn frename(
        &self,
        inner: &mut UserInner,
        caller: CallerInfo,
        caller_space: &AddrSpace,
        server_space: &mut AddrSpace,
        file: u64,
        path_addr: u64,
        path_len: u64,
    ) -> (r: Result<(u64, u64, SchemeEvent), Error>)
        requires
            inner_wf(*old(inner)),
            old(inner).next_id < u64::MAX,
            space_wf(*old(server_space)),
            space_wf(*caller_space),
        ensures
            inner_wf(*final(inner)),
            space_wf(*final(server_space)),
            submitted_with_capture(
                *old(inner),
                *final(inner),
                caller,
                *old(server_space),
                *final(server_space),
                *caller_space,
                false,
                false,
                SYS_FRENAME,
                file,
                path_addr,
                path_len,
                r,
            ),
    {
        submit_capture_op(
            inner,
            caller,
            caller_space,
            server_space,
            false,
            false,
            SYS_FRENAME,
            file,
            path_addr,
            path_len,
        )
    }

    /// Fill a stat record: its buffer is captured writably.
    pub fn fstat(
        &self,
        inner: &mut UserInner,
        caller: CallerInfo,
        caller_space: &AddrSpace,
        server_space: &mut AddrSpace,
        file: u64,
        stat_addr: u64,
        stat_len: u64,
    ) -> (r: Result<(u64, u64, SchemeEvent), Error>)
        requires
            inner_wf(*old(inner)),
            old(inner).next_id < u64::MAX,
            space_wf(*old(server_space)),
            space_wf(*caller_space),
        ensures
            inner_wf(*final(inner)),
            space_wf(*final(server_space)),
            submitted_with_capture(
                *old(inner),
                *final(inner),
                caller,
                *old(server_space),
                *final(server_space),
                *caller_space,
                true,
                false,
                SYS_FSTAT,
                file,
                stat_addr,
                stat_len,
                r,
            ),
    {
        submit_capture_op(
            inner,
            caller,
            caller_space,
            server_space,
            true,
            false,
            SYS_FSTAT,
            file,
            stat_addr,
            stat_len,
        )
    }

    /// Fill a filesystem stat record: its buffer is captured writably.
    pub fn fstatvfs(
        &self,
        inner: &mut UserInner,
        caller: CallerInfo,
        caller_space: &AddrSpace,
        server_space: &mut AddrSpace,
        file: u64,
        stat_addr: u64,
        stat_len: u64,
    ) -> (r: Result<(u64, u64, SchemeEvent), Error>)
        requires
            inner_wf(*old(inner)),
            old(inner).next_id < u64::MAX,
            space_wf(*old(server_space)),
            space_wf(*caller_space),
        ensures
            inner_wf(*final(inner)),
            space_wf(*final(server_space)),
            submitted_with_capture(
                *old(inner),
                *final(inner),
                caller,
                *old(server_space),
                *final(server_space),
                *caller_space,
                true,
                false,
                SYS_FSTATVFS,
                file,
                stat_addr,
                stat_len,
                r,
            ),
    {
        submit_capture_op(
            inner,
            caller,
            caller_space,
            server_space,
            true,
            false,
            SYS_FSTATVFS,
            file,
            stat_addr,
            stat_len,
        )
    }

    /// Set a handle's timestamps from a times buffer captured readably.
    pub fn futimens(
        &self,
        inner: &mut UserInner,
        caller: CallerInfo,
        caller_space: &AddrSpace,
        server_space: &mut AddrSpace,
        file: u64,
        times_addr: u64,
        times_len: u64,
    ) -> (r: Result<(u64, u64, SchemeEvent), Error>)
        requires
            inner_wf(*old(inner)),
            old(inner).next_id < u64::MAX,
            space_wf(*old(server_space)),
            space_wf(*caller_space),
        ensures
            inner_wf(*final(inner)),
            space_wf(*final(server_space)),
            submitted_with_capture(
                *old(inner),
                *final(inner),
                caller,
                *old(server_space),
                *final(server_space),
                *caller_space,
                false,
                false,
                SYS_FUTIMENS,
                file,
                times_addr,
                times_len,
                r,
            ),
    {
        submit_capture_op(
            inner,
            caller,
            caller_space,
            server_space,
            false,
            false,
            SYS_FUTIMENS,
            file,
            times_addr,
            times_len,
        )
    }

    /// Seek within a handle; the new offset comes back through the
    /// completion and `seek_finish`.
    pub fn seek(
        &self,
        inner: &mut UserInner,
        caller: CallerInfo,
        file: u64,
        position: i64,
        whence: u64,
    ) -> (r: Result<(u64, SchemeEvent), Error>)
        requires
            inner_wf(*old(inner)),
            old(inner).next_id < u64::MAX,
        ensures
            inner_wf(*final(inner)),
            submitted(
                *old(inner),
                *final(inner),
                caller,
                SYS_LSEEK,
                file,
                position as u64,
                whence,
                r,
            ),
    {
        inner.call(caller, SYS_LSEEK, file, position as u64, whence)
    }

    /// Change a handle's mode.
    pub fn fchmod(&self, inner: &mut UserInner, caller: CallerInfo, file: u64, mode: u64) -> (r:
        Result<(u64, SchemeEvent), Error>)
        requires
            inner_wf(*old(inner)),
            old(inner).next_id < u64::MAX,
        ensures
            inner_wf(*final(inner)),
            submitted(*old(inner), *final(inner), caller, SYS_FCHMOD, file, mode, 0, r),
    {
        inner.call(caller, SYS_FCHMOD, file, mode, 0)
    }

    /// Change a handle's owner. Only root may give a file away: any other
    /// caller may only name its own effective ids, else `EPERM`.
    pub fn fchown(
        &self,
        inner: &mut UserInner,
        caller: CallerInfo,
        file: u64,
        uid: u32,
        gid: u32,
    ) -> (r: Result<(u64, SchemeEvent), Error>)
        requires
            inner_wf(*old(inner)),
            old(inner).next_id < u64::MAX,
        ensures
            inner_wf(*final(inner)),
            caller.uid != 0 && (uid != caller.uid || gid != caller.gid) ==> r == Err::<
                (u64, SchemeEvent),
                Error,
            >(Error { errno: EPERM }) && *final(inner) == *old(inner),
            !(caller.uid != 0 && (uid != caller.uid || gid != caller.gid)) ==> submitted(
                *old(inner),
                *final(inner),
                caller,
                SYS_FCHOWN,
                file,
                uid as u64,
                gid as u64,
                r,
            ),
    {
        if caller.uid != 0 {
            if uid != caller.uid || gid != caller.gid {
                return Err(Error::new(EPERM));
            }
        }
        inner.call(caller, SYS_FCHOWN, file, uid as u64, gid as u64)
    }

    /// Manipulate a handle's flags.
    pub fn fcntl(
        &self,
        inner: &mut UserInner,
        caller: CallerInfo,
        file: u64,
        cmd: u64,
        arg: u64,
    ) -> (r: Result<(u64, SchemeEvent), Error>)
        requires
            inner_wf(*old(inner)),
            old(inner).next_id < u64::MAX,
        ensures
            inner_wf(*final(inner)),
            submitted(*old(inner), *final(inner), caller, SYS_FCNTL, file, cmd, arg, r),
    {
        inner.call(caller, SYS_FCNTL, file, cmd, arg)
    }

    /// Register interest in events on a handle.
    pub fn fevent(&self, inner: &mut UserInner, caller: CallerInfo, file: u64, flags: u64) -> (r:
        Result<(u64, SchemeEvent), Error>)
        requires
            inner_wf(*old(inner)),
            old(inner).next_id < u64::MAX,
        ensures
            inner_wf(*final(inner)),
            submitted(*old(inner), *final(inner), caller, SYS_FEVENT, file, flags, 0, r),
    {
        inner.call(caller, SYS_FEVENT, file, flags, 0)
    }

    /// Map a file of this scheme into the caller's space; the reply is
    /// completed through the pending-mapping table.
    pub fn fmap(&self, inner: &mut UserInner, caller: &Context, file: u64, map: &MapInfo) -> (r:
        Result<(u64, SchemeEvent), Error>)
        requires
            inner_wf(*old(inner)),
            old(inner).next_id < u64::MAX,
        ensures
            inner_wf(*final(inner)),
            inner_eq_config(*final(inner), *old(inner)),
            final(inner).done == old(inner).done,
            fmap_submitted(*old(inner), *final(inner), *caller, file, *map, r),
    {
        inner.fmap_inner(caller, file, map)
    }

    /// Flush a handle.
    pub fn fsync(&self, inner: &mut UserInner, caller: CallerInfo, file: u64) -> (r: Result<
        (u64, SchemeEvent),
        Error,
    >)
        requires
            inner_wf(*old(inner)),
            old(inner).next_id < u64::MAX,
        ensures
            inner_wf(*final(inner)),
            submitted(*old(inner), *final(inner), caller, SYS_FSYNC, file, 0, 0, r),
    {
        inner.call(caller, SYS_FSYNC, file, 0, 0)
    }

    /// Truncate a handle.
    pub fn ftruncate(&self, inner: &mut UserInner, caller: CallerInfo, file: u64, len: u64) -> (r:
        Result<(u64, SchemeEvent), Error>)
        requires
            inner_wf(*old(inner)),
            old(inner).next_id < u64::MAX,
        ensures
            inner_wf(*final(inner)),
            submitted(*old(inner), *final(inner), caller, SYS_FTRUNCATE, file, len, 0, r),
    {
        inner.call(caller, SYS_FTRUNCATE, file, len, 0)
    }

    /// Close a handle.
    pub fn close(&self, inner: &mut UserInner, caller: CallerInfo, file: u64) -> (r: Result<
        (u64, SchemeEvent),
        Error,
    >)
        requires
            inner_wf(*old(inner)),
            old(inner).next_id < u64::MAX,
        ensures
            inner_wf(*final(inner)),
            submitted(*old(inner), *final(inner), caller, SYS_CLOSE, file, 0, 0, r),
    {
        inner.call(caller, SYS_CLOSE, file, 0, 0)
    }
}

/// Decode a completed seek: offsets past the signed range are
/// `EOVERFLOW`.
pub fn seek_finish(value: u64) -> (r: Result<i64, Error>)
    ensures
        value <= i64::MAX as u64 ==> r == Ok::<i64, Error>(value as i64),
        value > i64::MAX as u64 ==> r == Err::<i64, Error>(Error { errno: EOVERFLOW }),
{
    if value <= i64::MAX as u64 {
        Ok(value as i64)
    } else {
        Err(Error::new(EOVERFLOW))
    }
}


/// The funmap entry chosen for `ga`: the first entry holding the greatest
/// base at or below it. At most one index satisfies this, so the pick is
/// unambiguous even when entries share a base.
pub open spec fn funmap_pick(fm: Seq<FunmapEntry>, i: int, ga: u64) -> bool {
    &&& 0 <= i < fm.len()
    &&& fm[i].base <= ga
    &&& forall|j: int|
        0 <= j < fm.len() && (#[trigger] fm[j]).base <= ga ==> fm[j].base <= fm[i].base
    &&& forall|j: int| 0 <= j < i ==> (#[trigger] fm[j]).base > ga || fm[j].base < fm[i].base
}

/// What the caller's funmap side-table becomes when the region
/// `[ga, ga + size)` leaves entry `e`: the entry goes, and what it covered
/// before and after the region stays, rebased onto the server's addresses.
pub open spec fn funmap_after_split(
    fm: Seq<FunmapEntry>,
    i: int,
    ga: u64,
    size: u64,
) -> Seq<FunmapEntry> {
    let e = fm[i];
    let before = if e.base < ga {
        seq![FunmapEntry { base: e.base, size: (ga - e.base) as u64, server_base: e.server_base }]
    } else {
        Seq::<FunmapEntry>::empty()
    };
    let after = if ga + size < e.base + e.size {
        seq![
            FunmapEntry {
                base: (ga + size) as u64,
                size: (e.base + e.size - (ga + size)) as u64,
                server_base: (e.server_base + (ga + size - e.base)) as u64,
            },
        ]
    } else {
        Seq::<FunmapEntry>::empty()
    };
    fm.remove(i) + before + after
}

impl UserScheme {
    /// Unmap `[grant_address, grant_address + size)` that an earlier file
    /// mapping placed in the caller's space: translate it back to the
    /// server's coordinates through the funmap side-table, split the entry
    /// around it, and queue `SYS_FUNMAP` with the server-side address.
    /// `EINVAL` names a region no entry covers, one reaching past its
    /// entry, or one whose arithmetic leaves the address space.
    pub fn funmap(
        &self,
        inner: &mut UserInner,
        caller: CallerInfo,
        caller_space: &mut AddrSpace,
        grant_address: u64,
        size: u64,
    ) -> (r: Result<(u64, SchemeEvent), Error>)
        requires
            inner_wf(*old(inner)),
            old(inner).next_id < u64::MAX,
        ensures
            inner_wf(*final(inner)),
            final(caller_space).grants == old(caller_space).grants,
            (forall|j: int|
                0 <= j < old(caller_space).funmap@.len() ==> (#[trigger] old(
                    caller_space,
                ).funmap@[j]).base > grant_address) ==> r == Err::<(u64, SchemeEvent), Error>(
                Error { errno: EINVAL },
            ) && *final(inner) == *old(inner) && *final(caller_space) == *old(caller_space),
            (exists|j: int|
                0 <= j < old(caller_space).funmap@.len() && (#[trigger] old(
                    caller_space,
                ).funmap@[j]).base <= grant_address) ==> exists|i: int|
                {
                    let e = old(caller_space).funmap@[i];
                    &&& #[trigger] funmap_pick(old(caller_space).funmap@, i, grant_address)
                    &&& if grant_address + size > e.base + e.size || e.base + e.size > u64::MAX
                        || e.server_base + e.size > u64::MAX {
                        r == Err::<(u64, SchemeEvent), Error>(Error { errno: EINVAL })
                            && *final(inner) == *old(inner) && *final(caller_space) == *old(
                            caller_space)
                    } else {
                        &&& final(caller_space).funmap@ == funmap_after_split(
                            old(caller_space).funmap@,
                            i,
                            grant_address,
                            size,
                        )
                        &&& submitted(
                            *old(inner),
                            *final(inner),
                            caller,
                            SYS_FUNMAP,
                            (e.server_base + (grant_address - e.base)) as u64,
                            size,
                            0,
                            r,
                        )
                    }
                },
    {
        let len = caller_space.funmap.len();
        let mut best: Option<usize> = None;
        let mut k: usize = 0;
        while k < len
            invariant
                len == caller_space.funmap@.len(),
                k <= len,
                *caller_space == *old(caller_space),
                match best {
                    Some(b) => {
                        &&& b < len
                        &&& caller_space.funmap@[b as int].base <= grant_address
                        &&& forall|j: int|
                            0 <= j < k && (#[trigger] caller_space.funmap@[j]).base
                                <= grant_address ==> caller_space.funmap@[j].base
                                <= caller_space.funmap@[b as int].base
                        &&& forall|j: int|
                            0 <= j < b ==> (#[trigger] caller_space.funmap@[j]).base
                                > grant_address || caller_space.funmap@[j].base
                                < caller_space.funmap@[b as int].base
                    },
                    None => forall|j: int|
                        0 <= j < k ==> (#[trigger] caller_space.funmap@[j]).base
                            > grant_address,
                },
            decreases len - k,
        {
            let base = caller_space.funmap[k].base;
            if base <= grant_address {
                let better = match best {
                    Some(b) => base > caller_space.funmap[b].base,
                    None => true,
                };
                if better {
                    best = Some(k);
                }
            }
            k += 1;
        }
        let i = match best {
            Some(i) => i,
            None => {
                return Err(Error::new(EINVAL));
            },
        };
        let e = caller_space.funmap[i];
        let e_end_ok = e.size <= u64::MAX - e.base;
        let req_end_ok = size <= u64::MAX - grant_address;
        let srv_ok = e.size <= u64::MAX - e.server_base;
        if !e_end_ok || !req_end_ok || !srv_ok || grant_address + size > e.base + e.size {
            proof {
                assert(funmap_pick(caller_space.funmap@, i as int, grant_address));
            }
            return Err(Error::new(EINVAL));
        }
        let user_addr = e.server_base + (grant_address - e.base);
        caller_space.funmap.remove(i);
        if e.base < grant_address {
            caller_space.funmap.push(
                FunmapEntry { base: e.base, size: grant_address - e.base, server_base: e.server_base },
            );
        }
        if grant_address + size < e.base + e.size {
            caller_space.funmap.push(
                FunmapEntry {
                    base: grant_address + size,
                    size: (e.base + e.size) - (grant_address + size),
                    server_base: e.server_base + (grant_address + size - e.base),
                },
            );
        }
        proof {
            assert(funmap_pick(old(caller_space).funmap@, i as int, grant_address));
            assert(caller_space.funmap@ =~= funmap_after_split(
                old(caller_space).funmap@,
                i as int,
                grant_address,
                size,
            ));
        }
        inner.call(caller, SYS_FUNMAP, user_addr, size, 0)
    }
}

} // verus!
