//! The scheme contract: the closed set of file-like operations, the records
//! they exchange, and the built-in `memory:` scheme.
use vstd::prelude::*;

use crate::error::{Error, EINVAL};
use crate::memory::{allocator_wf, space_wf, AddrSpace, FrameAllocator};
use crate::{PAGE_SIZE, USER_END_OFFSET};

verus! {

pub const SYS_OPEN: u64 = 1;
pub const SYS_RMDIR: u64 = 2;
pub const SYS_UNLINK: u64 = 3;
pub const SYS_DUP: u64 = 4;
pub const SYS_READ: u64 = 5;
pub const SYS_WRITE: u64 = 6;
pub const SYS_LSEEK: u64 = 7;
pub const SYS_FCHMOD: u64 = 8;
pub const SYS_FCHOWN: u64 = 9;
pub const SYS_FCNTL: u64 = 10;
pub const SYS_FEVENT: u64 = 11;
pub const SYS_FMAP: u64 = 12;
pub const SYS_FUNMAP: u64 = 13;
pub const SYS_FPATH: u64 = 14;
pub const SYS_FRENAME: u64 = 15;
pub const SYS_FSTAT: u64 = 16;
pub const SYS_FSTATVFS: u64 = 17;
pub const SYS_FSYNC: u64 = 18;
pub const SYS_FTRUNCATE: u64 = 19;
pub const SYS_FUTIMENS: u64 = 20;
pub const SYS_CLOSE: u64 = 21;

/// Open flag: do not block on reads with nothing queued.
pub const O_NONBLOCK: u64 = 0x4000;

/// Open flag set for read-only access.
pub const O_RDONLY: u64 = 0;

/// Arguments of a file mapping request.
#[derive(Copy, Clone, Debug, PartialEq, Eq, Structural)]
pub struct MapInfo {
    /// Requested user address, or zero for anywhere.
    pub address: u64,
    /// Bytes to map.
    pub size: u64,
    /// Offset into the file.
    pub offset: u64,
    /// Protection and sharing bits.
    pub flags: u64,
}

/// What `fstatvfs` reports: the page size and the frame counts.
#[derive(Copy, Clone, Debug, PartialEq, Eq, Structural)]
pub struct StatVfs {
    pub f_bsize: u32,
    pub f_blocks: u64,
    pub f_bfree: u64,
    pub f_bavail: u64,
}

/// The built-in `memory:` scheme: anonymous zero-filled mappings in the
/// caller's own address space, no server behind it.
pub struct MemoryScheme;

impl MemoryScheme {
    pub fn new() -> (r: Self)
        ensures
            r == MemoryScheme,
    {
        MemoryScheme
    }

    /// Allocate a zero-filled anonymous grant in `addr_space`, at the page
    /// of `map.address` when that is non-zero, of `ceil(map.size)` pages.
    /// `EINVAL` rejects an empty or unaligned request, `ENOMEM` a machine or
    /// space with no room.
    pub fn fmap_anonymous(
        addr_space: &mut AddrSpace,
        allocator: &mut FrameAllocator,
        map: &MapInfo,
    ) -> (r: Result<u64, Error>)
        requires
            space_wf(*old(addr_space)),
            allocator_wf(*old(allocator)),
        ensures
            space_wf(*final(addr_space)),
            allocator_wf(*final(allocator)),
            anon_mapped(
                *old(addr_space),
                *final(addr_space),
                *old(allocator),
                *final(allocator),
                *map,
                r,
            ),
    {
        if map.size == 0 || map.address % PAGE_SIZE != 0 {
            return Err(Error::new(EINVAL));
        }
        if map.size > USER_END_OFFSET {
            return Err(Error::new(crate::error::ENOMEM));
        }
        let page_count = (map.size + PAGE_SIZE - 1) / PAGE_SIZE;
        let requested = if map.address != 0 {
            Some(map.address / PAGE_SIZE)
        } else {
            None
        };
        let frames = match allocator.allocate(page_count) {
            Ok(frames) => frames,
            Err(e) => {
                return Err(e);
            },
        };
        match addr_space.mmap(requested, frames, map.flags, true, None) {
            Ok(p) => {
                proof {
                    let pi = p as int;
                    let page = PAGE_SIZE as int;
                    assert((pi * page) % page == 0 && (pi * page) / page == pi && pi * page
                        <= USER_END_OFFSET) by (nonlinear_arith)
                        requires
                            0 <= pi <= crate::memory::USER_END_PAGE,
                            USER_END_OFFSET == crate::memory::USER_END_PAGE as int * page,
                            page == 4096,
                    ;
                    if map.address != 0 {
                        vstd::arithmetic::div_mod::lemma_fundamental_div_mod(
                            map.address as int,
                            PAGE_SIZE as int,
                        );
                    }
                }
                Ok(p * PAGE_SIZE)
            },
            Err(e) => Err(e),
        }
    }


    /// Map anonymous memory for the caller: the file id plays no role, the
    /// caller's own address space receives the grant.
    pub fn fmap(
        &self,
        _id: u64,
        addr_space: &mut AddrSpace,
        allocator: &mut FrameAllocator,
        map: &MapInfo,
    ) -> (r: Result<u64, Error>)
        requires
            space_wf(*old(addr_space)),
            allocator_wf(*old(allocator)),
        ensures
            space_wf(*final(addr_space)),
            allocator_wf(*final(allocator)),
            anon_mapped(
                *old(addr_space),
                *final(addr_space),
                *old(allocator),
                *final(allocator),
                *map,
                r,
            ),
    {
        Self::fmap_anonymous(addr_space, allocator, map)
    }

    /// The privileged variant for kernel-resident callers: map anonymous
    /// memory into an explicitly named address space.
    pub fn kfmap(
        &self,
        _number: u64,
        addr_space: &mut AddrSpace,
        allocator: &mut FrameAllocator,
        map: &MapInfo,
        _consume: bool,
    ) -> (r: Result<u64, Error>)
        requires
            space_wf(*old(addr_space)),
            allocator_wf(*old(allocator)),
        ensures
            space_wf(*final(addr_space)),
            allocator_wf(*final(allocator)),
            anon_mapped(
                *old(addr_space),
                *final(addr_space),
                *old(allocator),
                *final(allocator),
                *map,
                r,
            ),
    {
        Self::fmap_anonymous(addr_space, allocator, map)
    }

    /// Opening any path on the memory scheme yields handle zero.
    pub fn open(&self, _path: &str, _flags: u64, _uid: u32, _gid: u32) -> (r: Result<u64, Error>)
        ensures
            r == Ok::<u64, Error>(0),
    {
        Ok(0)
    }

    /// Report the page size and how many frames the machine has and has
    /// free.
    pub fn fstatvfs(&self, _file: u64, used_frames: u64, free_frames: u64, stat: &mut StatVfs)
        -> (r: Result<u64, Error>)
        requires
            used_frames + free_frames <= u64::MAX,
        ensures
            r == Ok::<u64, Error>(0),
            final(stat).f_bsize == PAGE_SIZE,
            final(stat).f_blocks == used_frames + free_frames,
            final(stat).f_bfree == free_frames,
            final(stat).f_bavail == free_frames,
    {
        stat.f_bsize = PAGE_SIZE as u32;
        stat.f_blocks = used_frames + free_frames;
        stat.f_bfree = free_frames;
        stat.f_bavail = stat.f_bfree;
        Ok(0)
    }

    /// The scheme's path, truncated to the room the caller has.
    pub fn fpath(&self, _file: u64, buf_len: usize) -> (r: Vec<u8>)
        ensures
            r@.len() == vstd::math::min(7, buf_len as int),
            r@ == memory_scheme_path().take(r@.len() as int),
    {
        let n = if buf_len < 7 {
            buf_len
        } else {
            7
        };
        let mut out: Vec<u8> = Vec::new();
        out.push(109);
        out.push(101);
        out.push(109);
        out.push(111);
        out.push(114);
        out.push(121);
        out.push(58);
        proof {
            assert(out@ =~= memory_scheme_path());
        }
        out.truncate(n);
        proof {
            assert(out@ =~= memory_scheme_path().take(out@.len() as int));
        }
        out
    }

    /// `fcntl` has nothing to change on this scheme.
    pub fn fcntl(&self, _file: u64, _cmd: u64, _arg: u64) -> (r: Result<u64, Error>)
        ensures
            r == Ok::<u64, Error>(0),
    {
        Ok(0)
    }

    /// Closing a memory handle has nothing to undo.
    pub fn close(&self, _file: u64) -> (r: Result<u64, Error>)
        ensures
            r == Ok::<u64, Error>(0),
    {
        Ok(0)
    }
}


/// The outcome of mapping an anonymous region: on success exactly one new
/// owned grant of fresh zeroed frames, at the requested page when one was
/// named; on failure an untouched space, `EINVAL` for an empty or
/// unaligned request and `ENOMEM` exactly when the machine or the space
/// has no room.
pub open spec fn anon_mapped(
    old_space: AddrSpace,
    new_space: AddrSpace,
    old_alloc: FrameAllocator,
    new_alloc: FrameAllocator,
    map: MapInfo,
    r: Result<u64, Error>,
) -> bool {
    match r {
        Ok(a) => {
            let count = (map.size as int + PAGE_SIZE - 1) / (PAGE_SIZE as int);
            let g = new_space.grants@[old_space.grants@.len() as int];
            &&& map.size > 0
            &&& map.address % PAGE_SIZE == 0
            &&& (map.address != 0 ==> a == map.address)
            &&& a % PAGE_SIZE == 0
            &&& new_space.grants@.len() == old_space.grants@.len() + 1
            &&& new_space.grants@.subrange(0, old_space.grants@.len() as int)
                == old_space.grants@
            &&& new_space.funmap == old_space.funmap
            &&& g.start_page == a / PAGE_SIZE
            &&& g.frames@.len() == count
            &&& g.flags == map.flags
            &&& g.owned
            &&& g.file_ref is None
            &&& forall|k: int|
                0 <= k < count ==> #[trigger] g.frames@[k] == old_alloc.next + k
        },
        Err(e) => {
            &&& new_space == old_space
            &&& new_alloc.next >= old_alloc.next
            &&& ((map.size == 0 || map.address % PAGE_SIZE != 0) <==> e.errno == EINVAL)
            &&& (!(map.size == 0 || map.address % PAGE_SIZE != 0) ==> e.errno
                == crate::error::ENOMEM && (map.size > USER_END_OFFSET || old_alloc.next + (
            map.size as int + PAGE_SIZE - 1) / (PAGE_SIZE as int) > crate::memory::MAX_PHYS_FRAME
                + 1 || !crate::memory::room_for(
                old_space,
                if map.address != 0 {
                    Some((map.address / PAGE_SIZE) as u64)
                } else {
                    None
                },
                (map.size as int + PAGE_SIZE - 1) / (PAGE_SIZE as int),
            )))
        },
    }
}

/// The bytes of `"memory:"`.
pub open spec fn memory_scheme_path() -> Seq<u8> {
    seq![109u8, 101u8, 109u8, 111u8, 114u8, 121u8, 58u8]
}

} // verus!
