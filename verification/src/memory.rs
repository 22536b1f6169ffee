//! Address spaces: page-granular grants, translation, mapping and release.
//!
//! An address space owns a set of disjoint grants. A grant covers a run of
//! pages and records the physical frame behind each page, whether the frames
//! are owned (anonymous memory) or borrowed from another space, and the file
//! reference a borrowed mapping may carry for later writeback.
use vstd::prelude::*;

use crate::context::FileDescriptor;
use crate::error::{Error, EFAULT, ENOMEM};
use crate::{PAGE_SIZE, USER_END_OFFSET};

verus! {

pub const PROT_READ: u64 = 1;
pub const PROT_WRITE: u64 = 2;
pub const PROT_EXEC: u64 = 4;
pub const MAP_SHARED: u64 = 8;
pub const MAP_PRIVATE: u64 = 16;
pub const MAP_FIXED: u64 = 32;

/// Number of the last page below the user boundary plus one.
pub const USER_END_PAGE: u64 = USER_END_OFFSET / PAGE_SIZE;

/// Highest physical frame number the machine can have: physical addresses
/// stay well inside 64 bits.
pub const MAX_PHYS_FRAME: u64 = 0xFFF_FFFF_FFFF;

/// The file behind a borrowed grant, for later writeback or reopen.
#[derive(Copy, Clone, Debug, PartialEq, Eq, Structural)]
pub struct GrantFileRef {
    pub desc: FileDescriptor,
    pub offset: u64,
    pub flags: u64,
}

/// A contiguous virtual region and its backing, one frame per page.
pub struct Grant {
    /// First page number of the region.
    pub start_page: u64,
    /// Physical frame number behind each page, in order.
    pub frames: Vec<u64>,
    /// Protection and sharing bits of the mapping.
    pub flags: u64,
    /// The frames belong to this grant (anonymous memory) rather than to
    /// another address space it borrowed them from.
    pub owned: bool,
    /// For a borrowed grant created on behalf of a file mapping, the file
    /// it maps.
    pub file_ref: Option<GrantFileRef>,
}

/// The grant covers the page.
pub open spec fn grant_contains(g: Grant, page: u64) -> bool {
    g.start_page <= page < g.start_page + g.frames@.len()
}

/// The two grants cover no page in common.
pub open spec fn grants_do_not_overlap(a: Grant, b: Grant) -> bool {
    a.start_page + a.frames@.len() <= b.start_page || b.start_page + b.frames@.len()
        <= a.start_page
}

/// Every grant is non-empty, lies below the user boundary, and no two
/// overlap: each page has at most one backing.
pub open spec fn grants_wf(gs: Seq<Grant>) -> bool {
    &&& forall|i: int|
        0 <= i < gs.len() ==> 1 <= #[trigger] gs[i].frames@.len() && gs[i].start_page
            + gs[i].frames@.len() <= USER_END_PAGE
    &&& forall|i: int, j: int|
        0 <= i < j < gs.len() ==> grants_do_not_overlap(#[trigger] gs[i], #[trigger] gs[j])
    &&& forall|i: int, k: int|
        0 <= i < gs.len() && 0 <= k < gs[i].frames@.len() ==> #[trigger] gs[i].frames@[k]
            <= MAX_PHYS_FRAME
}

/// An entry of the funmap side-table: a region the kernel mapped into this
/// space on behalf of a server, and the server-local base address it came
/// from.
#[derive(Copy, Clone, Debug, PartialEq, Eq, Structural)]
pub struct FunmapEntry {
    /// First address of the region in this space.
    pub base: u64,
    /// Bytes the region covers, page-aligned.
    pub size: u64,
    /// Base address of the same memory in the server's space.
    pub server_base: u64,
}

/// A user page table with its grants and the funmap side-table.
pub struct AddrSpace {
    pub grants: Vec<Grant>,
    pub funmap: Vec<FunmapEntry>,
}

/// The whole address space is well formed.
pub open spec fn space_wf(s: AddrSpace) -> bool {
    grants_wf(s.grants@)
}

/// Some grant covers the page.
pub open spec fn page_mapped(s: AddrSpace, page: u64) -> bool {
    exists|i: int| 0 <= i < s.grants@.len() && grant_contains(#[trigger] s.grants@[i], page)
}

/// The index of the grant covering the page.
pub open spec fn grant_index_of(s: AddrSpace, page: u64) -> int {
    choose|i: int| 0 <= i < s.grants@.len() && grant_contains(#[trigger] s.grants@[i], page)
}

/// The physical frame behind the page, and whether it is writable.
pub open spec fn spec_translate(s: AddrSpace, page: u64) -> Option<(u64, bool)> {
    if page_mapped(s, page) {
        let g = s.grants@[grant_index_of(s, page)];
        Some((g.frames@[page - g.start_page], g.flags & PROT_WRITE == PROT_WRITE))
    } else {
        None
    }
}

/// One page past the highest page any grant covers: where an
/// unconstrained mapping goes.
pub open spec fn grants_max_end(gs: Seq<Grant>) -> int
    decreases gs.len(),
{
    if gs.len() == 0 {
        0
    } else {
        let rest = grants_max_end(gs.drop_last());
        let last = gs.last().start_page + gs.last().frames@.len();
        if last > rest {
            last as int
        } else {
            rest
        }
    }
}

/// A run of `count` pages can be mapped: the requested region is free and
/// inside the user range, or any region past the in-use part fits.
pub open spec fn room_for(s: AddrSpace, requested_page: Option<u64>, count: int) -> bool {
    match requested_page {
        Some(q) => q + count <= USER_END_PAGE && forall|i: int|
            0 <= i < s.grants@.len() ==> (#[trigger] s.grants@[i]).start_page
                + s.grants@[i].frames@.len() <= q || q + count <= s.grants@[i].start_page,
        None => grants_max_end(s.grants@) + count <= USER_END_PAGE,
    }
}

/// A supply of free physical frames, handed out in order. `used` counts
/// what left it; the total of the machine stays with the caller.
pub struct FrameAllocator {
    pub next: u64,
    pub used: u64,
}

/// The allocator never hands out a frame past the machine's last one, and
/// never counts more used frames than it handed out.
pub open spec fn allocator_wf(a: FrameAllocator) -> bool {
    a.used <= a.next <= MAX_PHYS_FRAME + 1
}

impl FrameAllocator {
    pub fn new(first_frame: u64) -> (r: FrameAllocator)
        requires
            first_frame <= MAX_PHYS_FRAME + 1,
        ensures
            r.next == first_frame,
            r.used == 0,
            allocator_wf(r),
    {
        FrameAllocator { next: first_frame, used: 0 }
    }

    /// Hand out `count` fresh consecutive frames, or `ENOMEM` when the
    /// machine has too few left.
    pub fn allocate(&mut self, count: u64) -> (r: Result<Vec<u64>, Error>)
        requires
            allocator_wf(*old(self)),
        ensures
            allocator_wf(*final(self)),
            match r {
                Ok(frames) => {
                    &&& old(self).next + count <= MAX_PHYS_FRAME + 1
                    &&& frames@.len() == count
                    &&& forall|k: int|
                        0 <= k < count ==> #[trigger] frames@[k] == old(self).next + k
                    &&& final(self).next == old(self).next + count
                    &&& final(self).used == old(self).used + count
                },
                Err(e) => {
                    &&& e.errno == ENOMEM
                    &&& *final(self) == *old(self)
                    &&& old(self).next + count > MAX_PHYS_FRAME + 1
                },
            },
    {
        if count > MAX_PHYS_FRAME + 1 - self.next {
            return Err(Error::new(ENOMEM));
        }
        let mut frames: Vec<u64> = Vec::new();
        let mut k: u64 = 0;
        while k < count
            invariant
                k <= count,
                count <= MAX_PHYS_FRAME + 1 - self.next,
                frames@.len() == k,
                forall|m: int| 0 <= m < k ==> #[trigger] frames@[m] == self.next + m,
                *self == *old(self),
                allocator_wf(*self),
            decreases count - k,
        {
            frames.push(self.next + k);
            k += 1;
        }
        self.next = self.next + count;
        self.used = self.used + count;
        Ok(frames)
    }
}

/// Every grant ends at or before the running maximum.
pub proof fn lemma_grants_max_end_bound(gs: Seq<Grant>, j: int)
    requires
        0 <= j < gs.len(),
    ensures
        gs[j].start_page + gs[j].frames@.len() <= grants_max_end(gs),
    decreases gs.len(),
{
    if j == gs.len() - 1 {
        assert(gs.last() == gs[j]);
    } else {
        lemma_grants_max_end_bound(gs.drop_last(), j);
        assert(gs.drop_last()[j] == gs[j]);
    }
}

impl AddrSpace {
    pub fn new() -> (r: AddrSpace)
        ensures
            r.grants@.len() == 0,
            r.funmap@.len() == 0,
            space_wf(r),
    {
        AddrSpace { grants: Vec::new(), funmap: Vec::new() }
    }

    /// Find the grant covering `page`.
    fn find_grant(&self, page: u64) -> (r: Option<usize>)
        requires
            space_wf(*self),
        ensures
            match r {
                Some(i) => i < self.grants@.len() && grant_contains(self.grants@[i as int], page)
                    && i == grant_index_of(*self, page),
                None => !page_mapped(*self, page),
            },
    {
        let len = self.grants.len();
        let mut i: usize = 0;
        while i < len
            invariant
                space_wf(*self),
                len == self.grants@.len(),
                i <= len,
                forall|j: int|
                    0 <= j < i ==> !grant_contains(#[trigger] self.grants@[j], page),
            decreases len - i,
        {
            let g = &self.grants[i];
            let count = g.frames.len() as u64;
            if g.start_page <= page && page - g.start_page < count {
                proof {
                    assert(page_mapped(*self, page)) by {
                        assert(grant_contains(self.grants@[i as int], page));
                    }
                    let j = grant_index_of(*self, page);
                    if j < i as int {
                        assert(grants_do_not_overlap(self.grants@[j], self.grants@[i as int]));
                    } else if j > i as int {
                        assert(grants_do_not_overlap(self.grants@[i as int], self.grants@[j]));
                    }
                }
                return Some(i);
            }
            i += 1;
        }
        None
    }

    /// The frame behind `page` and whether it is writable, or nothing when
    /// no grant covers the page.
    pub fn translate(&self, page: u64) -> (r: Option<(u64, bool)>)
        requires
            space_wf(*self),
        ensures
            r == spec_translate(*self, page),
            match r {
                Some((frame, _)) => frame <= MAX_PHYS_FRAME,
                None => true,
            },
    {
        match self.find_grant(page) {
            Some(i) => {
                let g = &self.grants[i];
                let off = page - g.start_page;
                let n = g.frames.len();
                proof {
                    assert(off < n);
                }
                let frame = g.frames[off as usize];
                Some((frame, g.flags & PROT_WRITE == PROT_WRITE))
            },
            None => None,
        }
    }

    /// First page of a run of `count` free pages: at the requested page, or
    /// anywhere below the user boundary. `None` when nothing fits.
    fn find_place(&self, requested_page: Option<u64>, count: u64) -> (r: Option<u64>)
        requires
            space_wf(*self),
            1 <= count,
        ensures
            match r {
                Some(p) => {
                    &&& p + count <= USER_END_PAGE
                    &&& forall|i: int|
                        0 <= i < self.grants@.len() ==> (#[trigger] self.grants@[i]).start_page
                            + self.grants@[i].frames@.len() <= p || p + count
                            <= self.grants@[i].start_page
                    &&& match requested_page {
                        Some(q) => p == q,
                        None => true,
                    }
                    &&& room_for(*self, requested_page, count as int)
                },
                None => !room_for(*self, requested_page, count as int),
            },
    {
        match requested_page {
            Some(q) => {
                if count > USER_END_PAGE || q > USER_END_PAGE - count {
                    return None;
                }
                let len = self.grants.len();
                let mut i: usize = 0;
                while i < len
                    invariant
                        space_wf(*self),
                        len == self.grants@.len(),
                        i <= len,
                        q + count <= USER_END_PAGE,
                        requested_page == Some(q),
                        forall|j: int|
                            0 <= j < i ==> (#[trigger] self.grants@[j]).start_page
                                + self.grants@[j].frames@.len() <= q || q + count
                                <= self.grants@[j].start_page,
                    decreases len - i,
                {
                    let g = &self.grants[i];
                    let gcount = g.frames.len() as u64;
                    if !(g.start_page + gcount <= q || q + count <= g.start_page) {
                        proof {
                            let gi = self.grants@[i as int];
                            assert(!(gi.start_page + gi.frames@.len() <= q || q + count
                                <= gi.start_page));
                        }
                        return None;
                    }
                    i += 1;
                }
                Some(q)
            },
            None => {
                let len = self.grants.len();
                let mut end: u64 = 0;
                let mut i: usize = 0;
                while i < len
                    invariant
                        space_wf(*self),
                        len == self.grants@.len(),
                        i <= len,
                        end <= USER_END_PAGE,
                        end == grants_max_end(self.grants@.subrange(0, i as int)),
                    decreases len - i,
                {
                    let g = &self.grants[i];
                    let gend = g.start_page + g.frames.len() as u64;
                    proof {
                        assert(self.grants@.subrange(0, i + 1).drop_last() =~= self.grants@
                            .subrange(0, i as int));
                        assert(self.grants@.subrange(0, i + 1).last() == self.grants@[i as int]);
                    }
                    if gend > end {
                        end = gend;
                    }
                    i += 1;
                }
                proof {
                    assert(self.grants@.subrange(0, len as int) =~= self.grants@);
                    assert forall|j: int|
                        0 <= j < self.grants@.len() implies (#[trigger] self.grants@[j]).start_page
                        + self.grants@[j].frames@.len() <= end by {
                        lemma_grants_max_end_bound(self.grants@, j);
                    }
                }
                if count <= USER_END_PAGE - end {
                    Some(end)
                } else {
                    None
                }
            },
        }
    }

    /// Map a new grant of the given frames, at the requested page or
    /// anywhere. On success the space gains exactly that grant; on failure
    /// it is untouched and `ENOMEM` says the region cannot be had.
    pub fn mmap(
        &mut self,
        requested_page: Option<u64>,
        frames: Vec<u64>,
        flags: u64,
        owned: bool,
        file_ref: Option<GrantFileRef>,
    ) -> (r: Result<u64, Error>)
        requires
            space_wf(*old(self)),
            1 <= frames@.len(),
            forall|k: int| 0 <= k < frames@.len() ==> #[trigger] frames@[k] <= MAX_PHYS_FRAME,
        ensures
            space_wf(*final(self)),
            match r {
                Ok(p) => {
                    let g = final(self).grants@[old(self).grants@.len() as int];
                    &&& room_for(*old(self), requested_page, frames@.len() as int)
                    &&& p + frames@.len() <= USER_END_PAGE
                    &&& (match requested_page {
                        Some(q) => p == q,
                        None => true,
                    })
                    &&& final(self).grants@.len() == old(self).grants@.len() + 1
                    &&& final(self).grants@.subrange(0, old(self).grants@.len() as int) == old(
                        self,
                    ).grants@
                    &&& g.start_page == p
                    &&& g.frames == frames
                    &&& g.flags == flags
                    &&& g.owned == owned
                    &&& g.file_ref == file_ref
                    &&& final(self).funmap == old(self).funmap
                },
                Err(e) => e.errno == ENOMEM && *final(self) == *old(self) && !room_for(
                    *old(self),
                    requested_page,
                    frames@.len() as int,
                ),
            },
    {
        let count = frames.len() as u64;
        let p = match self.find_place(requested_page, count) {
            Some(p) => p,
            None => {
                return Err(Error::new(ENOMEM));
            },
        };
        let g = Grant { start_page: p, frames, flags, owned, file_ref };
        self.grants.push(g);
        proof {
            assert forall|i: int, j: int| 0 <= i < j < self.grants@.len() implies
                grants_do_not_overlap(#[trigger] self.grants@[i], #[trigger] self.grants@[j]) by {
                if j < self.grants@.len() - 1 {
                    assert(self.grants@[i] == old(self).grants@[i]);
                    assert(self.grants@[j] == old(self).grants@[j]);
                } else {
                    assert(self.grants@[i] == old(self).grants@[i]);
                }
            }
        }
        Ok(p)
    }

    /// Unmap the grant whose region contains `address` and say what it was.
    /// `EFAULT` when no grant contains it; the space is then untouched.
    pub fn release_at(&mut self, address: u64) -> (r: Result<Grant, Error>)
        requires
            space_wf(*old(self)),
        ensures
            space_wf(*final(self)),
            match r {
                Ok(g) => {
                    let i = grant_index_of(*old(self), address / PAGE_SIZE);
                    &&& page_mapped(*old(self), address / PAGE_SIZE)
                    &&& g == old(self).grants@[i]
                    &&& final(self).grants@ == old(self).grants@.remove(i)
                    &&& final(self).funmap == old(self).funmap
                },
                Err(e) => {
                    &&& e.errno == EFAULT
                    &&& !page_mapped(*old(self), address / PAGE_SIZE)
                    &&& *final(self) == *old(self)
                },
            },
    {
        let page = address / PAGE_SIZE;
        match self.find_grant(page) {
            Some(i) => {
                let g = self.grants.remove(i);
                proof {
                    assert forall|a: int, b: int| 0 <= a < b < self.grants@.len() implies
                        grants_do_not_overlap(
                            #[trigger] self.grants@[a],
                            #[trigger] self.grants@[b],
                        ) by {
                        let s = old(self).grants@;
                        let af: int = if a < i {
                            a
                        } else {
                            a + 1
                        };
                        let bf: int = if b < i {
                            b
                        } else {
                            b + 1
                        };
                        assert(self.grants@[a] == s[af]);
                        assert(self.grants@[b] == s[bf]);
                    }
                }
                Ok(g)
            },
            None => Err(Error::new(EFAULT)),
        }
    }
}

/// Where `[address, address + size)` ends once clipped to the user
/// boundary.
pub open spec fn clipped_end(address: u64, size: u64) -> int {
    if address + size > USER_END_OFFSET {
        USER_END_OFFSET as int
    } else {
        address + size
    }
}

/// How many pages a capture of `size` bytes at `address` covers: the pages
/// from the one containing `address` up to the one past the clipped end.
pub open spec fn capture_page_count(address: u64, size: u64) -> int {
    (clipped_end(address, size) - (address / PAGE_SIZE) * PAGE_SIZE + PAGE_SIZE - 1) / (
    PAGE_SIZE as int)
}

/// Every page a capture would cover is mapped in the source space.
pub open spec fn capture_src_mapped(src: AddrSpace, address: u64, size: u64) -> bool {
    &&& address < USER_END_OFFSET
    &&& forall|k: int|
        0 <= k < capture_page_count(address, size) ==> #[trigger] page_mapped(
            src,
            (address / PAGE_SIZE + k) as u64,
        )
}

/// A capture of `[address, address + size)` into `dst` can succeed: the
/// buffer is empty, or every source page is mapped and the destination has
/// room at the requested place.
pub open spec fn capture_succeeds_at(
    dst: AddrSpace,
    src: AddrSpace,
    dst_address: u64,
    address: u64,
    size: u64,
) -> bool {
    size == 0 || (capture_src_mapped(src, address, size) && room_for(
        dst,
        if dst_address != 0 {
            Some((dst_address / PAGE_SIZE) as u64)
        } else {
            None
        },
        capture_page_count(address, size),
    ))
}

/// Which error a failed capture reports: a source page that is not mapped
/// is `EFAULT`, a destination without room is `ENOMEM`.
pub open spec fn capture_error(src: AddrSpace, address: u64, size: u64) -> u64 {
    if !capture_src_mapped(src, address, size) {
        EFAULT
    } else {
        ENOMEM
    }
}

/// `new_s` is `old_s` after capturing `[address, address + size)` from
/// `src`, with `a` the address handed to the server: the dangling sentinel
/// and no new grant for an empty buffer, otherwise exactly one new borrowed
/// grant over the covered pages, pointing at the source's frames, with the
/// source's offset inside the first page preserved in `a`.
pub open spec fn capture_grants_into(
    old_s: AddrSpace,
    new_s: AddrSpace,
    src: AddrSpace,
    dst_address: u64,
    address: u64,
    size: u64,
    flags: u64,
    file_ref: Option<GrantFileRef>,
    a: u64,
) -> bool {
    if size == 0 {
        new_s.grants == old_s.grants && a == crate::DANGLING
    } else {
        let g = new_s.grants@.last();
        &&& a < USER_END_OFFSET
        &&& a % PAGE_SIZE == address % PAGE_SIZE
        &&& (dst_address != 0 ==> a / PAGE_SIZE == dst_address / PAGE_SIZE)
        &&& new_s.grants@.len() == old_s.grants@.len() + 1
        &&& new_s.grants@.subrange(0, old_s.grants@.len() as int) == old_s.grants@
        &&& g.start_page == a / PAGE_SIZE
        &&& g.frames@.len() == capture_page_count(address, size)
        &&& g.flags == flags
        &&& !g.owned
        &&& g.file_ref == file_ref
        &&& forall|k: int|
            0 <= k < g.frames@.len() ==> #[trigger] g.frames@[k] == (spec_translate(
                src,
                (address / PAGE_SIZE + k) as u64,
            )->0).0
    }
}

pub open spec fn captured_into_at(
    old_s: AddrSpace,
    new_s: AddrSpace,
    src: AddrSpace,
    dst_address: u64,
    address: u64,
    size: u64,
    flags: u64,
    file_ref: Option<GrantFileRef>,
    a: u64,
) -> bool {
    &&& capture_grants_into(old_s, new_s, src, dst_address, address, size, flags, file_ref, a)
    &&& new_s.funmap == old_s.funmap
}

/// Releasing the address a capture handed out undoes exactly that capture:
/// the borrowed grant is the only one containing the address, so removing
/// it returns the space's grants to what they were before the capture.
pub proof fn lemma_release_undoes_capture(
    old_s: AddrSpace,
    mid_s: AddrSpace,
    src: AddrSpace,
    dst_address: u64,
    address: u64,
    size: u64,
    flags: u64,
    file_ref: Option<GrantFileRef>,
    a: u64,
)
    requires
        space_wf(mid_s),
        size > 0,
        capture_grants_into(old_s, mid_s, src, dst_address, address, size, flags, file_ref, a),
    ensures
        page_mapped(mid_s, a / PAGE_SIZE),
        grant_index_of(mid_s, a / PAGE_SIZE) == old_s.grants@.len(),
        mid_s.grants@.remove(old_s.grants@.len() as int) == old_s.grants@,
{
    let n = old_s.grants@.len() as int;
    let g = mid_s.grants@[n];
    assert(g == mid_s.grants@.last());
    assert(1 <= g.frames@.len());
    assert(grant_contains(g, a / PAGE_SIZE));
    assert(page_mapped(mid_s, a / PAGE_SIZE)) by {
        assert(grant_contains(mid_s.grants@[n], a / PAGE_SIZE));
    }
    let j = grant_index_of(mid_s, a / PAGE_SIZE);
    if j < n {
        assert(grants_do_not_overlap(mid_s.grants@[j], mid_s.grants@[n]));
        assert(false);
    }
    assert(mid_s.grants@.remove(n) =~= old_s.grants@) by {
        assert forall|k: int| 0 <= k < n implies mid_s.grants@.remove(n)[k] == old_s.grants@[k] by {
            assert(mid_s.grants@[k] == mid_s.grants@.subrange(0, n)[k]);
        }
    }
}

/// A capture is zero-copy: every page of the server's captured view
/// resolves to the same physical frame as the corresponding page of the
/// caller's buffer, so bytes written through one mapping are read through
/// the other.
pub proof fn lemma_capture_zero_copy(
    old_s: AddrSpace,
    new_s: AddrSpace,
    src: AddrSpace,
    dst_address: u64,
    address: u64,
    size: u64,
    flags: u64,
    file_ref: Option<GrantFileRef>,
    a: u64,
    k: int,
)
    requires
        space_wf(new_s),
        size > 0,
        capture_grants_into(old_s, new_s, src, dst_address, address, size, flags, file_ref, a),
        0 <= k < capture_page_count(address, size),
    ensures
        page_mapped(new_s, (a / PAGE_SIZE + k) as u64),
        (spec_translate(new_s, (a / PAGE_SIZE + k) as u64)->0).0 == (spec_translate(
            src,
            (address / PAGE_SIZE + k) as u64,
        )->0).0,
{
    let n = old_s.grants@.len() as int;
    let g = new_s.grants@[n];
    assert(g == new_s.grants@.last());
    let page = (a / PAGE_SIZE + k) as u64;
    assert(g.start_page + g.frames@.len() <= USER_END_PAGE);
    assert(grant_contains(g, page));
    assert(page_mapped(new_s, page)) by {
        assert(grant_contains(new_s.grants@[n], page));
    }
    let j = grant_index_of(new_s, page);
    if j < n {
        assert(grants_do_not_overlap(new_s.grants@[j], new_s.grants@[n]));
        assert(false);
    }
    assert(spec_translate(new_s, page)->0 == (g.frames@[page - g.start_page], g.flags
        & PROT_WRITE == PROT_WRITE));
    assert(page - g.start_page == k);
    assert(g.frames@[k] == (spec_translate(src, (address / PAGE_SIZE + k) as u64)->0).0);
}

/// The page range a capture covers is exactly `[floor(address), ceil(end))`
/// in page numbers, with the end clipped to the user boundary.
pub proof fn lemma_capture_page_range(address: u64, size: u64)
    requires
        address < USER_END_OFFSET,
        size > 0,
    ensures
        capture_page_count(address, size) == (clipped_end(address, size) + PAGE_SIZE - 1) / (
        PAGE_SIZE as int) - address / PAGE_SIZE,
        capture_page_count(address, size) >= 1,
{
    let first = (address / PAGE_SIZE) as int;
    let end = clipped_end(address, size);
    assert(first * PAGE_SIZE <= address < (first + 1) * PAGE_SIZE) by (nonlinear_arith)
        requires
            first == address as int / PAGE_SIZE as int,
            address >= 0,
    ;
    assert(end > address);
    assert((end - first * PAGE_SIZE + PAGE_SIZE - 1) / (PAGE_SIZE as int) == (end + PAGE_SIZE - 1)
        / (PAGE_SIZE as int) - first) by (nonlinear_arith)
        requires
            first >= 0,
            end >= first * PAGE_SIZE,
    ;
    assert((end - first * PAGE_SIZE + PAGE_SIZE - 1) / (PAGE_SIZE as int) >= 1) by (
    nonlinear_arith)
        requires
            end > first * PAGE_SIZE >= 0,
    ;
}

/// Borrow the caller's buffer `[address, address + size)` from `src` into a
/// fresh grant of `dst` pointing at the same physical frames, at the page of
/// `dst_address` when it is non-zero. The returned server-side address keeps
/// the offset of `address` inside its page. A zero-length buffer maps to the
/// dangling sentinel and no grant is made. Pages past the user boundary are
/// dropped; `EFAULT` names a source page that is not mapped, `ENOMEM` a
/// destination without room.
pub fn capture_to(
    dst: &mut AddrSpace,
    src: &AddrSpace,
    dst_address: u64,
    address: u64,
    size: u64,
    flags: u64,
    file_ref: Option<GrantFileRef>,
) -> (r: Result<u64, Error>)
    requires
        space_wf(*old(dst)),
        space_wf(*src),
    ensures
        space_wf(*final(dst)),
        match r {
            Ok(a) => capture_succeeds_at(*old(dst), *src, dst_address, address, size)
                && captured_into_at(
                *old(dst),
                *final(dst),
                *src,
                dst_address,
                address,
                size,
                flags,
                file_ref,
                a,
            ),
            Err(e) => {
                &&& *final(dst) == *old(dst)
                &&& !capture_succeeds_at(*old(dst), *src, dst_address, address, size)
                &&& e.errno == capture_error(*src, address, size)
            },
        },
{
    if size == 0 {
        return Ok(crate::DANGLING);
    }
    if address >= USER_END_OFFSET {
        return Err(Error::new(EFAULT));
    }
    let offset = address % PAGE_SIZE;
    let first = address / PAGE_SIZE;
    let end = if size > USER_END_OFFSET - address {
        USER_END_OFFSET
    } else {
        address + size
    };
    let count = (end - (address - offset) + PAGE_SIZE - 1) / PAGE_SIZE;
    proof {
        vstd::arithmetic::div_mod::lemma_fundamental_div_mod(address as int, PAGE_SIZE as int);
        assert(address as int - offset == first as int * PAGE_SIZE);
        assert(end as int == clipped_end(address, size));
        assert(count as int == capture_page_count(address, size));
        lemma_capture_page_range(address, size);
        assert(first as int + count == (end as int + PAGE_SIZE - 1) / (PAGE_SIZE as int));
        assert((end as int + PAGE_SIZE - 1) / (PAGE_SIZE as int) <= USER_END_PAGE) by (
        nonlinear_arith)
            requires
                end as int <= USER_END_PAGE as int * PAGE_SIZE,
                PAGE_SIZE == 4096,
        ;
    }
    let mut frames: Vec<u64> = Vec::new();
    let mut k: u64 = 0;
    while k < count
        invariant
            space_wf(*src),
            space_wf(*dst),
            *dst == *old(dst),
            size > 0,
            k <= count,
            first == address / PAGE_SIZE,
            count as int == capture_page_count(address, size),
            first + count <= USER_END_PAGE,
            frames@.len() == k,
            forall|m: int|
                0 <= m < k ==> #[trigger] page_mapped(*src, (address / PAGE_SIZE + m) as u64),
            forall|m: int|
                0 <= m < k ==> #[trigger] frames@[m] == (spec_translate(
                    *src,
                    (address / PAGE_SIZE + m) as u64,
                )->0).0 && frames@[m] <= MAX_PHYS_FRAME,
        decreases count - k,
    {
        match src.translate(first + k) {
            Some((frame, _writable)) => {
                frames.push(frame);
                proof {
                    assert(page_mapped(*src, (address / PAGE_SIZE + k as int) as u64));
                    assert(frames@[k as int] == (spec_translate(
                        *src,
                        (address / PAGE_SIZE + k as int) as u64,
                    )->0).0);
                }
            },
            None => {
                proof {
                    assert(!capture_src_mapped(*src, address, size)) by {
                        assert(!page_mapped(*src, (address / PAGE_SIZE + k as int) as u64));
                    }
                }
                return Err(Error::new(EFAULT));
            },
        }
        k += 1;
    }
    let requested = if dst_address != 0 {
        Some(dst_address / PAGE_SIZE)
    } else {
        None
    };
    match dst.mmap(requested, frames, flags, false, file_ref) {
        Ok(p) => {
            proof {
                let pi = p as int;
                let page = PAGE_SIZE as int;
                let off = offset as int;
                assert((pi * page + off) % page == off && (pi * page + off) / page == pi && pi
                    * page + off < USER_END_OFFSET) by (nonlinear_arith)
                    requires
                        0 <= off < page,
                        0 <= pi,
                        pi + 1 <= USER_END_PAGE,
                        USER_END_OFFSET == USER_END_PAGE as int * page,
                ;
            }
            Ok(p * PAGE_SIZE + offset)
        },
        Err(e) => Err(e),
    }
}

/// Unmap the borrowed grant at `address` in the server's space. Releasing
/// the dangling sentinel of a zero-length capture is a no-op; an address no
/// grant contains is `EFAULT`.
pub fn release(space: &mut AddrSpace, address: u64) -> (r: Result<(), Error>)
    requires
        space_wf(*old(space)),
    ensures
        space_wf(*final(space)),
        address == crate::DANGLING ==> r == Ok::<(), Error>(()) && *final(space) == *old(space),
        address != crate::DANGLING ==> match r {
            Ok(_) => {
                &&& page_mapped(*old(space), address / PAGE_SIZE)
                &&& final(space).grants@ == old(space).grants@.remove(
                    grant_index_of(*old(space), address / PAGE_SIZE),
                )
                &&& final(space).funmap == old(space).funmap
            },
            Err(e) => {
                &&& e.errno == EFAULT
                &&& !page_mapped(*old(space), address / PAGE_SIZE)
                &&& *final(space) == *old(space)
            },
        },
{
    if address == crate::DANGLING {
        return Ok(());
    }
    match space.release_at(address) {
        Ok(_grant) => Ok(()),
        Err(e) => Err(e),
    }
}

/// How long `[start, start + len)` stays once clipped to the user boundary.
pub open spec fn clipped_walk_len(start: u64, len: u64) -> int {
    if start >= USER_END_OFFSET {
        0
    } else if start + len > USER_END_OFFSET {
        USER_END_OFFSET - start
    } else {
        len as int
    }
}

/// The chunk list partitions `[start, start + l)`: it starts at `start`,
/// each chunk continues where the previous ended, none is empty or crosses
/// a page boundary, and the last ends at `start + l`.
pub open spec fn chunks_cover(chunks: Seq<(u64, u64)>, start: u64, l: int) -> bool {
    &&& (l == 0 ==> chunks.len() == 0)
    &&& (l > 0 ==> chunks.len() >= 1 && chunks[0].0 == start && chunks.last().0
        + chunks.last().1 == start + l)
    &&& forall|i: int|
        0 <= i < chunks.len() ==> 1 <= (#[trigger] chunks[i]).1 && chunks[i].0 % PAGE_SIZE
            + chunks[i].1 <= PAGE_SIZE
    &&& forall|i: int|
        0 <= i < chunks.len() - 1 ==> (#[trigger] chunks[i]).0 + chunks[i].1 == chunks[i + 1].0
}

/// Split `[start, start + len)`, clipped to the user boundary, into chunks
/// that never cross a page: a possibly short head, whole pages, and a
/// possibly short tail.
pub fn page_aligned_chunks(start: u64, len: u64) -> (r: Vec<(u64, u64)>)
    ensures
        chunks_cover(r@, start, clipped_walk_len(start, len)),
        forall|i: int| 1 <= i < r@.len() ==> (#[trigger] r@[i]).0 % PAGE_SIZE == 0,
{
    let mut out: Vec<(u64, u64)> = Vec::new();
    let mut remaining: u64 = if start >= USER_END_OFFSET {
        0
    } else if len > USER_END_OFFSET - start {
        USER_END_OFFSET - start
    } else {
        len
    };
    if remaining == 0 {
        return out;
    }
    let head = PAGE_SIZE - start % PAGE_SIZE;
    if remaining < head {
        out.push((start, remaining));
        return out;
    }
    out.push((start, head));
    let mut pos = start + head;
    remaining = remaining - head;
    proof {
        assert((pos as int) % (PAGE_SIZE as int) == 0) by (nonlinear_arith)
            requires
                pos as int == start as int + (PAGE_SIZE as int - (start as int) % (
                PAGE_SIZE as int)),
        ;
    }
    while remaining >= PAGE_SIZE
        invariant
            out@.len() >= 1,
            out@[0].0 == start,
            out@.last().0 + out@.last().1 == pos,
            pos + remaining == start + clipped_walk_len(start, len),
            pos % PAGE_SIZE == 0,
            forall|i: int|
                0 <= i < out@.len() ==> 1 <= (#[trigger] out@[i]).1 && out@[i].0 % PAGE_SIZE
                    + out@[i].1 <= PAGE_SIZE,
            forall|i: int|
                0 <= i < out@.len() - 1 ==> (#[trigger] out@[i]).0 + out@[i].1 == out@[i + 1].0,
            forall|i: int| 1 <= i < out@.len() ==> (#[trigger] out@[i]).0 % PAGE_SIZE == 0,
        decreases remaining,
    {
        out.push((pos, PAGE_SIZE));
        proof {
            assert((pos as int + PAGE_SIZE as int) % (PAGE_SIZE as int) == 0) by (
            nonlinear_arith)
                requires
                    (pos as int) % (PAGE_SIZE as int) == 0,
            ;
        }
        pos = pos + PAGE_SIZE;
        remaining = remaining - PAGE_SIZE;
    }
    if remaining > 0 {
        out.push((pos, remaining));
    }
    out
}

/// Walk `[offset, offset + len)` of an address space in page-bounded
/// chunks. Each entry carries the chunk's address and length, and either
/// the physical address and writability the page table yields for it, or
/// nothing where the page is unmapped. Clips to the user boundary.
pub fn context_memory(addrspace: &AddrSpace, offset: u64, len: u64) -> (r: Vec<
    (u64, u64, Option<(u64, bool)>),
>)
    requires
        space_wf(*addrspace),
    ensures
        chunks_cover(r@.map_values(|t: (u64, u64, Option<(u64, bool)>)| (t.0, t.1)), offset,
            clipped_walk_len(offset, len)),
        forall|i: int|
            0 <= i < r@.len() ==> (#[trigger] r@[i]).2 == (match spec_translate(
                *addrspace,
                (r@[i].0 / PAGE_SIZE) as u64,
            ) {
                Some((frame, writable)) => Some(
                    ((frame * PAGE_SIZE + r@[i].0 % PAGE_SIZE) as u64, writable),
                ),
                None => None::<(u64, bool)>,
            }),
{
    let chunks = page_aligned_chunks(offset, len);
    let mut out: Vec<(u64, u64, Option<(u64, bool)>)> = Vec::new();
    let n = chunks.len();
    let mut i: usize = 0;
    while i < n
        invariant
            space_wf(*addrspace),
            n == chunks@.len(),
            i <= n,
            out@.len() == i,
            forall|j: int|
                0 <= j < i ==> ((#[trigger] out@[j]).0 == chunks@[j].0 && out@[j].1
                    == chunks@[j].1),
            forall|j: int|
                0 <= j < i ==> (#[trigger] out@[j]).2 == (match spec_translate(
                    *addrspace,
                    (out@[j].0 / PAGE_SIZE) as u64,
                ) {
                    Some((frame, writable)) => Some(
                        ((frame * PAGE_SIZE + out@[j].0 % PAGE_SIZE) as u64, writable),
                    ),
                    None => None::<(u64, bool)>,
                }),
        decreases n - i,
    {
        let (addr, clen) = chunks[i];
        let entry = match addrspace.translate(addr / PAGE_SIZE) {
            Some((frame, writable)) => {
                proof {
                    assert(frame * PAGE_SIZE + addr % PAGE_SIZE <= u64::MAX) by (nonlinear_arith)
                        requires
                            frame <= MAX_PHYS_FRAME,
                            MAX_PHYS_FRAME == 0xFFF_FFFF_FFFFu64,
                            PAGE_SIZE == 4096,
                            addr % PAGE_SIZE < PAGE_SIZE,
                    ;
                }
                Some((frame * PAGE_SIZE + addr % PAGE_SIZE, writable))
            },
            None => None,
        };
        out.push((addr, clen, entry));
        i += 1;
    }
    proof {
        assert(out@.map_values(|t: (u64, u64, Option<(u64, bool)>)| (t.0, t.1)) =~= chunks@);
    }
    out
}

} // verus!
