use kcore::error::{Error, EFAULT, EINVAL, ENOMEM};
use kcore::memory::{
    context_memory, page_aligned_chunks, release, AddrSpace, FrameAllocator, PROT_READ,
    PROT_WRITE,
};
use kcore::scheme::{MapInfo, MemoryScheme, StatVfs};
use kcore::{DANGLING, PAGE_SIZE, USER_END_OFFSET};

#[test]
fn translate_through_grants() {
    let mut s = AddrSpace::new();
    s.mmap(Some(2), vec![7, 8, 9], PROT_WRITE, true, None).unwrap();
    assert_eq!(s.translate(1), None);
    assert_eq!(s.translate(2), Some((7, true)));
    assert_eq!(s.translate(4), Some((9, true)));
    assert_eq!(s.translate(5), None);

    let mut ro = AddrSpace::new();
    ro.mmap(Some(2), vec![7], PROT_READ, true, None).unwrap();
    assert_eq!(ro.translate(2), Some((7, false)));
}

#[test]
fn release_unknown_address_is_efault() {
    let mut s = AddrSpace::new();
    assert_eq!(release(&mut s, 0x5000), Err(Error { errno: EFAULT }));
    assert_eq!(release(&mut s, DANGLING), Ok(()));
}

#[test]
fn release_removes_exactly_the_grant() {
    let mut s = AddrSpace::new();
    s.mmap(Some(2), vec![7], PROT_READ, true, None).unwrap();
    s.mmap(Some(10), vec![8, 9], PROT_READ, true, None).unwrap();
    release(&mut s, 10 * PAGE_SIZE + 5).unwrap();
    assert_eq!(s.grants.len(), 1);
    assert_eq!(s.grants[0].start_page, 2);
}

#[test]
fn page_chunks_cover_the_range() {
    let chunks = page_aligned_chunks(0x1234, 0x3000);
    assert_eq!(
        chunks,
        vec![(0x1234, 0xDCC), (0x2000, 0x1000), (0x3000, 0x1000), (0x4000, 0x234)]
    );
    // An aligned range is whole pages.
    assert_eq!(page_aligned_chunks(0x2000, 0x2000), vec![(0x2000, 0x1000), (0x3000, 0x1000)]);
    // A range inside one page is one chunk.
    assert_eq!(page_aligned_chunks(0x2100, 0x80), vec![(0x2100, 0x80)]);
    // Nothing past the user boundary survives.
    assert_eq!(page_aligned_chunks(USER_END_OFFSET, 0x1000), vec![]);
    let clipped = page_aligned_chunks(USER_END_OFFSET - 0x800, 0x1000);
    assert_eq!(clipped, vec![(USER_END_OFFSET - 0x800, 0x800)]);
}

#[test]
fn context_memory_yields_translations_per_chunk() {
    let mut s = AddrSpace::new();
    s.mmap(Some(2), vec![7], PROT_WRITE, true, None).unwrap();
    let walk = context_memory(&s, 2 * PAGE_SIZE + 0x100, 0x2000);
    assert_eq!(walk.len(), 3);
    // The mapped head chunk resolves to frame 7 with the offset kept.
    assert_eq!(walk[0], (2 * PAGE_SIZE + 0x100, 0xF00, Some((7 * PAGE_SIZE + 0x100, true))));
    // The rest of the range is unmapped.
    assert_eq!(walk[1], (3 * PAGE_SIZE, 0x1000, None));
    assert_eq!(walk[2], (4 * PAGE_SIZE, 0x100, None));
}

#[test]
fn memory_scheme_anonymous_mapping() {
    let scheme = MemoryScheme::new();
    let mut space = AddrSpace::new();
    let mut frames = FrameAllocator::new(50);

    // A requested address is honoured.
    let map = MapInfo { address: 0x5000, size: 8192, offset: 0, flags: PROT_WRITE };
    let addr = MemoryScheme::fmap_anonymous(&mut space, &mut frames, &map).unwrap();
    assert_eq!(addr, 0x5000);
    assert_eq!(space.grants.len(), 1);
    assert_eq!(space.grants[0].frames, vec![50, 51]);
    assert!(space.grants[0].owned);

    // An empty request is rejected.
    let empty = MapInfo { address: 0, size: 0, offset: 0, flags: PROT_WRITE };
    assert_eq!(
        MemoryScheme::fmap_anonymous(&mut space, &mut frames, &empty),
        Err(Error { errno: EINVAL })
    );

    // An unaligned request is rejected.
    let unaligned = MapInfo { address: 0x5001, size: 4096, offset: 0, flags: PROT_WRITE };
    assert_eq!(
        MemoryScheme::fmap_anonymous(&mut space, &mut frames, &unaligned),
        Err(Error { errno: EINVAL })
    );

    assert!(scheme.open("anything", 0, 0, 0).is_ok());
    assert_eq!(scheme.fcntl(0, 0, 0), Ok(0));
    assert_eq!(scheme.close(0), Ok(0));
}

#[test]
fn memory_scheme_fstatvfs_reports_frames() {
    let scheme = MemoryScheme::new();
    let mut stat = StatVfs { f_bsize: 0, f_blocks: 0, f_bfree: 0, f_bavail: 0 };
    scheme.fstatvfs(0, 30, 70, &mut stat).unwrap();
    assert_eq!(stat.f_bsize as u64, PAGE_SIZE);
    assert_eq!(stat.f_blocks, 100);
    assert_eq!(stat.f_bfree, 70);
    assert_eq!(stat.f_bavail, 70);
}

#[test]
fn memory_scheme_fpath_truncates() {
    let scheme = MemoryScheme::new();
    assert_eq!(scheme.fpath(0, 64), b"memory:".to_vec());
    assert_eq!(scheme.fpath(0, 3), b"mem".to_vec());
}

#[test]
fn frame_allocator_hands_out_fresh_frames() {
    let mut frames = FrameAllocator::new(0);
    let a = frames.allocate(2).unwrap();
    let b = frames.allocate(3).unwrap();
    assert_eq!(a, vec![0, 1]);
    assert_eq!(b, vec![2, 3, 4]);
    assert_eq!(frames.used, 5);
}

#[test]
fn capture_of_unmapped_source_is_efault() {
    let inner = kcore::user::UserInner::new(7, 5, "disk", 0);
    let cs = AddrSpace::new();
    let mut srv = AddrSpace::new();
    assert_eq!(
        inner.capture(&mut srv, &cs, 0x2000, 16),
        Err(Error { errno: EFAULT })
    );
    assert_eq!(srv.grants.len(), 0);
}

#[test]
fn overlapping_requested_mapping_is_enomem() {
    let mut space = AddrSpace::new();
    let mut frames = FrameAllocator::new(0);
    let map = MapInfo { address: 0x5000, size: 4096, offset: 0, flags: PROT_WRITE };
    MemoryScheme::fmap_anonymous(&mut space, &mut frames, &map).unwrap();
    assert_eq!(
        MemoryScheme::fmap_anonymous(&mut space, &mut frames, &map),
        Err(Error { errno: ENOMEM })
    );
}

#[test]
fn memory_scheme_fmap_and_kfmap_delegate() {
    let scheme = MemoryScheme::new();
    let mut space = AddrSpace::new();
    let mut frames = FrameAllocator::new(10);
    let map = MapInfo { address: 0x8000, size: 4096, offset: 0, flags: PROT_READ };
    assert_eq!(scheme.fmap(0, &mut space, &mut frames, &map), Ok(0x8000));
    let more = MapInfo { address: 0xA000, size: 4096, offset: 0, flags: PROT_READ };
    assert_eq!(scheme.kfmap(0, &mut space, &mut frames, &more, false), Ok(0xA000));
    assert_eq!(space.grants.len(), 2);
}
