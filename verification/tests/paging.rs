use x86_paging::structures::paging::page_table::PageTableIndex;
use x86_paging::structures::paging::{
    Page, PageRange, PageSize, PhysFrame, PhysFrameRange, Size1GB, Size2MB, Size4KB,
};
use x86_paging::{PhysAddr, VirtAddr};

#[test]
pub fn test_page_ranges() {
    let page_size = Size4KB::SIZE;
    let number = 1000;

    let start_addr = VirtAddr::new(0xdeadbeaf);
    let start: Page = Page::containing_address(start_addr);
    let end = start.clone().add(number);

    let mut range = Page::range(start.clone(), end.clone());
    for i in 0..number {
        assert_eq!(
            range.next(),
            Some(Page::containing_address(start_addr.add(page_size * i)))
        );
    }
    assert_eq!(range.next(), None);

    let mut range_inclusive = Page::range_inclusive(start, end);
    for i in 0..=number {
        assert_eq!(
            range_inclusive.next(),
            Some(Page::containing_address(start_addr.add(page_size * i)))
        );
    }
    assert_eq!(range_inclusive.next(), None);
}

#[test]
fn page_sizes() {
    assert_eq!(Size4KB::SIZE, 4096);
    assert_eq!(Size2MB::SIZE, 2 * 1024 * 1024);
    assert_eq!(Size1GB::SIZE, 1024 * 1024 * 1024);
    assert_eq!(Size4KB::SIZE_AS_DEBUG_STR, "4KB");
    assert_eq!(Size2MB::SIZE_AS_DEBUG_STR, "2MB");
    assert_eq!(Size1GB::SIZE_AS_DEBUG_STR, "1GB");
}

#[test]
fn page_from_start_address() {
    let ok: Result<Page<Size4KB>, ()> = Page::from_start_address(VirtAddr::new(0x5000));
    assert_eq!(ok.unwrap().start_address().as_u64(), 0x5000);
    let err: Result<Page<Size4KB>, ()> = Page::from_start_address(VirtAddr::new(0x5001));
    assert_eq!(err, Err(()));
    let huge: Result<Page<Size2MB>, ()> = Page::from_start_address(VirtAddr::new(0x1000));
    assert_eq!(huge, Err(()));
    let huge: Result<Page<Size2MB>, ()> = Page::from_start_address(VirtAddr::new(0x40_0000));
    assert_eq!(huge.unwrap().size(), 0x20_0000);
}

#[test]
fn page_containing_address() {
    let p: Page<Size4KB> = Page::containing_address(VirtAddr::new(0xdeadbeaf));
    assert_eq!(p.start_address().as_u64(), 0xdeadb000);
    let p: Page<Size2MB> = Page::containing_address(VirtAddr::new(0xdeadbeaf));
    assert_eq!(p.start_address().as_u64(), 0xdea00000);
    let p: Page<Size1GB> = Page::containing_address(VirtAddr::new(0xdeadbeaf));
    assert_eq!(p.start_address().as_u64(), 0xc0000000);
    let q: Page<Size4KB> = Page::containing_address(VirtAddr::new(0x5000));
    assert_eq!(Page::from_start_address(VirtAddr::new(0x5000)), Ok(q));
}

#[test]
fn page_indices() {
    let addr = VirtAddr::new(0x0000_7f12_3456_7000);
    let p: Page<Size4KB> = Page::containing_address(addr);
    assert_eq!(p.p4_index().value(), 0xfe);
    assert_eq!(p.p3_index().value(), 0x48);
    assert_eq!(p.p2_index().value(), 0x1a2);
    assert_eq!(p.p1_index().value(), 0x167);
    let q = Page::from_page_table_indices(
        p.p4_index(),
        p.p3_index(),
        p.p2_index(),
        p.p1_index(),
    );
    assert_eq!(q, p);
}

#[test]
fn page_from_indices_sign_extends() {
    let i = PageTableIndex::new(256);
    let z = PageTableIndex::new(0);
    let p = Page::from_page_table_indices(i, z, z, PageTableIndex::new(1));
    assert_eq!(p.start_address().as_u64(), 0xffff_8000_0000_1000);
    let q = Page::from_page_table_indices_2mb(PageTableIndex::new(1), z, PageTableIndex::new(3));
    assert_eq!(q.start_address().as_u64(), 0x80_0060_0000);
    let r = Page::from_page_table_indices_1gb(PageTableIndex::new(1), PageTableIndex::new(2));
    assert_eq!(r.start_address().as_u64(), 0x80_8000_0000);
    assert_eq!(r.p4_index().value(), 1);
    assert_eq!(r.p3_index().value(), 2);
}

#[test]
fn page_arithmetic() {
    let p: Page<Size4KB> = Page::containing_address(VirtAddr::new(0x10_0000));
    let q = p.add(3);
    assert_eq!(q.start_address().as_u64(), 0x10_3000);
    assert_eq!(q.sub(3), p);
    assert_eq!(q.sub_page(p), 3);
    let mut r = p;
    r.add_assign(2);
    assert_eq!(r.start_address().as_u64(), 0x10_2000);
    r.sub_assign(1);
    assert_eq!(r.start_address().as_u64(), 0x10_1000);
}

#[test]
fn page_add_crosses_into_upper_half() {
    let p: Page<Size4KB> = Page::containing_address(VirtAddr::new(0x7fff_ffff_f000));
    let q = p.add(1);
    assert_eq!(q.start_address().as_u64(), 0xffff_8000_0000_0000);
}

#[test]
fn page_debug_string() {
    let p: Page<Size4KB> = Page::containing_address(VirtAddr::new(0xdeadbeaf));
    assert_eq!(p.debug_string(), "Page[4KB](0xdeadb000)");
    let z: Page<Size2MB> = Page::containing_address(VirtAddr::new(0x1000));
    assert_eq!(z.debug_string(), "Page[2MB](0x0)");
    let r = Page::range(p, p.add(2));
    assert_eq!(
        r.debug_string(),
        "PageRange { start: Page[4KB](0xdeadb000), end: Page[4KB](0xdeadd000) }"
    );
    let ri = Page::range_inclusive(p, p);
    assert_eq!(
        ri.debug_string(),
        "PageRangeInclusive { start: Page[4KB](0xdeadb000), end: Page[4KB](0xdeadb000) }"
    );
}

#[test]
fn page_range_empty() {
    let p: Page<Size4KB> = Page::containing_address(VirtAddr::new(0x1000));
    assert!(Page::range(p, p).is_empty());
    assert!(!Page::range(p, p.add(1)).is_empty());
    assert!(!Page::range_inclusive(p, p).is_empty());
    assert!(Page::range_inclusive(p.add(1), p).is_empty());
    let mut r = Page::range_inclusive(p.add(1), p);
    assert_eq!(r.next(), None);
}

#[test]
fn page_range_as_4kb() {
    let start: Page<Size2MB> = Page::containing_address(VirtAddr::new(0x20_0000));
    let range: PageRange<Size2MB> = Page::range(start, start.add(2));
    let small = range.as_4kb_page_range();
    assert_eq!(small.start.start_address().as_u64(), 0x20_0000);
    assert_eq!(small.end.start_address().as_u64(), 0x60_0000);
}

#[test]
fn frame_basics() {
    let f: PhysFrame<Size4KB> = PhysFrame::containing_address(PhysAddr::new(0x1234));
    assert_eq!(f.start_address().as_u64(), 0x1000);
    assert_eq!(f.size(), 4096);
    assert_eq!(
        PhysFrame::<Size4KB>::from_start_address(PhysAddr::new(0x1234)),
        Err(())
    );
    assert_eq!(PhysFrame::from_start_address(PhysAddr::new(0x1000)), Ok(f));
    let g = f.add(5);
    assert_eq!(g.start_address().as_u64(), 0x6000);
    assert_eq!(g.sub(5), f);
    assert_eq!(g.sub_frame(f), 5);
    let mut h = f;
    h.add_assign(1);
    h.sub_assign(1);
    assert_eq!(h, f);
    assert_eq!(f.debug_string(), "PhysFrame[4KB](0x1000)");
}

#[test]
fn frame_ranges() {
    let f: PhysFrame<Size4KB> = PhysFrame::containing_address(PhysAddr::new(0x1000));
    let mut r = PhysFrame::range(f, f.add(2));
    assert!(!r.is_empty());
    assert_eq!(r.next(), Some(f));
    assert_eq!(r.next(), Some(f.add(1)));
    assert_eq!(r.next(), None);
    assert!(r.is_empty());
    let mut ri = PhysFrame::range_inclusive(f, f.add(1));
    assert_eq!(ri.next(), Some(f));
    assert_eq!(ri.next(), Some(f.add(1)));
    assert_eq!(ri.next(), None);
    assert!(ri.is_empty());
    assert_eq!(
        PhysFrame::range(f, f.add(1)).debug_string(),
        "PhysFrameRange { start: PhysFrame[4KB](0x1000), end: PhysFrame[4KB](0x2000) }"
    );
    assert_eq!(
        PhysFrame::range_inclusive(f, f).debug_string(),
        "PhysFrameRangeInclusive { start: PhysFrame[4KB](0x1000), end: PhysFrame[4KB](0x1000) }"
    );
}

#[test]
fn frame_range_boot_numbers() {
    let r = PhysFrameRange::from_frame_numbers(2, 7);
    assert_eq!(r.start.start_address().as_u64(), 0x2000);
    assert_eq!(r.end.start_address().as_u64(), 0x7000);
    assert_eq!(r.frame_numbers(), (2, 7));
    let empty = PhysFrameRange::from_frame_numbers(0, 1);
    assert_eq!(empty.frame_numbers(), (0, 1));
}
