use x86_paging::addr::{align_down, align_up};
use x86_paging::structures::paging::{Page, PhysFrame, PhysFrameRange, Size2MB, Size4KB};
use x86_paging::{PhysAddr, VirtAddr};

#[test]
fn align_down_is_greatest_and_align_up_smallest() {
    for addr in [0u64, 1, 0xfff, 0x1000, 0x1001, 0x1234_5678] {
        let down = align_down(addr, 0x1000);
        let up = align_up(addr, 0x1000);
        assert!(down <= addr && down % 0x1000 == 0 && addr - down < 0x1000);
        assert!(up >= addr && up % 0x1000 == 0 && up - addr < 0x1000);
        assert_eq!(align_down(up, 0x1000), up);
        assert_eq!(align_down(addr, 0x1000) == addr, addr % 0x1000 == 0);
    }
}

#[test]
fn sign_extension_is_idempotent() {
    let once = VirtAddr::new_unchecked(0x1234_8000_0000_5000);
    let twice = VirtAddr::new_unchecked(once.as_u64());
    assert_eq!(once, twice);
    assert_eq!(VirtAddr::new(0xffff_9000_0000_0000).as_u64(), 0xffff_9000_0000_0000);
}

#[test]
fn address_is_its_indices_and_offset() {
    let addr = VirtAddr::new(0xffff_8123_4567_89ab);
    let page = Page::from_page_table_indices(
        addr.p4_index(),
        addr.p3_index(),
        addr.p2_index(),
        addr.p1_index(),
    );
    assert_eq!(
        page.start_address().as_u64() + addr.page_offset().as_u64(),
        addr.as_u64()
    );
}

#[test]
fn containing_page_keeps_indices() {
    let addr = VirtAddr::new(0x0000_1234_5678_9abc);
    let page: Page<Size4KB> = Page::containing_address(addr);
    assert_eq!(page.p4_index(), addr.p4_index());
    assert_eq!(page.p3_index(), addr.p3_index());
    assert_eq!(page.p2_index(), addr.p2_index());
    assert_eq!(page.p1_index(), addr.p1_index());
}

#[test]
fn page_sub_then_add() {
    let p: Page<Size2MB> = Page::containing_address(VirtAddr::new(0x4000_0000));
    assert_eq!(p.sub(7).add(7), p);
    assert_eq!(p.add(7).sub(7), p);
    assert_eq!(p.add(7).sub_page(p), 7);
}

#[test]
fn frame_add_then_sub() {
    let f: PhysFrame<Size4KB> = PhysFrame::containing_address(PhysAddr::new(0x8000));
    assert_eq!(f.add(9).sub(9), f);
    assert_eq!(f.add(9).sub_frame(f), 9);
}

#[test]
fn range_lengths() {
    let start: Page<Size4KB> = Page::containing_address(VirtAddr::new(0x7fff_ffff_c000));
    let end = start.add(5);
    assert_eq!(end.start_address().as_u64(), 0xffff_8000_0000_1000);
    let mut range = Page::range(start, start.add(3));
    let mut count = 0;
    while range.next().is_some() {
        count += 1;
    }
    assert_eq!(count, 3);
    let mut inclusive = Page::range_inclusive(start, start.add(3));
    let mut count = 0;
    while inclusive.next().is_some() {
        count += 1;
    }
    assert_eq!(count, 4);
    assert!(inclusive.is_empty());
}

#[test]
fn frame_numbers_roundtrip() {
    let range = PhysFrameRange::from_frame_numbers(0x100, 0x180);
    assert_eq!(range.frame_numbers(), (0x100, 0x180));
    let again = PhysFrameRange::from_frame_numbers(range.frame_numbers().0, range.frame_numbers().1);
    assert_eq!(again, range);
}

#[test]
fn frame_range_run_and_length() {
    let start: PhysFrame<Size4KB> = PhysFrame::containing_address(PhysAddr::new(0x3000));
    let mut range = PhysFrame::range(start, start.add(4));
    for k in 0..4 {
        assert_eq!(range.next(), Some(start.add(k)));
    }
    assert_eq!(range.next(), None);
    assert_eq!(range.next(), None);
    let mut inclusive = PhysFrame::range_inclusive(start, start.add(2));
    for k in 0..=2 {
        assert_eq!(inclusive.next(), Some(start.add(k)));
    }
    assert_eq!(inclusive.next(), None);
}

#[test]
fn huge_range_as_small_pages() {
    let start: Page<Size2MB> = Page::containing_address(VirtAddr::new(0x4000_0000));
    let small = Page::range(start, start.add(2)).as_4kb_page_range();
    let mut small = small;
    let mut count = 0;
    while small.next().is_some() {
        count += 1;
    }
    assert_eq!(count, 1024);
}
