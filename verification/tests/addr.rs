use x86_paging::addr::{align_down, align_up, VirtAddr};
use x86_paging::PhysAddr;

#[test]
fn virt_addr_new_sign_extends() {
    assert_eq!(VirtAddr::new(0x1234).as_u64(), 0x1234);
    assert_eq!(VirtAddr::new(0x8000_0000_0000).as_u64(), 0xffff_8000_0000_0000);
    assert_eq!(
        VirtAddr::new(0xffff_8000_0000_1000).as_u64(),
        0xffff_8000_0000_1000
    );
    assert_eq!(VirtAddr::zero().as_u64(), 0);
}

#[test]
fn virt_addr_try_new() {
    let err = VirtAddr::try_new(0x1_0000_0000_0000).unwrap_err();
    assert_eq!(err.bits(), 2);
    let err = VirtAddr::try_new(0x8000_0000_0000_0000).unwrap_err();
    assert_eq!(err.bits(), 0x10000);
    assert_eq!(
        VirtAddr::try_new(0xffff_ffff_ffff_ffff).unwrap().as_u64(),
        0xffff_ffff_ffff_ffff
    );
    assert_eq!(
        VirtAddr::try_new(0xc000_0000_0000).unwrap().as_u64(),
        0xffff_c000_0000_0000
    );
}

#[test]
fn virt_addr_new_unchecked() {
    assert_eq!(
        VirtAddr::new_unchecked(0x1234_8000_0000_0000).as_u64(),
        0xffff_8000_0000_0000
    );
    assert_eq!(
        VirtAddr::new_unchecked(0xabcd_0000_0000_1000).as_u64(),
        0x1000
    );
}

#[test]
fn alignment() {
    assert_eq!(align_down(0x1234, 0x1000), 0x1000);
    assert_eq!(align_down(0x1000, 0x1000), 0x1000);
    assert_eq!(align_up(0x1234, 0x1000), 0x2000);
    assert_eq!(align_up(0x2000, 0x1000), 0x2000);
    assert_eq!(align_up(0, 8), 0);
    assert_eq!(align_up(9, 8), 16);
    let a = VirtAddr::new(0x1234);
    assert_eq!(a.align_down(0x100).as_u64(), 0x1200);
    assert_eq!(a.align_up(0x100).as_u64(), 0x1300);
    assert!(a.is_aligned(4));
    assert!(!a.is_aligned(8));
}

#[test]
fn virt_addr_parts() {
    let a = VirtAddr::new(0x0000_7f12_3456_7abc);
    assert_eq!(a.page_offset().value(), 0xabc);
    assert_eq!(a.p1_index().value(), 0x167);
    assert_eq!(a.p2_index().value(), 0x1a2);
    assert_eq!(a.p3_index().value(), 0x48);
    assert_eq!(a.p4_index().value(), 0xfe);
    assert_eq!(a.p4_index().as_u64(), 0xfe);
    assert_eq!(a.page_offset().as_u64(), 0xabc);
}

#[test]
fn virt_addr_arithmetic() {
    let a = VirtAddr::new(0x1000);
    assert_eq!(a.add(0x234).as_u64(), 0x1234);
    assert_eq!(a.sub(0x1000).as_u64(), 0);
    assert_eq!(a.add(0x234).sub_addr(a), 0x234);
    let mut b = a;
    b.add_assign(0x10);
    assert_eq!(b.as_u64(), 0x1010);
    b.sub_assign(0x20);
    assert_eq!(b.as_u64(), 0xff0);
    assert_eq!(
        VirtAddr::new(0x7fff_ffff_ffff).add(1).as_u64(),
        0xffff_8000_0000_0000
    );
}

#[test]
fn phys_addr_basics() {
    let p = PhysAddr::new(0x12345);
    assert_eq!(p.as_u64(), 0x12345);
    assert_eq!(PhysAddr::zero().as_u64(), 0);
    assert_eq!(p.align_down(0x1000).as_u64(), 0x12000);
    assert_eq!(p.align_up(0x1000).as_u64(), 0x13000);
    assert!(!p.is_aligned(0x1000));
    assert!(PhysAddr::new(0x13000).is_aligned(0x1000));
    assert_eq!(p.add(0x10).as_u64(), 0x12355);
    assert_eq!(p.sub(0x45).as_u64(), 0x12300);
    assert_eq!(p.sub_addr(PhysAddr::new(0x12000)), 0x345);
    let mut q = p;
    q.add_assign(1);
    q.sub_assign(2);
    assert_eq!(q.as_u64(), 0x12344);
    assert_eq!(PhysAddr::new(0xf_ffff_ffff_ffff).as_u64(), 0xf_ffff_ffff_ffff);
}
