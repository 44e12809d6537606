use x86_paging::instructions::tlb::{flush_pcid_operands, InvPicdCommand, Pcid};
use x86_paging::VirtAddr;

#[test]
fn pcid_new() {
    assert_eq!(Pcid::new(0).unwrap().value(), 0);
    assert_eq!(Pcid::new(4095).unwrap().value(), 4095);
    assert_eq!(Pcid::new(4096).unwrap_err(), "PCID should be < 4096.");
    assert_eq!(Pcid::new(u16::MAX).unwrap_err(), "PCID should be < 4096.");
}

#[test]
fn pcid_operands() {
    let (kind, desc) = flush_pcid_operands(InvPicdCommand::Address(
        VirtAddr::new(0xdead_b000),
        Pcid::new(7).unwrap(),
    ));
    assert_eq!(kind, 0);
    assert_eq!(desc.address, 0xdead_b000);
    assert_eq!(desc.pcid, 7);

    let (kind, desc) = flush_pcid_operands(InvPicdCommand::Single(Pcid::new(42).unwrap()));
    assert_eq!(kind, 1);
    assert_eq!(desc.address, 0);
    assert_eq!(desc.pcid, 42);

    let (kind, desc) = flush_pcid_operands(InvPicdCommand::All);
    assert_eq!(kind, 2);
    assert_eq!((desc.address, desc.pcid), (0, 0));

    let (kind, desc) = flush_pcid_operands(InvPicdCommand::AllExceptGlobal);
    assert_eq!(kind, 3);
    assert_eq!((desc.address, desc.pcid), (0, 0));
}

#[test]
fn descriptor_layout() {
    let (kind, desc) = flush_pcid_operands(InvPicdCommand::Address(
        VirtAddr::new(0x1000),
        Pcid::new(5).unwrap(),
    ));
    assert_eq!(kind, 0);
    assert_eq!(desc.descriptor_words(), [5, 0x1000]);
    let (_, desc) = flush_pcid_operands(InvPicdCommand::Single(Pcid::new(4095).unwrap()));
    assert_eq!(desc.descriptor_words(), [4095, 0]);
    let (_, desc) = flush_pcid_operands(InvPicdCommand::All);
    assert_eq!(desc.descriptor_words(), [0, 0]);
}
