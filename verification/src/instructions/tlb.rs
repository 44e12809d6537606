//! Commands that flush the translation lookaside buffer (TLB).
use crate::addr::VirtAddr;
use vstd::prelude::*;

verus! {

/// The Invalidate PCID Command to execute.
#[derive(Debug)]
pub enum InvPicdCommand {
    /// The logical processor invalidates mappings—except global translations—for the linear
    /// address and PCID specified.
    Address(VirtAddr, Pcid),
    /// The logical processor invalidates all mappings—except global translations—associated
    /// with the PCID.
    Single(Pcid),
    /// The logical processor invalidates all mappings—including global translations—associated
    /// with any PCID.
    All,
    /// The logical processor invalidates all mappings—except global translations—associated
    /// with any PCID.
    AllExceptGlobal,
}

/// The INVPCID descriptor comprises 128 bits and consists of a PCID and a linear address.
///
/// For INVPCID type 0, the processor uses the full 64 bits of the linear address even outside
/// 64-bit mode; the linear address is not used for other INVPCID types.
#[derive(Debug)]
pub struct InvpcidDescriptor {
    /// The linear address.
    pub address: u64,
    /// The PCID, in the low 12 bits.
    pub pcid: u64,
}

impl InvpcidDescriptor {
    /// The descriptor as the two 64-bit words the processor reads, lowest address first: the
    /// PCID in bits 0 to 12 of the first word with bits 12 to 64 reserved (zero), and the
    /// linear address as the second word.
    pub fn descriptor_words(&self) -> (r: [u64; 2])
        requires
            self.pcid < 4096,
        ensures
            r[0] == self.pcid,
            r[1] == self.address,
    {
        [self.pcid, self.address]
    }
}

/// Structure of a PCID. A PCID has to be < 4096 for x86_64.
#[derive(Debug)]
pub struct Pcid(u16);

impl View for Pcid {
    type V = u16;

    closed spec fn view(&self) -> u16 {
        self.0
    }
}

impl Pcid {
    #[verifier::type_invariant]
    spec fn fits(self) -> bool {
        self.0 < 4096
    }

    /// Create a new PCID. Fails if the value of the PCID is out of the expected bounds.
    pub fn new(pcid: u16) -> (r: Result<Pcid, &'static str>)
        ensures
            r is Ok <==> pcid < 4096,
            r matches Ok(p) ==> p@ == pcid,
            r matches Err(msg) ==> msg@ == "PCID should be < 4096."@,
    {
        if pcid >= 4096 {
            Err("PCID should be < 4096.")
        } else {
            Ok(Pcid(pcid))
        }
    }

    /// Get the value of the current PCID.
    pub fn value(&self) -> (r: u16)
        ensures
            r == self@,
            r < 4096,
    {
        proof {
            use_type_invariant(self);
        }
        self.0
    }
}

/// The operands of the `invpcid` instruction for a command: the INVPCID type (0 for an
/// address, 1 for a single context, 2 for all contexts, 3 for all contexts except global
/// translations) and the descriptor.
pub fn flush_pcid_operands(command: InvPicdCommand) -> (r: (usize, InvpcidDescriptor))
    ensures
        r.1.pcid < 4096,
        match command {
            InvPicdCommand::Address(addr, pcid) => r.0 == 0 && r.1.address == addr@ && r.1.pcid
                == pcid@,
            InvPicdCommand::Single(pcid) => r.0 == 1 && r.1.address == 0 && r.1.pcid == pcid@,
            InvPicdCommand::All => r.0 == 2 && r.1.address == 0 && r.1.pcid == 0,
            InvPicdCommand::AllExceptGlobal => r.0 == 3 && r.1.address == 0 && r.1.pcid == 0,
        },
{
    let mut desc = InvpcidDescriptor { address: 0, pcid: 0 };
    let kind: usize;
    match command {
        InvPicdCommand::Address(addr, pcid) => {
            kind = 0;
            desc.pcid = pcid.value() as u64;
            desc.address = addr.as_u64();
        },
        InvPicdCommand::Single(pcid) => {
            kind = 1;
            desc.pcid = pcid.value() as u64;
        },
        InvPicdCommand::All => kind = 2,
        InvPicdCommand::AllExceptGlobal => kind = 3,
    }
    (kind, desc)
}

} // verus!
