//! Headers of the messages exchanged with the FSP: MCTP packets that carry NVIDIA
//! data messages (NVDM).
use vstd::prelude::*;

verus! {

/// MCTP message type of messages that a PCI vendor defines.
pub const MSG_TYPE_VENDOR_PCI: u32 = 0x7e;

/// PCI vendor ID of NVIDIA.
pub const VENDOR_ID_NV: u32 = 0x10de;

/// NVDM type of chain of trust messages.
pub const NVDM_TYPE_COT: u32 = 0x14;

/// NVDM type of the FSP's replies.
pub const NVDM_TYPE_FSP_RESPONSE: u32 = 0x15;

/// Header of an MCTP packet.
#[derive(Clone, Copy, Debug, PartialEq, Eq, Structural)]
pub struct MctpHeader {
    pub raw: u32,
}

impl MctpHeader {
    /// The two upper bits, which mark the first and the last packet of a message, are
    /// both set.
    pub open spec fn spec_is_single_packet(self) -> bool {
        self.raw / 0x4000_0000 == 3
    }

    /// Returns true if the packet is all of its message.
    pub fn is_single_packet(&self) -> (r: bool)
        ensures
            r == self.spec_is_single_packet(),
    {
        self.raw / 0x4000_0000 == 3
    }
}

/// Header of an NVDM message: from the lowest bit, seven bits of MCTP message type,
/// one that does not matter here, sixteen of vendor, and eight of NVDM type.
#[derive(Clone, Copy, Debug, PartialEq, Eq, Structural)]
pub struct NvdmHeader {
    pub raw: u32,
}

impl NvdmHeader {
    /// The header is that of an NVIDIA message of the given type.
    pub open spec fn spec_validate(self, nvdm_type: u32) -> bool {
        &&& self.raw % 0x80 == MSG_TYPE_VENDOR_PCI
        &&& self.raw / 0x100 % 0x1_0000 == VENDOR_ID_NV
        &&& self.raw / 0x100_0000 == nvdm_type
    }

    /// Returns true if the header is that of an NVIDIA message of the given type.
    pub fn validate(&self, nvdm_type: u32) -> (r: bool)
        ensures
            r == self.spec_validate(nvdm_type),
    {
        self.raw % 0x80 == MSG_TYPE_VENDOR_PCI && self.raw / 0x100 % 0x1_0000 == VENDOR_ID_NV
            && self.raw / 0x100_0000 == nvdm_type
    }
}

/// A packet is all of its message just when the two upper bits of its header are set,
/// whatever the others are.
pub proof fn law_single_packet(header: MctpHeader)
    ensures
        header.spec_is_single_packet() <==> header.raw & 0x8000_0000 != 0 && header.raw
            & 0x4000_0000 != 0,
{
    let raw = header.raw;
    assert(raw / 0x4000_0000 == 3 <==> raw & 0x8000_0000 != 0 && raw & 0x4000_0000 != 0)
        by (bit_vector);
}

/// A header is that of an NVIDIA message of some type just when it is put together of that
/// type, the vendor and the message type, with a bit between the latter two that does not
/// matter.
pub proof fn law_nvdm_header(header: NvdmHeader, nvdm_type: u32)
    requires
        nvdm_type < 0x100,
    ensures
        header.spec_validate(nvdm_type) <==> header.raw == nvdm_type * 0x100_0000 + 0x10de * 0x100
            + 0x7e || header.raw == nvdm_type * 0x100_0000 + 0x10de * 0x100 + 0x80 + 0x7e,
{
}

/// No header is one of a type that does not fit in its eight bits.
pub proof fn law_nvdm_type_has_eight_bits(header: NvdmHeader, nvdm_type: u32)
    requires
        nvdm_type >= 0x100,
    ensures
        !header.spec_validate(nvdm_type),
{
}

} // verus!
