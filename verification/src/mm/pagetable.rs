//! Entries of the GPU's page tables.
use vstd::prelude::*;
use crate::error::Error;

verus! {

/// Size of a page, in bytes.
pub const PAGE_SIZE: usize = 4096;

/// Version of the GPU's memory management unit.
#[derive(Clone, Copy, Debug, PartialEq, Eq, Structural)]
pub enum MmuVersion {
    V2,
    V3,
}

/// Where the page table is that a page directory entry points to.
#[derive(Clone, Copy, Debug, PartialEq, Eq, Structural)]
pub enum AperturePde {
    /// There is none.
    Invalid,
    /// In the GPU's own memory.
    VideoMemory,
    /// In system memory, kept coherent.
    SystemCoherent,
    /// In system memory, not kept coherent.
    SystemNonCoherent,
}

/// A page directory entry, as the second version of the MMU has it. The lowest bit is
/// set if the entry is not valid, and the two next say where the page table is.
#[derive(Clone, Copy, Debug, PartialEq, Eq, Structural)]
pub struct Pde {
    pub raw: u64,
}

impl Pde {
    /// Where the page table is.
    pub open spec fn spec_aperture(self) -> AperturePde {
        match self.raw / 2 % 4 {
            0 => AperturePde::Invalid,
            1 => AperturePde::VideoMemory,
            2 => AperturePde::SystemCoherent,
            _ => AperturePde::SystemNonCoherent,
        }
    }

    /// The entry is not marked as invalid, and points somewhere.
    pub open spec fn spec_is_valid(self) -> bool {
        self.raw % 2 == 0 && self.spec_aperture() != AperturePde::Invalid
    }

    /// The entry that `raw` holds.
    pub fn new(raw: u64) -> (r: Pde)
        ensures
            r.raw == raw,
    {
        Pde { raw }
    }

    /// Returns where the page table is.
    pub fn aperture(self) -> (r: AperturePde)
        ensures
            r == self.spec_aperture(),
    {
        match self.raw / 2 % 4 {
            0 => AperturePde::Invalid,
            1 => AperturePde::VideoMemory,
            2 => AperturePde::SystemCoherent,
            _ => AperturePde::SystemNonCoherent,
        }
    }

    /// Returns true if the entry points to a page table.
    pub fn is_valid(self) -> (r: bool)
        ensures
            r == self.spec_is_valid(),
    {
        self.raw % 2 == 0 && self.aperture() != AperturePde::Invalid
    }
}

/// The entry points to a page table in video memory.
pub open spec fn in_video_memory(entry: Pde) -> bool {
    entry.spec_is_valid() && entry.spec_aperture() == AperturePde::VideoMemory
}

/// Checks that there are page tables in video memory, given what reading the first entry
/// of the page directory gave. Fails with `ENOENT` if there are none, and with the error
/// of the read if the entry could not be read.
pub fn check_valid_page_tables(entry: Result<u64, Error>) -> (r: Result<(), Error>)
    ensures
        r == (match entry {
            Ok(raw) => if in_video_memory(Pde { raw }) {
                Ok(())
            } else {
                Err(Error::ENOENT)
            },
            Err(e) => Err::<(), Error>(e),
        }),
{
    let raw = match entry {
        Ok(raw) => raw,
        Err(e) => {
            return Err(e);
        },
    };
    let pdb_entry = Pde::new(raw);
    if !pdb_entry.is_valid() {
        return Err(Error::ENOENT);
    }
    if pdb_entry.aperture() != AperturePde::VideoMemory {
        return Err(Error::ENOENT);
    }
    Ok(())
}

/// The second and third bit of an entry say where its page table is, and the first is set if
/// the entry is not valid. The bits above do not matter.
pub proof fn law_entry_bits(entry: Pde)
    ensures
        entry.spec_aperture() == AperturePde::Invalid <==> entry.raw & 6 == 0,
        entry.spec_aperture() == AperturePde::VideoMemory <==> entry.raw & 6 == 2,
        entry.spec_aperture() == AperturePde::SystemCoherent <==> entry.raw & 6 == 4,
        entry.spec_aperture() == AperturePde::SystemNonCoherent <==> entry.raw & 6 == 6,
        entry.spec_is_valid() <==> entry.raw & 1 == 0 && entry.raw & 6 != 0,
        in_video_memory(entry) <==> entry.raw & 7 == 2,
{
    let raw = entry.raw;
    assert(raw & 6 == 2 * (raw / 2 % 4)) by (bit_vector);
    assert(raw & 1 == raw % 2) by (bit_vector);
    assert(raw & 7 == raw % 8) by (bit_vector);
}

} // verus!
