//! Access by the CPU to GPU virtual memory, through the BAR1 aperture.
use vstd::prelude::*;
use crate::error::Error;
use crate::mm::pagetable::PAGE_SIZE;

verus! {

/// A range of mapped pages in the BAR1 address space.
#[derive(Clone, Copy, Debug, PartialEq, Eq, Structural)]
pub struct MappedRange {
    /// Number of the first virtual page.
    pub vfn_start: u64,
    pub num_pages: usize,
}

impl MappedRange {
    /// The size of the range, in bytes.
    pub open spec fn size(self) -> int {
        self.num_pages * PAGE_SIZE
    }

    /// The place in the aperture of the first byte of the range.
    pub open spec fn start(self) -> int {
        (self.vfn_start as usize) * PAGE_SIZE
    }

    /// The place in the aperture of the byte at `offset` in the range.
    pub open spec fn bar_offset(self, offset: usize) -> Result<usize, Error> {
        if offset >= self.size() {
            Err(Error::EINVAL)
        } else if self.start() + offset > usize::MAX {
            Err(Error::EOVERFLOW)
        } else {
            Ok((self.start() + offset) as usize)
        }
    }
}

/// What `r` is for an access at `offset`, if `access` is what reaches the aperture: the
/// error if there is no such place in the range, and otherwise what the access gave.
pub open spec fn access_outcome<T, F: FnOnce(usize) -> Result<T, Error>>(
    range: MappedRange,
    offset: usize,
    access: F,
    r: Result<T, Error>,
) -> bool {
    match range.bar_offset(offset) {
        Ok(place) => call_ensures(access, (place,), r),
        Err(e) => r == Err::<T, Error>(e),
    }
}

/// Maps pages into the BAR1 address space.
pub struct BarUser;

impl BarUser {
    /// Maps the given physical pages to a contiguous range, by `map_pages`. Fails with
    /// `EINVAL` if there are none, without calling it.
    pub fn map<F: FnOnce(&[u64], bool) -> Result<MappedRange, Error>>(
        pfns: &[u64],
        writable: bool,
        map_pages: F,
    ) -> (r: Result<BarAccess, Error>)
        requires
            pfns@.len() > 0 ==> call_requires(map_pages, (pfns, writable)),
        ensures
            pfns@.len() == 0 ==> r == Err::<BarAccess, Error>(Error::EINVAL),
            pfns@.len() > 0 ==> exists|mapped: Result<MappedRange, Error>| #[trigger]
                call_ensures(map_pages, (pfns, writable), mapped) && match mapped {
                    Ok(range) => r matches Ok(access) && access@ == Some(range),
                    Err(e) => r == Err::<BarAccess, Error>(e),
                },
    {
        if pfns.len() == 0 {
            return Err(Error::EINVAL);
        }
        match map_pages(pfns, writable) {
            Ok(mapped) => Ok(BarAccess::new(mapped)),
            Err(e) => Err(e),
        }
    }
}

/// Gives access to a mapped range.
pub struct BarAccess {
    mapped: Option<MappedRange>,
}

impl View for BarAccess {
    type V = Option<MappedRange>;

    /// The range, or `None` once it was handed back.
    closed spec fn view(&self) -> Option<MappedRange> {
        self.mapped
    }
}

impl BarAccess {
    /// There is a range, and its size can be told.
    pub open spec fn live(&self) -> bool {
        self@ matches Some(range) && range.size() <= usize::MAX
    }

    /// Access to a range.
    pub fn new(mapped: MappedRange) -> (r: Self)
        ensures
            r@ == Some(mapped),
    {
        BarAccess { mapped: Some(mapped) }
    }

    /// The range.
    fn mapped(&self) -> (r: MappedRange)
        requires
            self@ is Some,
        ensures
            Some(r) == self@,
    {
        self.mapped.unwrap()
    }

    /// The virtual address of the first byte, if it can be told in 64 bits.
    pub fn base(&self) -> (r: u64)
        requires
            self@ matches Some(range) && range.vfn_start * PAGE_SIZE <= u64::MAX,
        ensures
            r == self@->Some_0.vfn_start * PAGE_SIZE,
    {
        self.mapped().vfn_start * PAGE_SIZE as u64
    }

    /// The size of the range, in bytes.
    pub fn size(&self) -> (r: usize)
        requires
            self.live(),
        ensures
            r == self@->Some_0.size(),
    {
        self.mapped().num_pages * PAGE_SIZE
    }

    /// The number of the first virtual page.
    pub fn vfn_start(&self) -> (r: u64)
        requires
            self@ is Some,
        ensures
            r == self@->Some_0.vfn_start,
    {
        self.mapped().vfn_start
    }

    /// The number of pages in the range.
    pub fn num_pages(&self) -> (r: usize)
        requires
            self@ is Some,
        ensures
            r == self@->Some_0.num_pages,
    {
        self.mapped().num_pages
    }

    /// The place in the aperture of the byte at `offset`. Fails with `EINVAL` if the
    /// range has no such byte, and with `EOVERFLOW` if its place cannot be told.
    pub fn bar_offset(&self, offset: usize) -> (r: Result<usize, Error>)
        requires
            self.live(),
        ensures
            r == self@->Some_0.bar_offset(offset),
    {
        if offset >= self.size() {
            return Err(Error::EINVAL);
        }
        let base: usize = match (self.mapped().vfn_start as usize).checked_mul(PAGE_SIZE) {
            Some(base) => base,
            None => {
                return Err(Error::EOVERFLOW);
            },
        };
        match base.checked_add(offset) {
            Some(place) => Ok(place),
            None => Err(Error::EOVERFLOW),
        }
    }

    /// Reads 32 bits at `offset`, by `read` at the place in the aperture.
    pub fn try_read32<F: FnOnce(usize) -> Result<u32, Error>>(&self, offset: usize, read: F) -> (r:
        Result<u32, Error>)
        requires
            self.live(),
            self@->Some_0.bar_offset(offset) matches Ok(place) ==> call_requires(read, (place,)),
        ensures
            access_outcome(self@->Some_0, offset, read, r),
    {
        match self.bar_offset(offset) {
            Ok(place) => read(place),
            Err(e) => Err(e),
        }
    }

    /// Writes 32 bits at `offset`, by `write` at the place in the aperture.
    pub fn try_write32<F: FnOnce(u32, usize) -> Result<(), Error>>(
        &self,
        value: u32,
        offset: usize,
        write: F,
    ) -> (r: Result<(), Error>)
        requires
            self.live(),
            self@->Some_0.bar_offset(offset) matches Ok(place) ==> call_requires(
                write,
                (value, place),
            ),
        ensures
            match self@->Some_0.bar_offset(offset) {
                Ok(place) => call_ensures(write, (value, place), r),
                Err(e) => r == Err::<(), Error>(e),
            },
    {
        match self.bar_offset(offset) {
            Ok(place) => write(value, place),
            Err(e) => Err(e),
        }
    }

    /// Reads 64 bits at `offset`, by `read` at the place in the aperture.
    pub fn try_read64<F: FnOnce(usize) -> Result<u64, Error>>(&self, offset: usize, read: F) -> (r:
        Result<u64, Error>)
        requires
            self.live(),
            self@->Some_0.bar_offset(offset) matches Ok(place) ==> call_requires(read, (place,)),
        ensures
            access_outcome(self@->Some_0, offset, read, r),
    {
        match self.bar_offset(offset) {
            Ok(place) => read(place),
            Err(e) => Err(e),
        }
    }

    /// Writes 64 bits at `offset`, by `write` at the place in the aperture.
    pub fn try_write64<F: FnOnce(u64, usize) -> Result<(), Error>>(
        &self,
        value: u64,
        offset: usize,
        write: F,
    ) -> (r: Result<(), Error>)
        requires
            self.live(),
            self@->Some_0.bar_offset(offset) matches Ok(place) ==> call_requires(
                write,
                (value, place),
            ),
        ensures
            match self@->Some_0.bar_offset(offset) {
                Ok(place) => call_ensures(write, (value, place), r),
                Err(e) => r == Err::<(), Error>(e),
            },
    {
        match self.bar_offset(offset) {
            Ok(place) => write(value, place),
            Err(e) => Err(e),
        }
    }

    /// Hands back the range, to be unmapped, unless that was done before.
    pub fn release(&mut self) -> (r: Option<MappedRange>)
        ensures
            r == old(self)@,
            final(self)@ is None,
    {
        self.mapped.take()
    }
}

/// Access to a range reaches a contiguous part of the aperture: the first byte is at the
/// start of the first page, and two bytes are as far apart there as in the range.
pub proof fn law_access_is_contiguous(range: MappedRange, i: usize, j: usize)
    requires
        range.bar_offset(i) is Ok,
        range.bar_offset(j) is Ok,
    ensures
        range.bar_offset(0) == Ok::<usize, Error>(range.start() as usize),
        range.bar_offset(j)->Ok_0 - range.bar_offset(i)->Ok_0 == j - i,
{
}

/// Access to a range stays in its pages.
pub proof fn law_access_stays_in_pages(range: MappedRange, offset: usize)
    requires
        range.bar_offset(offset) is Ok,
    ensures
        (range.vfn_start as usize) <= range.bar_offset(offset)->Ok_0 / PAGE_SIZE < (
        range.vfn_start as usize) + range.num_pages,
{
    let first = range.vfn_start as usize;
    assert(first * PAGE_SIZE <= range.bar_offset(offset)->Ok_0 < (first + range.num_pages)
        * PAGE_SIZE);
}

/// Ranges that have no page in common have no place in the aperture in common.
pub proof fn law_disjoint_ranges_stay_apart(a: MappedRange, b: MappedRange, i: usize, j: usize)
    requires
        (a.vfn_start as usize) + a.num_pages <= (b.vfn_start as usize),
        a.bar_offset(i) is Ok,
        b.bar_offset(j) is Ok,
    ensures
        a.bar_offset(i)->Ok_0 < b.bar_offset(j)->Ok_0,
{
    law_access_stays_in_pages(a, i);
    law_access_stays_in_pages(b, j);
}

/// Every byte of the pages of a range can be reached, at as many pages from the start of the
/// aperture as the number of the first page says, if that place can be told. No other can.
pub proof fn law_every_byte_is_reached(range: MappedRange, offset: usize)
    ensures
        ({
            let place = (range.vfn_start as usize) * 0x1000 + offset;
            let r = range.bar_offset(offset);
            &&& offset >= range.num_pages * 0x1000 ==> r == Err::<usize, Error>(Error::EINVAL)
            &&& offset < range.num_pages * 0x1000 && place <= usize::MAX ==> r == Ok::<
                usize,
                Error,
            >(place as usize)
            &&& offset < range.num_pages * 0x1000 && place > usize::MAX ==> r == Err::<
                usize,
                Error,
            >(Error::EOVERFLOW)
            &&& range.size() == range.num_pages * 0x1000
        }),
{
}

/// An access is made at the place of its byte, and gives what is given there; if there is no
/// such place, it is not made.
pub proof fn law_access_is_made_at_its_place<T, F: FnOnce(usize) -> Result<T, Error>>(
    range: MappedRange,
    offset: usize,
    access: F,
    r: Result<T, Error>,
)
    requires
        access_outcome(range, offset, access, r),
    ensures
        offset >= range.num_pages * 0x1000 ==> r == Err::<T, Error>(Error::EINVAL),
        offset < range.num_pages * 0x1000 && (range.vfn_start as usize) * 0x1000 + offset
            <= usize::MAX ==> call_ensures(
            access,
            (((range.vfn_start as usize) * 0x1000 + offset) as usize,),
            r,
        ),
        offset < range.num_pages * 0x1000 && (range.vfn_start as usize) * 0x1000 + offset
            > usize::MAX ==> r == Err::<T, Error>(Error::EOVERFLOW),
{
    law_every_byte_is_reached(range, offset);
}

/// A range can be accessed as long as it was not handed back, if the number of its bytes can
/// be told.
pub proof fn law_live_ranges(access: BarAccess, range: MappedRange)
    requires
        access@ == Some(range),
    ensures
        access.live() <==> range.num_pages * 0x1000 <= usize::MAX,
{
}

} // verus!
