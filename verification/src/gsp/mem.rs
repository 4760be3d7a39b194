//! The memory shared with the GSP: two rings of pages, one for each direction.
//!
//! Each ring has a producer, which owns the write pointer, and a consumer, which
//! owns the read pointer. The pages from the read pointer up to the write pointer
//! hold messages; equal pointers mean that there are none. So the producer always
//! leaves one page free: a ring that was filled up would look empty.
use vstd::prelude::*;
use crate::bytes::{push_zeros, zeros};
use crate::error::Error;
use crate::gsp::fw::{
    page_count, pages_for, MsgqRxHeader, MsgqTxHeader, CPUQ_OFFSET, GSPQ_OFFSET, GSP_MEM_SIZE,
    GSP_PAGE_SHIFT, GSP_PAGE_SIZE, MSGQ_DATA_OFFSET, MSGQ_DATA_SIZE, MSGQ_NUM_PAGES, MSGQ_SIZE, PTE_ARRAY_LEN,
    RX_HDR_OFF,
};

verus! {

/// Offset of the data after the page table entries.
pub const POST_PTE_OFFSET: usize = CPUQ_OFFSET;

/// Offset of the command ring, counted from the end of the page table entries.
pub const CMDQ_OFFSET: usize = CPUQ_OFFSET + MSGQ_DATA_OFFSET - POST_PTE_OFFSET;

/// Offset of the status ring, counted from the end of the page table entries.
pub const STATQ_OFFSET: usize = GSPQ_OFFSET + MSGQ_DATA_OFFSET - POST_PTE_OFFSET;

/// Number of page table entries for the shared memory.
pub const NUM_PTES: usize = GSP_MEM_SIZE / GSP_PAGE_SIZE;

/// Pages to go from page `from` of a ring to page `to`.
pub open spec fn ring_dist(from: int, to: int) -> int {
    (to - from) % MSGQ_NUM_PAGES as int
}

/// The `n` bytes of a ring that start at byte `start` and go on past its end.
pub open spec fn ring_bytes(data: Seq<u8>, start: int, n: int) -> Seq<u8> {
    Seq::new(n as nat, |i: int| data[(start + i) % MSGQ_DATA_SIZE as int])
}

/// `new` is `old` with `bytes` written at byte `start` and on past the end of the
/// ring, and nothing else changed.
pub open spec fn ring_written(old: Seq<u8>, new: Seq<u8>, start: int, bytes: Seq<u8>) -> bool {
    &&& new.len() == old.len()
    &&& ring_bytes(new, start, bytes.len() as int) == bytes
    &&& forall|j: int|
        0 <= j < MSGQ_DATA_SIZE && (j - start) % MSGQ_DATA_SIZE as int >= bytes.len()
            ==> #[trigger] new[j] == old[j]
}

/// A run of pages, or of bytes, in a ring.
#[derive(Clone, Copy, Debug, PartialEq, Eq, Structural)]
pub struct Run {
    pub start: usize,
    pub len: usize,
}

/// Splits a run of `n` pages that starts at page `start` at the end of the ring.
pub open spec fn split_pages(start: int, n: int) -> (Run, Run) {
    let first = if n < MSGQ_NUM_PAGES - start {
        n
    } else {
        MSGQ_NUM_PAGES - start
    };
    (
        Run { start: start as usize, len: first as usize },
        Run { start: 0, len: (n - first) as usize },
    )
}

/// A queue: the header of its producer side, that of the consumer side of the
/// opposite queue, and the ring.
#[derive(Debug)]
pub struct Msgq {
    pub tx: MsgqTxHeader,
    pub rx: MsgqRxHeader,
    pub data: Vec<u8>,
}

/// The contents of the shared memory.
#[derive(Debug)]
pub struct GspMem {
    pub ptes: Vec<u64>,
    /// Commands to the GSP. The driver owns both headers.
    pub cpuq: Msgq,
    /// Messages from the GSP. The GSP owns both headers.
    pub gspq: Msgq,
}

/// The shared memory and the address at which the GSP finds it.
#[derive(Debug)]
pub struct DmaGspMem {
    pub mem: GspMem,
    pub handle: u64,
}

/// The addresses of the pages of a region that starts at `start`.
pub fn pte_array(start: u64) -> (r: Result<Vec<u64>, Error>)
    ensures
        match r {
            Ok(ptes) => {
                &&& start + (PTE_ARRAY_LEN - 1) * GSP_PAGE_SIZE <= u64::MAX
                &&& ptes@ == Seq::new(
                    PTE_ARRAY_LEN as nat,
                    |i: int| (start + i * GSP_PAGE_SIZE) as u64,
                )
            },
            Err(e) => {
                &&& start + (PTE_ARRAY_LEN - 1) * GSP_PAGE_SIZE > u64::MAX
                &&& e == Error::EOVERFLOW
            },
        },
{
    let last: u64 = 0x1f_f000;
    if start > u64::MAX - last {
        return Err(Error::EOVERFLOW);
    }
    let ghost all = Seq::new(
        PTE_ARRAY_LEN as nat,
        |i: int| (start + i * GSP_PAGE_SIZE) as u64,
    );
    let mut ptes: Vec<u64> = Vec::new();
    let mut i: usize = 0;
    while i < PTE_ARRAY_LEN
        invariant
            i <= PTE_ARRAY_LEN,
            start + (PTE_ARRAY_LEN - 1) * GSP_PAGE_SIZE <= u64::MAX,
            all == Seq::new(
                PTE_ARRAY_LEN as nat,
                |i: int| (start + i * GSP_PAGE_SIZE) as u64,
            ),
            ptes@ == all.take(i as int),
        decreases PTE_ARRAY_LEN - i,
    {
        ptes.push(start + (i as u64) * 0x1000);
        i += 1;
        assert(ptes@ =~= all.take(i as int));
    }
    assert(all.take(i as int) =~= all);
    Ok(ptes)
}

/// An array of `n` zero bytes.
fn zeroed(n: usize) -> (r: Vec<u8>)
    ensures
        r@ == zeros(n as nat),
{
    let mut data: Vec<u8> = Vec::new();
    push_zeros(&mut data, n);
    assert(data@ =~= zeros(n as nat));
    data
}

/// Copies the `n` bytes at `from` in `src` to `at` in `data`.
fn copy_bytes(data: &mut Vec<u8>, at: usize, src: &Vec<u8>, from: usize, n: usize)
    requires
        at + n <= old(data).len(),
        from + n <= src.len(),
    ensures
        final(data)@.len() == old(data)@.len(),
        forall|j: int|
            0 <= j < old(data)@.len() ==> #[trigger] final(data)@[j] == (if at <= j < at + n {
                src@[from + (j - at)]
            } else {
                old(data)@[j]
            }),
{
    let mut i: usize = 0;
    while i < n
        invariant
            i <= n,
            at + n <= data.len(),
            from + n <= src.len(),
            data@.len() == old(data)@.len(),
            forall|j: int|
                0 <= j < old(data)@.len() ==> #[trigger] data@[j] == (if at <= j < at + i {
                    src@[from + (j - at)]
                } else {
                    old(data)@[j]
                }),
        decreases n - i,
    {
        data[at + i] = src[from + i];
        i += 1;
    }
}

/// Moving a pointer on moves it that much further away from another, as long as it does
/// not catch up with it.
pub proof fn lemma_ring_move(from: int, to: int, n: int)
    requires
        0 <= from < MSGQ_NUM_PAGES,
        0 <= to < MSGQ_NUM_PAGES,
        0 <= n,
        ring_dist(from, to) + n < MSGQ_NUM_PAGES,
    ensures
        MSGQ_NUM_PAGES > (to + n) % MSGQ_NUM_PAGES as int >= 0,
        ring_dist(from, (to + n) % MSGQ_NUM_PAGES as int) == ring_dist(from, to) + n,
{
}

/// Moving a pointer on brings it that much closer to another, as long as it does not pass
/// it.
pub proof fn lemma_ring_approach(from: int, to: int, n: int)
    requires
        0 <= from < MSGQ_NUM_PAGES,
        0 <= to < MSGQ_NUM_PAGES,
        0 <= n <= ring_dist(from, to),
    ensures
        MSGQ_NUM_PAGES > (from + n) % MSGQ_NUM_PAGES as int >= 0,
        ring_dist((from + n) % MSGQ_NUM_PAGES as int, to) == ring_dist(from, to) - n,
{
}

/// A place in a ring, counted from a page `n` pages further on or from the page itself.
proof fn lemma_ring_index(page: int, n: int, i: int)
    requires
        0 <= page < MSGQ_NUM_PAGES,
        0 <= n < MSGQ_NUM_PAGES,
        0 <= i < MSGQ_DATA_SIZE - n * GSP_PAGE_SIZE,
    ensures
        ((page + n) % MSGQ_NUM_PAGES as int * GSP_PAGE_SIZE + i) % MSGQ_DATA_SIZE as int == (page
            * GSP_PAGE_SIZE + (n * GSP_PAGE_SIZE + i)) % MSGQ_DATA_SIZE as int,
{
    let moved = (page + n) % MSGQ_NUM_PAGES as int;
    assert(moved == page + n || moved == page + n - MSGQ_NUM_PAGES);
    lemma_wrap(moved * GSP_PAGE_SIZE + i);
    lemma_wrap(page * GSP_PAGE_SIZE + (n * GSP_PAGE_SIZE + i));
}

/// The bytes of a ring from a page on, without those of the first `n` pages, are those
/// from the page `n` pages further on.
pub proof fn lemma_ring_skip(data: Seq<u8>, page: int, n: int, total: int)
    requires
        0 <= page < MSGQ_NUM_PAGES,
        0 <= n <= total < MSGQ_NUM_PAGES,
    ensures
        ring_bytes(
            data,
            (page + n) % MSGQ_NUM_PAGES as int * GSP_PAGE_SIZE,
            (total - n) * GSP_PAGE_SIZE,
        ) == ring_bytes(data, page * GSP_PAGE_SIZE, total * GSP_PAGE_SIZE).skip(n * GSP_PAGE_SIZE),
{
    let rest = (total - n) * GSP_PAGE_SIZE;
    let after = ring_bytes(data, (page + n) % MSGQ_NUM_PAGES as int * GSP_PAGE_SIZE, rest);
    let before = ring_bytes(data, page * GSP_PAGE_SIZE, total * GSP_PAGE_SIZE).skip(
        n * GSP_PAGE_SIZE,
    );
    assert forall|i: int| 0 <= i < rest implies after[i] == before[i] by {
        lemma_ring_index(page, n, i);
    }
    assert(after =~= before);
}

/// Wrapping an index that is less than one round off.
pub proof fn lemma_wrap(i: int)
    requires
        -MSGQ_DATA_SIZE <= i < 2 * MSGQ_DATA_SIZE,
    ensures
        i % MSGQ_DATA_SIZE as int == (if i < 0 {
            i + MSGQ_DATA_SIZE
        } else if i < MSGQ_DATA_SIZE {
            i
        } else {
            i - MSGQ_DATA_SIZE
        }),
{
}

/// Bytes written up to the end of a ring, and the remainder from its beginning, are
/// written to the ring.
proof fn lemma_ring_written(old: Seq<u8>, new: Seq<u8>, start: int, bytes: Seq<u8>, first: int)
    requires
        old.len() == MSGQ_DATA_SIZE,
        new.len() == MSGQ_DATA_SIZE,
        0 <= start < MSGQ_DATA_SIZE,
        bytes.len() <= MSGQ_DATA_SIZE,
        first == (if bytes.len() < MSGQ_DATA_SIZE - start {
            bytes.len() as int
        } else {
            MSGQ_DATA_SIZE - start
        }),
        forall|j: int|
            0 <= j < MSGQ_DATA_SIZE ==> #[trigger] new[j] == (if 0 <= j < bytes.len() - first {
                bytes[first + j]
            } else if start <= j < start + first {
                bytes[j - start]
            } else {
                old[j]
            }),
    ensures
        ring_written(old, new, start, bytes),
{
    let read = ring_bytes(new, start, bytes.len() as int);
    assert forall|i: int| 0 <= i < bytes.len() implies read[i] == bytes[i] by {
        lemma_wrap(start + i);
        let j = if i < first {
            start + i
        } else {
            start + i - MSGQ_DATA_SIZE
        };
        assert(read[i] == new[j]);
    }
    assert(read =~= bytes);
    assert forall|j: int|
        0 <= j < MSGQ_DATA_SIZE && (j - start) % MSGQ_DATA_SIZE as int
            >= bytes.len() implies #[trigger] new[j] == old[j] by {
        lemma_wrap(j - start);
    }
}

/// What is written to a ring is read back from it, followed by what was there before.
pub proof fn law_ring_gives_back_what_was_written(
    old: Seq<u8>,
    new: Seq<u8>,
    start: int,
    bytes: Seq<u8>,
    n: int,
)
    requires
        0 <= start < MSGQ_DATA_SIZE,
        bytes.len() <= n <= MSGQ_DATA_SIZE,
        ring_written(old, new, start, bytes),
    ensures
        ring_bytes(new, start, n) == bytes + ring_bytes(
            old,
            start + bytes.len(),
            n - bytes.len(),
        ),
{
    let read = ring_bytes(new, start, n);
    let want = bytes + ring_bytes(old, start + bytes.len(), n - bytes.len());
    let written = ring_bytes(new, start, bytes.len() as int);
    assert forall|i: int| 0 <= i < n implies read[i] == want[i] by {
        lemma_wrap(start + i);
        let j = (start + i) % MSGQ_DATA_SIZE as int;
        if i < bytes.len() {
            assert(written[i] == bytes[i]);
        } else {
            lemma_wrap(j - start);
            assert(new[j] == old[j]);
        }
    }
    assert(read =~= want);
}

impl DmaGspMem {
    /// Both rings have their full size.
    pub open spec fn wf(self) -> bool {
        &&& self.mem.cpuq.data@.len() == MSGQ_DATA_SIZE
        &&& self.mem.gspq.data@.len() == MSGQ_DATA_SIZE
    }

    /// Next page of the status ring that the GSP will write.
    pub open spec fn spec_gsp_write_ptr(self) -> u32 {
        self.mem.gspq.tx.write_ptr % MSGQ_NUM_PAGES
    }

    /// Next page of the command ring that the GSP will read.
    pub open spec fn spec_gsp_read_ptr(self) -> u32 {
        self.mem.gspq.rx.read_ptr % MSGQ_NUM_PAGES
    }

    /// Next page of the status ring that the driver will read.
    pub open spec fn spec_cpu_read_ptr(self) -> u32 {
        self.mem.cpuq.rx.read_ptr % MSGQ_NUM_PAGES
    }

    /// Next page of the command ring that the driver will write.
    pub open spec fn spec_cpu_write_ptr(self) -> u32 {
        self.mem.cpuq.tx.write_ptr % MSGQ_NUM_PAGES
    }

    /// Pages of the command ring that hold commands the GSP has not read.
    pub open spec fn queued_pages(self) -> int {
        ring_dist(self.spec_gsp_read_ptr() as int, self.spec_cpu_write_ptr() as int)
    }

    /// Pages of the command ring that the driver may write: all but those in use
    /// and one more.
    pub open spec fn free_pages(self) -> int {
        MSGQ_NUM_PAGES - 1 - self.queued_pages()
    }

    /// The bytes of all pages of the command ring that the GSP has not read.
    pub open spec fn queued_bytes(self) -> Seq<u8> {
        ring_bytes(
            self.mem.cpuq.data@,
            self.spec_gsp_read_ptr() * GSP_PAGE_SIZE,
            self.queued_pages() * GSP_PAGE_SIZE,
        )
    }

    /// Pages of the status ring that hold messages the driver has not read.
    pub open spec fn pending_pages(self) -> int {
        ring_dist(self.spec_cpu_read_ptr() as int, self.spec_gsp_write_ptr() as int)
    }

    /// The bytes of all pages of the status ring that the driver has not read.
    pub open spec fn pending_bytes(self) -> Seq<u8> {
        ring_bytes(
            self.mem.gspq.data@,
            self.spec_cpu_read_ptr() * GSP_PAGE_SIZE,
            self.pending_pages() * GSP_PAGE_SIZE,
        )
    }

    /// The parts of the command ring that a command of `size` bytes takes.
    pub open spec fn command_segments(self, size: int) -> (Run, Run) {
        let start = self.spec_cpu_write_ptr() * GSP_PAGE_SIZE;
        let first = if size < MSGQ_DATA_SIZE - start {
            size
        } else {
            MSGQ_DATA_SIZE - start
        };
        (
            Run { start: start as usize, len: first as usize },
            Run { start: 0, len: (size - first) as usize },
        )
    }

    /// Zeroed memory in which the entries for its pages and the headers of the command
    /// queue are set up.
    pub open spec fn fresh(self) -> bool {
        &&& self.mem.ptes@ == Seq::new(
            PTE_ARRAY_LEN as nat,
            |i: int| (self.handle + i * GSP_PAGE_SIZE) as u64,
        )
        &&& self.mem.cpuq.tx == (MsgqTxHeader {
            version: 0,
            size: MSGQ_SIZE,
            msg_size: 0x1000,
            msg_count: MSGQ_NUM_PAGES,
            write_ptr: 0,
            flags: 1,
            rx_hdr_off: RX_HDR_OFF,
            entry_off: 0x1000,
        })
        &&& self.mem.cpuq.rx.read_ptr == 0
        &&& self.mem.gspq.tx == (MsgqTxHeader {
            version: 0,
            size: 0,
            msg_size: 0,
            msg_count: 0,
            write_ptr: 0,
            flags: 0,
            rx_hdr_off: 0,
            entry_off: 0,
        })
        &&& self.mem.gspq.rx.read_ptr == 0
        &&& self.mem.cpuq.data@ == zeros(MSGQ_DATA_SIZE as nat)
        &&& self.mem.gspq.data@ == zeros(MSGQ_DATA_SIZE as nat)
    }

    /// The state of zeroed shared memory at address `handle` once its headers are
    /// set up.
    pub fn new(handle: u64) -> (r: Result<Self, Error>)
        ensures
            match r {
                Ok(m) => {
                    &&& m.wf()
                    &&& m.handle == handle
                    &&& m.fresh()
                },
                Err(e) => e == Error::EOVERFLOW,
            },
            r is Ok <==> handle + (PTE_ARRAY_LEN - 1) * GSP_PAGE_SIZE <= u64::MAX,
    {
        let ptes = match pte_array(handle) {
            Ok(ptes) => ptes,
            Err(e) => {
                return Err(e);
            },
        };
        let cpuq = Msgq {
            tx: MsgqTxHeader::new(MSGQ_SIZE, RX_HDR_OFF),
            rx: MsgqRxHeader::new(),
            data: zeroed(MSGQ_DATA_SIZE),
        };
        let gspq = Msgq {
            tx: MsgqTxHeader {
                version: 0,
                size: 0,
                msg_size: 0,
                msg_count: 0,
                write_ptr: 0,
                flags: 0,
                rx_hdr_off: 0,
                entry_off: 0,
            },
            rx: MsgqRxHeader::new(),
            data: zeroed(MSGQ_DATA_SIZE),
        };
        Ok(DmaGspMem { mem: GspMem { ptes, cpuq, gspq }, handle })
    }

    /// The pages of the command ring that belong to the driver.
    ///
    /// The first run starts at the write pointer; the second, at the beginning of
    /// the ring, is what lies beyond its end.
    pub fn driver_write_area(&self) -> (r: (Run, Run))
        ensures
            r == split_pages(self.spec_cpu_write_ptr() as int, self.free_pages()),
            r.0.start == self.spec_cpu_write_ptr(),
            r.1.start == 0,
            r.0.len + r.1.len == self.free_pages(),
            r.0.start + r.0.len <= MSGQ_NUM_PAGES,
    {
        let tx = self.cpu_write_ptr() as usize;
        let rx = self.gsp_read_ptr() as usize;
        let end = MSGQ_NUM_PAGES as usize;
        if rx <= tx {
            // From `tx` to the end of the ring, and from its beginning up to `rx`,
            // minus one page.
            if rx == 0 {
                (Run { start: tx, len: end - tx - 1 }, Run { start: 0, len: 0 })
            } else {
                (Run { start: tx, len: end - tx }, Run { start: 0, len: rx - 1 })
            }
        } else {
            // From `tx` to `rx`, minus one page.
            (Run { start: tx, len: rx - tx - 1 }, Run { start: 0, len: 0 })
        }
    }

    /// The pages of the status ring that belong to the driver.
    ///
    /// The first run starts at the read pointer; the second, at the beginning of
    /// the ring, is what lies beyond its end.
    pub fn driver_read_area(&self) -> (r: (Run, Run))
        ensures
            r == split_pages(self.spec_cpu_read_ptr() as int, self.pending_pages()),
            r.0.start == self.spec_cpu_read_ptr(),
            r.1.start == 0,
            r.0.len + r.1.len == self.pending_pages(),
            r.0.start + r.0.len <= MSGQ_NUM_PAGES,
    {
        let tx = self.gsp_write_ptr() as usize;
        let rx = self.cpu_read_ptr() as usize;
        let end = MSGQ_NUM_PAGES as usize;
        if tx < rx {
            (Run { start: rx, len: end - rx }, Run { start: 0, len: tx })
        } else {
            (Run { start: rx, len: tx - rx }, Run { start: 0, len: 0 })
        }
    }

    /// Tries to allocate `size` bytes on the command ring.
    ///
    /// If there is enough space, two runs of bytes are returned. The first starts at
    /// the write pointer and ends at `size` or at the end of the ring, whichever
    /// comes first. The second covers the remainder, from the beginning of the ring. Both
    /// start at a page, and the first page of the command is never split.
    pub fn allocate_command(&self, size: usize) -> (r: Result<(Run, Run), Error>)
        ensures
            match r {
                Ok(segments) => {
                    &&& pages_for(size as int) <= self.free_pages()
                    &&& segments == self.command_segments(size as int)
                    &&& segments.0.start + segments.0.len <= MSGQ_DATA_SIZE
                    &&& segments.0.len + segments.1.len == size
                    &&& segments.1.len <= segments.0.start
                    &&& segments.0.len >= size || segments.0.len >= GSP_PAGE_SIZE
                    &&& segments.0.start % GSP_PAGE_SIZE == 0
                    &&& segments.1.start % GSP_PAGE_SIZE == 0
                },
                Err(e) => {
                    &&& pages_for(size as int) > self.free_pages()
                    &&& e == Error::EAGAIN
                },
            },
    {
        let (first, second) = self.driver_write_area();
        let free_tx_pages = first.len + second.len;
        if free_tx_pages < page_count(size) {
            return Err(Error::EAGAIN);
        }
        let start = first.start * GSP_PAGE_SIZE;
        let first_len = first.len * GSP_PAGE_SIZE;
        Ok(
            if size >= first_len {
                // The whole first part is needed, and the second up to the remainder.
                (Run { start, len: first_len }, Run { start: 0, len: size - first_len })
            } else {
                // The first part has more space than is needed.
                (Run { start, len: size }, Run { start: 0, len: 0 })
            },
        )
    }

    /// Next page of the status ring that the GSP will write.
    pub fn gsp_write_ptr(&self) -> (r: u32)
        ensures
            r == self.spec_gsp_write_ptr(),
    {
        self.mem.gspq.tx.write_ptr % MSGQ_NUM_PAGES
    }

    /// Next page of the command ring that the GSP will read.
    pub fn gsp_read_ptr(&self) -> (r: u32)
        ensures
            r == self.spec_gsp_read_ptr(),
    {
        self.mem.gspq.rx.read_ptr % MSGQ_NUM_PAGES
    }

    /// Next page of the status ring that the driver will read.
    pub fn cpu_read_ptr(&self) -> (r: u32)
        ensures
            r == self.spec_cpu_read_ptr(),
    {
        self.mem.cpuq.rx.read_ptr % MSGQ_NUM_PAGES
    }

    /// Next page of the command ring that the driver will write.
    pub fn cpu_write_ptr(&self) -> (r: u32)
        ensures
            r == self.spec_cpu_write_ptr(),
    {
        self.mem.cpuq.tx.write_ptr % MSGQ_NUM_PAGES
    }

    /// Informs the GSP that it can send `elem_count` new pages into the status ring.
    pub fn advance_cpu_read_ptr(&mut self, elem_count: u32)
        ensures
            final(self).mem.cpuq.rx.read_ptr == (old(self).spec_cpu_read_ptr() + elem_count)
                % 0x1_0000_0000 % MSGQ_NUM_PAGES as int,
            final(self).mem.cpuq.tx == old(self).mem.cpuq.tx,
            final(self).mem.cpuq.data == old(self).mem.cpuq.data,
            final(self).mem.gspq == old(self).mem.gspq,
            final(self).mem.ptes == old(self).mem.ptes,
            final(self).handle == old(self).handle,
    {
        let rptr = self.cpu_read_ptr().wrapping_add(elem_count) % MSGQ_NUM_PAGES;
        self.mem.cpuq.rx.read_ptr = rptr;
    }

    /// Informs the GSP that it can process `elem_count` new pages of the command ring.
    pub fn advance_cpu_write_ptr(&mut self, elem_count: u32)
        ensures
            final(self).mem.cpuq.tx == (MsgqTxHeader {
                write_ptr: ((old(self).spec_cpu_write_ptr() + elem_count) % 0x1_0000_0000
                    % MSGQ_NUM_PAGES as int) as u32,
                ..old(self).mem.cpuq.tx
            }),
            final(self).mem.cpuq.rx == old(self).mem.cpuq.rx,
            final(self).mem.cpuq.data == old(self).mem.cpuq.data,
            final(self).mem.gspq == old(self).mem.gspq,
            final(self).mem.ptes == old(self).mem.ptes,
            final(self).handle == old(self).handle,
    {
        let wptr = self.cpu_write_ptr().wrapping_add(elem_count) % MSGQ_NUM_PAGES;
        self.mem.cpuq.tx.write_ptr = wptr;
    }

    /// Writes `bytes` to the command ring, at the write pointer and on.
    pub fn write_command(&mut self, bytes: &Vec<u8>)
        requires
            old(self).wf(),
            bytes@.len() <= MSGQ_DATA_SIZE,
        ensures
            final(self).wf(),
            ring_written(
                old(self).mem.cpuq.data@,
                final(self).mem.cpuq.data@,
                old(self).spec_cpu_write_ptr() * GSP_PAGE_SIZE,
                bytes@,
            ),
            final(self).mem.cpuq.tx == old(self).mem.cpuq.tx,
            final(self).mem.cpuq.rx == old(self).mem.cpuq.rx,
            final(self).mem.gspq == old(self).mem.gspq,
            final(self).mem.ptes == old(self).mem.ptes,
            final(self).handle == old(self).handle,
    {
        let start = self.cpu_write_ptr() as usize * GSP_PAGE_SIZE;
        let first = if bytes.len() < MSGQ_DATA_SIZE - start {
            bytes.len()
        } else {
            MSGQ_DATA_SIZE - start
        };
        copy_bytes(&mut self.mem.cpuq.data, start, bytes, 0, first);
        copy_bytes(&mut self.mem.cpuq.data, 0, bytes, first, bytes.len() - first);
        proof {
            lemma_ring_written(
                old(self).mem.cpuq.data@,
                self.mem.cpuq.data@,
                start as int,
                bytes@,
                first as int,
            );
        }
    }

    /// The bytes that the driver can read without wrapping at the end of the ring.
    pub open spec fn first_pending_bytes(self) -> int {
        split_pages(self.spec_cpu_read_ptr() as int, self.pending_pages()).0.len * GSP_PAGE_SIZE
    }

    /// The bytes of the run of pages `run` of the status ring.
    fn status_pages(&self, run: Run) -> (r: &[u8])
        requires
            self.wf(),
            run.start + run.len <= MSGQ_NUM_PAGES,
        ensures
            r@ == self.mem.gspq.data@.subrange(
                run.start * GSP_PAGE_SIZE,
                (run.start + run.len) * GSP_PAGE_SIZE,
            ),
    {
        vstd::slice::slice_subrange(
            self.mem.gspq.data.as_slice(),
            run.start * GSP_PAGE_SIZE,
            (run.start + run.len) * GSP_PAGE_SIZE,
        )
    }

    /// All bytes that the driver has not read, in two pieces.
    pub fn pending(&self) -> (r: (&[u8], &[u8]))
        requires
            self.wf(),
        ensures
            r.0@ + r.1@ == self.pending_bytes(),
            r.0@.len() == self.first_pending_bytes(),
            r.0@.len() + r.1@.len() <= MSGQ_DATA_SIZE,
            r.0@.len() == 0 ==> self.pending_pages() == 0,
    {
        let (run_1, run_2) = self.driver_read_area();
        let first = self.status_pages(run_1);
        let second = self.status_pages(run_2);
        proof {
            let all = self.pending_bytes();
            let start = self.spec_cpu_read_ptr() * GSP_PAGE_SIZE;
            assert forall|i: int| 0 <= i < all.len() implies all[i] == (first@ + second@)[i] by {
                lemma_wrap(start + i);
            }
            assert(all =~= first@ + second@);
        }
        (first, second)
    }
}

/// Writing to the free pages of the command ring leaves the commands that the GSP has not
/// read as they are.
pub proof fn lemma_free_pages_are_not_queued(
    old: DmaGspMem,
    new: DmaGspMem,
    bytes: Seq<u8>,
    pages: int,
)
    requires
        bytes.len() <= pages * GSP_PAGE_SIZE,
        pages <= old.free_pages(),
        ring_written(
            old.mem.cpuq.data@,
            new.mem.cpuq.data@,
            old.spec_cpu_write_ptr() * GSP_PAGE_SIZE,
            bytes,
        ),
    ensures
        ring_bytes(
            new.mem.cpuq.data@,
            old.spec_gsp_read_ptr() * GSP_PAGE_SIZE,
            old.queued_pages() * GSP_PAGE_SIZE,
        ) == old.queued_bytes(),
{
    let rx = old.spec_gsp_read_ptr() as int;
    let tx = old.spec_cpu_write_ptr() as int;
    let before = old.queued_bytes();
    let n = old.queued_pages() * GSP_PAGE_SIZE;
    let after = ring_bytes(new.mem.cpuq.data@, rx * GSP_PAGE_SIZE, n);
    lemma_ring_dist(rx, tx);
    assert forall|i: int| 0 <= i < n implies after[i] == before[i] by {
        lemma_wrap(rx * GSP_PAGE_SIZE + i);
        let j = (rx * GSP_PAGE_SIZE + i) % MSGQ_DATA_SIZE as int;
        lemma_wrap(j - tx * GSP_PAGE_SIZE);
        assert(new.mem.cpuq.data@[j] == old.mem.cpuq.data@[j]);
    }
    assert(after =~= before);
}

/// `page` is in one of the two runs.
pub open spec fn in_runs(runs: (Run, Run), page: int) -> bool {
    ||| runs.0.start <= page < runs.0.start + runs.0.len
    ||| runs.1.start <= page < runs.1.start + runs.1.len
}

/// The runs of a split run of pages hold the pages that are less than `n` pages
/// ahead of its start.
proof fn lemma_split_pages(start: int, n: int, page: int)
    requires
        0 <= start < MSGQ_NUM_PAGES,
        0 <= n < MSGQ_NUM_PAGES,
        0 <= page < MSGQ_NUM_PAGES,
    ensures
        in_runs(split_pages(start, n), page) <==> ring_dist(start, page) < n,
{
}

/// The distance between two pages of a ring.
proof fn lemma_ring_dist(from: int, to: int)
    requires
        0 <= from < MSGQ_NUM_PAGES,
        0 <= to < MSGQ_NUM_PAGES,
    ensures
        ring_dist(from, to) == (if from <= to {
            to - from
        } else {
            to - from + MSGQ_NUM_PAGES
        }),
{
}

/// A page is ahead of `rx` by less than `tx` is, or ahead of `tx` by less than the
/// remainder of the ring but one page, or the page in front of `rx`.
proof fn lemma_one_owner(rx: int, tx: int, page: int)
    requires
        0 <= rx < MSGQ_NUM_PAGES,
        0 <= tx < MSGQ_NUM_PAGES,
        0 <= page < MSGQ_NUM_PAGES,
    ensures
        ({
            let driver = ring_dist(tx, page) < MSGQ_NUM_PAGES - 1 - ring_dist(rx, tx);
            let gsp = ring_dist(rx, page) < ring_dist(rx, tx);
            let gap = page == (rx - 1) % MSGQ_NUM_PAGES as int;
            &&& driver || gsp || gap
            &&& !(driver && gsp)
            &&& !(driver && gap)
            &&& !(gsp && gap)
        }),
{
    lemma_ring_dist(rx, tx);
    lemma_ring_dist(tx, page);
    lemma_ring_dist(rx, page);
    assert((rx - 1) % MSGQ_NUM_PAGES as int == (if rx == 0 {
        MSGQ_NUM_PAGES - 1
    } else {
        rx - 1
    }));
}

/// Every page of the command ring is either one that the GSP has yet to read, or one
/// that the driver may write, or the one in front of the GSP's read pointer, which is
/// left free.
pub proof fn law_command_pages_have_one_owner(m: DmaGspMem, page: int)
    requires
        0 <= page < MSGQ_NUM_PAGES,
    ensures
        ({
            let rx = m.spec_gsp_read_ptr() as int;
            let tx = m.spec_cpu_write_ptr() as int;
            let driver = in_runs(split_pages(tx, m.free_pages()), page);
            let gsp = in_runs(split_pages(rx, m.queued_pages()), page);
            let gap = page == (rx - 1) % MSGQ_NUM_PAGES as int;
            &&& driver || gsp || gap
            &&& !(driver && gsp)
            &&& !(driver && gap)
            &&& !(gsp && gap)
        }),
{
    let rx = m.spec_gsp_read_ptr() as int;
    let tx = m.spec_cpu_write_ptr() as int;
    lemma_ring_dist(rx, tx);
    lemma_split_pages(tx, m.free_pages(), page);
    lemma_split_pages(rx, m.queued_pages(), page);
    lemma_one_owner(rx, tx, page);
}

/// Every page of the status ring is either one that the driver may read or one that
/// is not between the two pointers.
pub proof fn law_status_pages_belong_to_driver(m: DmaGspMem, page: int)
    requires
        0 <= page < MSGQ_NUM_PAGES,
    ensures
        in_runs(
            split_pages(m.spec_cpu_read_ptr() as int, m.pending_pages()),
            page,
        ) <==> ring_dist(m.spec_cpu_read_ptr() as int, page) < ring_dist(
            m.spec_cpu_read_ptr() as int,
            m.spec_gsp_write_ptr() as int,
        ),
{
    lemma_split_pages(m.spec_cpu_read_ptr() as int, m.pending_pages(), page);
}

/// The parts of the shared memory lie in whole pages, one after the other, and the
/// page table entries for all of it fit in the first page.
pub proof fn law_shared_memory_layout()
    ensures
        CPUQ_OFFSET == PTE_ARRAY_LEN * 8,
        GSPQ_OFFSET == CPUQ_OFFSET + MSGQ_SIZE,
        GSP_MEM_SIZE == GSPQ_OFFSET + MSGQ_SIZE,
        MSGQ_SIZE == MSGQ_DATA_OFFSET + MSGQ_DATA_SIZE,
        MSGQ_DATA_SIZE == MSGQ_NUM_PAGES * GSP_PAGE_SIZE,
        CPUQ_OFFSET % GSP_PAGE_SIZE == 0,
        MSGQ_DATA_OFFSET % GSP_PAGE_SIZE == 0,
        NUM_PTES * GSP_PAGE_SIZE == GSP_MEM_SIZE,
        NUM_PTES * 8 <= GSP_PAGE_SIZE,
        GSP_PAGE_SHIFT == 12,
        GSP_PAGE_SIZE == 0x1000,
        POST_PTE_OFFSET == GSP_PAGE_SIZE,
        POST_PTE_OFFSET + CMDQ_OFFSET == CPUQ_OFFSET + MSGQ_DATA_OFFSET,
        POST_PTE_OFFSET + STATQ_OFFSET == GSPQ_OFFSET + MSGQ_DATA_OFFSET,
{
}

/// The distance between two pointers, each reduced to the ring, takes the one to the other.
proof fn lemma_reduced_dist(from: int, to: int)
    requires
        0 <= from,
        0 <= to,
    ensures
        ({
            let d = ring_dist(from % MSGQ_NUM_PAGES as int, to % MSGQ_NUM_PAGES as int);
            &&& 0 <= d < 63
            &&& (from + d - to) % 63 == 0
        }),
{
    let a = from % 63;
    let b = to % 63;
    lemma_ring_dist(a, b);
    assert((from - a) % 63 == 0);
    assert((to - b) % 63 == 0);
}

/// Each pointer is the number of a page, and as many pages from the start of the ring as the
/// word of its owner says: the command ring is written by the driver and read by the GSP,
/// and the status ring is written by the GSP and read by the driver.
pub proof fn law_pointers_are_pages(m: DmaGspMem)
    ensures
        m.spec_cpu_write_ptr() < 63,
        m.spec_gsp_read_ptr() < 63,
        m.spec_gsp_write_ptr() < 63,
        m.spec_cpu_read_ptr() < 63,
        (m.mem.cpuq.tx.write_ptr - m.spec_cpu_write_ptr()) % 63 == 0,
        (m.mem.gspq.rx.read_ptr - m.spec_gsp_read_ptr()) % 63 == 0,
        (m.mem.gspq.tx.write_ptr - m.spec_gsp_write_ptr()) % 63 == 0,
        (m.mem.cpuq.rx.read_ptr - m.spec_cpu_read_ptr()) % 63 == 0,
{
}

/// Reading all pages with unread messages takes the read pointer to the write pointer, in
/// less than a round. That holds of both rings, and of the command ring all pages but
/// those and one more are free.
pub proof fn law_unread_pages_lead_to_write_pointer(m: DmaGspMem)
    ensures
        0 <= m.pending_pages() < 63,
        (m.mem.cpuq.rx.read_ptr + m.pending_pages() - m.mem.gspq.tx.write_ptr) % 63 == 0,
        0 <= m.queued_pages() < 63,
        (m.mem.gspq.rx.read_ptr + m.queued_pages() - m.mem.cpuq.tx.write_ptr) % 63 == 0,
        m.queued_pages() + m.free_pages() == 62,
{
    lemma_reduced_dist(m.mem.cpuq.rx.read_ptr as int, m.mem.gspq.tx.write_ptr as int);
    lemma_reduced_dist(m.mem.gspq.rx.read_ptr as int, m.mem.cpuq.tx.write_ptr as int);
}

/// Byte `b` of page `k` of some bytes of a ring.
proof fn lemma_ring_page(data: Seq<u8>, ptr: int, n: int, k: int, b: int)
    requires
        0 <= ptr < 63,
        0 <= k < n < 63,
        0 <= b < 0x1000,
    ensures
        ring_bytes(data, ptr * GSP_PAGE_SIZE, n * GSP_PAGE_SIZE)[k * 0x1000 + b] == data[(ptr + k)
            % 63 * 0x1000 + b],
{
    lemma_wrap(ptr * GSP_PAGE_SIZE + (k * 0x1000 + b));
    assert((ptr + k) % 63 == (if ptr + k < 63 {
        ptr + k
    } else {
        ptr + k - 63
    }));
}

/// The unread bytes are those of whole pages, from the read pointer on and past the end of
/// the ring: byte `b` of unread page `k` is byte `b` of the page that is `k` pages further on.
pub proof fn law_unread_bytes_are_pages(m: DmaGspMem, k: int, b: int)
    requires
        0 <= b < 0x1000,
    ensures
        m.pending_bytes().len() == m.pending_pages() * 0x1000,
        0 <= k < m.pending_pages() ==> m.pending_bytes()[k * 0x1000 + b] == m.mem.gspq.data@[(
        m.spec_cpu_read_ptr() + k) % 63 * 0x1000 + b],
        m.queued_bytes().len() == m.queued_pages() * 0x1000,
        0 <= k < m.queued_pages() ==> m.queued_bytes()[k * 0x1000 + b] == m.mem.cpuq.data@[(
        m.spec_gsp_read_ptr() + k) % 63 * 0x1000 + b],
{
    law_unread_pages_lead_to_write_pointer(m);
    if 0 <= k < m.pending_pages() {
        lemma_ring_page(
            m.mem.gspq.data@,
            m.spec_cpu_read_ptr() as int,
            m.pending_pages(),
            k,
            b,
        );
    }
    if 0 <= k < m.queued_pages() {
        lemma_ring_page(
            m.mem.cpuq.data@,
            m.spec_gsp_read_ptr() as int,
            m.queued_pages(),
            k,
            b,
        );
    }
}

/// Bytes of a ring are a piece of it, or the piece up to its end and one from its beginning.
pub proof fn law_ring_bytes_are_pieces(data: Seq<u8>, start: int, n: int)
    requires
        data.len() == 0x3f000,
        0 <= start < 0x3f000,
        0 <= n <= 0x3f000,
    ensures
        start + n <= 0x3f000 ==> ring_bytes(data, start, n) == data.subrange(start, start + n),
        start + n > 0x3f000 ==> ring_bytes(data, start, n) == data.skip(start) + data.take(
            start + n - 0x3f000,
        ),
{
    let read = ring_bytes(data, start, n);
    assert forall|i: int| 0 <= i < n implies read[i] == data[if start + i < 0x3f000 {
        start + i
    } else {
        start + i - 0x3f000
    }] by {
        lemma_wrap(start + i);
    }
    if start + n <= 0x3f000 {
        assert(read =~= data.subrange(start, start + n));
    } else {
        assert(read =~= data.skip(start) + data.take(start + n - 0x3f000));
    }
}

/// What is written to a ring takes the place of the bytes from its start on, or up to the
/// end of the ring and from its beginning on, and all other bytes stay.
pub proof fn law_ring_is_written_in_pieces(
    old: Seq<u8>,
    new: Seq<u8>,
    start: int,
    bytes: Seq<u8>,
)
    requires
        old.len() == 0x3f000,
        0 <= start < 0x3f000,
        bytes.len() <= 0x3f000,
        ring_written(old, new, start, bytes),
    ensures
        start + bytes.len() <= 0x3f000 ==> new == old.take(start) + bytes + old.skip(
            start + bytes.len(),
        ),
        start + bytes.len() > 0x3f000 ==> new == bytes.skip(0x3f000 - start) + old.subrange(
            start + bytes.len() - 0x3f000,
            start,
        ) + bytes.take(0x3f000 - start),
{
    let n = bytes.len() as int;
    let read = ring_bytes(new, start, n);
    assert(read == bytes);
    assert forall|j: int| 0 <= j < 0x3f000 implies #[trigger] new[j] == (if start <= j < start + n {
        bytes[j - start]
    } else if j < start + n - 0x3f000 {
        bytes[j - start + 0x3f000]
    } else {
        old[j]
    }) by {
        lemma_wrap(j - start);
        if start <= j < start + n {
            lemma_wrap(start + (j - start));
            assert(read[j - start] == new[j]);
        } else if j < start + n - 0x3f000 {
            lemma_wrap(start + (j - start + 0x3f000));
            assert(read[j - start + 0x3f000] == new[j]);
        }
    }
    if start + n <= 0x3f000 {
        assert(new =~= old.take(start) + bytes + old.skip(start + n));
    } else {
        assert(new =~= bytes.skip(0x3f000 - start) + old.subrange(start + n - 0x3f000, start)
            + bytes.take(0x3f000 - start));
    }
}

/// A run of pages, split: the first part begins where the run does and the second at the
/// beginning of the ring, there is a second part only if the first reaches the end, and
/// both have as many pages as the run.
pub proof fn law_split_run(start: int, n: int)
    requires
        0 <= start < 63,
        0 <= n < 63,
    ensures
        ({
            let (first, second) = split_pages(start, n);
            &&& first.start == start
            &&& second.start == 0
            &&& first.len + second.len == n
            &&& first.start + first.len <= 63
            &&& second.len > 0 ==> first.start + first.len == 63
        }),
{
}

/// What can be read without wrapping are the pages of the first part.
pub proof fn law_first_pending_bytes(m: DmaGspMem)
    ensures
        ({
            let n = m.first_pending_bytes();
            &&& n <= m.pending_pages() * 0x1000
            &&& m.spec_cpu_read_ptr() * 0x1000 + n <= 0x3f000
            &&& n == m.pending_pages() * 0x1000 || m.spec_cpu_read_ptr() * 0x1000 + n == 0x3f000
        }),
{
    law_unread_pages_lead_to_write_pointer(m);
}

/// A command takes its bytes at the write pointer, and from the beginning of the ring if
/// they reach its end.
pub proof fn law_command_segments(m: DmaGspMem, size: int)
    requires
        0 <= size <= m.free_pages() * 0x1000,
    ensures
        ({
            let (first, second) = m.command_segments(size);
            &&& first.start == m.spec_cpu_write_ptr() * 0x1000
            &&& second.start == 0
            &&& first.len + second.len == size
            &&& first.start + first.len <= 0x3f000
            &&& second.len > 0 ==> first.start + first.len == 0x3f000
        }),
{
    law_unread_pages_lead_to_write_pointer(m);
}

/// Fresh memory holds no messages and no bytes but zeros. Its entries are the addresses of
/// its pages, one after the other, and the header of the command queue tells how the queue
/// is laid out: a page with both headers, then the pages of the ring.
pub proof fn law_fresh_memory(m: DmaGspMem, i: int)
    requires
        m.fresh(),
        m.handle + 511 * 0x1000 <= u64::MAX,
        0 <= i < 512,
    ensures
        m.pending_pages() == 0,
        m.queued_pages() == 0,
        m.free_pages() == 62,
        m.mem.ptes@.len() == 512,
        m.mem.ptes@[i] == m.handle + i * 0x1000,
        forall|j: int| 0 <= j < 0x3f000 ==> #[trigger] m.mem.cpuq.data@[j] == 0,
        forall|j: int| 0 <= j < 0x3f000 ==> #[trigger] m.mem.gspq.data@[j] == 0,
        m.mem.cpuq.data@.len() == 0x3f000,
        m.mem.gspq.data@.len() == 0x3f000,
        m.mem.cpuq.tx.version == 0,
        m.mem.cpuq.tx.size == m.mem.cpuq.tx.entry_off + m.mem.cpuq.tx.msg_count
            * m.mem.cpuq.tx.msg_size,
        m.mem.cpuq.tx.msg_count == 63,
        m.mem.cpuq.tx.msg_size == 0x1000,
        m.mem.cpuq.tx.entry_off == 0x1000,
        m.mem.cpuq.tx.rx_hdr_off == 32,
        m.mem.cpuq.tx.flags == 1,
        m.mem.cpuq.tx.write_ptr == 0,
        m.mem.cpuq.rx.read_ptr == 0,
        m.mem.gspq.tx.write_ptr == 0,
        m.mem.gspq.rx.read_ptr == 0,
{
}

/// Any two rings of sixty-three pages make up shared memory, whatever is in them and wherever
/// the pointers are.
pub proof fn law_rings_have_their_size(m: DmaGspMem)
    ensures
        m.wf() <==> m.mem.cpuq.data@.len() == 63 * 0x1000 && m.mem.gspq.data@.len() == 63 * 0x1000,
{
}

} // verus!
