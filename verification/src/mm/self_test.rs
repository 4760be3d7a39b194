//! Self-test of page tables and BAR1 access, run when a GPU is probed.
//!
//! A page of video memory is mapped into the BAR1 address space. What is written to it
//! through the PRAMIN window must be read through BAR1, and the other way round. A page
//! that is mapped in two phases must be found in the page tables.
use vstd::prelude::*;
use crate::error::Error;
use crate::mm::bar_user::MappedRange;
use crate::mm::pagetable::{
    check_valid_page_tables, in_video_memory, law_entry_bits, MmuVersion, Pde, PAGE_SIZE,
};

verus! {

/// What is written through PRAMIN and read through BAR1.
pub const PATTERN_PRAMIN: u32 = 0xdead_beef;

/// What is written through BAR1 and read through PRAMIN.
pub const PATTERN_BAR1: u32 = 0xcafe_babe;

/// Where in the page the first pattern goes.
pub const READ_OFFSET: usize = 0x100;

/// Where in the page the second pattern goes.
pub const WRITE_OFFSET: usize = 0x200;

/// Size of the block of video memory that the test takes, in bytes.
pub const TEST_BLOCK_SIZE: u64 = 0x1000;

/// Size of the address space that the test maps the page in, in bytes.
pub const TEST_VA_SIZE: u64 = 0x1_0000;

/// What to do next in the self-test.
#[derive(Clone, Copy, Debug, PartialEq, Eq)]
pub enum SelfTestAction {
    /// Read the page directory entry at `addr`, through PRAMIN.
    ReadPdbEntry { addr: u64 },
    /// Allocate a block of video memory.
    AllocBlock { size: u64, min_block_size: u64 },
    /// Create an address space.
    CreateVmm { pdb_addr: u64, mmu_version: MmuVersion, va_size: u64 },
    /// Map the page.
    MapPage { pfn: u64, writable: bool },
    /// Write 32 bits to video memory, through PRAMIN.
    WritePramin { addr: u64, value: u32 },
    /// Read 32 bits from BAR1.
    ReadBar1 { offset: usize },
    /// Write 32 bits to BAR1.
    WriteBar1 { offset: usize, value: u32 },
    /// Read 32 bits from video memory, through PRAMIN.
    ReadPramin { addr: u64 },
    /// Unmap a range that was mapped.
    Unmap { range: MappedRange },
    /// Prepare to map some pages.
    PrepareMap { num_pages: usize },
    /// Map the page as prepared.
    ExecuteMap { pfn: u64, writable: bool },
    /// Look up the page that is mapped at `vfn`.
    ReadMapping { vfn: u64 },
    /// The test is over.
    Finish { result: Result<(), Error> },
}

/// What came of the last action.
#[derive(Clone, Copy, Debug, PartialEq, Eq, Structural)]
pub enum SelfTestReply {
    /// It failed.
    Failed { error: Error },
    /// It was done, and there is nothing to tell.
    Done,
    /// The page directory entry.
    PdbEntry { raw: u64 },
    /// The place in video memory of the first block that was allocated, if any.
    Block { offset: Option<u64> },
    /// The range that the page was mapped at.
    Mapped { range: MappedRange },
    /// The 32 bits that were read.
    Value { value: u32 },
    /// The number of the physical page that was found in the page tables, if any.
    Mapping { pfn: Option<u64> },
}

/// How far the self-test has come.
#[derive(Clone, Copy, Debug, PartialEq, Eq)]
pub enum SelfTestStep {
    CheckPageTables,
    AllocBlock,
    CreateVmm,
    MapPage,
    WritePramin,
    ReadBar1,
    WriteBar1,
    ReadPramin,
    UnmapFirst,
    PrepareMap,
    ExecuteMap,
    ReadMapping,
    UnmapSecond,
    Finished { result: Result<(), Error> },
}

/// A run of the self-test.
#[derive(Clone, Copy, Debug, PartialEq, Eq)]
pub struct SelfTest {
    pub step: SelfTestStep,
    /// Address of the page directory.
    pub pdb_addr: u64,
    /// Address of the test page in video memory.
    pub test_vram: u64,
    /// The range that the test page was mapped at for the first two tests.
    pub mapped: MappedRange,
    /// The range that the test page was mapped at for the third test.
    pub mapped2: MappedRange,
    pub test1_passed: bool,
    pub test2_passed: bool,
    pub test3_passed: bool,
}

impl SelfTest {
    /// The number of the test page.
    pub open spec fn test_pfn(self) -> u64 {
        self.test_vram / PAGE_SIZE as u64
    }

    /// The place in BAR1 of the byte at `offset` in the mapped page.
    pub open spec fn bar1_place(self, offset: usize) -> int {
        (self.mapped.vfn_start as usize) * PAGE_SIZE + offset
    }

    /// The places that the test reads and writes can be told.
    pub open spec fn wf(self) -> bool {
        &&& self.test_vram + WRITE_OFFSET <= u64::MAX
        &&& self.bar1_place(WRITE_OFFSET) <= usize::MAX
    }

    /// The reply gives no page of which a place to read or write cannot be told.
    pub open spec fn accepts(self, reply: SelfTestReply) -> bool {
        match (self.step, reply) {
            (SelfTestStep::AllocBlock, SelfTestReply::Block { offset: Some(offset) }) => offset
                + WRITE_OFFSET <= u64::MAX,
            (SelfTestStep::MapPage, SelfTestReply::Mapped { range }) => (range.vfn_start as usize)
                * PAGE_SIZE + WRITE_OFFSET <= usize::MAX,
            _ => true,
        }
    }

    /// A test that is about to begin. Only the second version of the MMU is tested: for
    /// others, the test is over before it begins.
    pub open spec fn spec_start(bar1_pdb: u64, mmu_version: MmuVersion) -> SelfTest {
        SelfTest {
            step: if mmu_version == MmuVersion::V2 {
                SelfTestStep::CheckPageTables
            } else {
                SelfTestStep::Finished { result: Ok(()) }
            },
            pdb_addr: bar1_pdb,
            test_vram: 0,
            mapped: MappedRange { vfn_start: 0, num_pages: 0 },
            mapped2: MappedRange { vfn_start: 0, num_pages: 0 },
            test1_passed: false,
            test2_passed: false,
            test3_passed: false,
        }
    }

    /// Begins a test.
    pub fn start(bar1_pdb: u64, mmu_version: MmuVersion) -> (r: SelfTest)
        ensures
            r == Self::spec_start(bar1_pdb, mmu_version),
            r.wf(),
    {
        SelfTest {
            step: if mmu_version == MmuVersion::V2 {
                SelfTestStep::CheckPageTables
            } else {
                SelfTestStep::Finished { result: Ok(()) }
            },
            pdb_addr: bar1_pdb,
            test_vram: 0,
            mapped: MappedRange { vfn_start: 0, num_pages: 0 },
            mapped2: MappedRange { vfn_start: 0, num_pages: 0 },
            test1_passed: false,
            test2_passed: false,
            test3_passed: false,
        }
    }

    /// What to do next.
    pub open spec fn spec_action(self) -> SelfTestAction {
        match self.step {
            SelfTestStep::CheckPageTables => SelfTestAction::ReadPdbEntry { addr: self.pdb_addr },
            SelfTestStep::AllocBlock => SelfTestAction::AllocBlock {
                size: TEST_BLOCK_SIZE,
                min_block_size: TEST_BLOCK_SIZE,
            },
            SelfTestStep::CreateVmm => SelfTestAction::CreateVmm {
                pdb_addr: self.pdb_addr,
                mmu_version: MmuVersion::V2,
                va_size: TEST_VA_SIZE,
            },
            SelfTestStep::MapPage => SelfTestAction::MapPage {
                pfn: self.test_pfn(),
                writable: true,
            },
            SelfTestStep::WritePramin => SelfTestAction::WritePramin {
                addr: (self.test_vram + READ_OFFSET) as u64,
                value: PATTERN_PRAMIN,
            },
            SelfTestStep::ReadBar1 => SelfTestAction::ReadBar1 {
                offset: self.bar1_place(READ_OFFSET) as usize,
            },
            SelfTestStep::WriteBar1 => SelfTestAction::WriteBar1 {
                offset: self.bar1_place(WRITE_OFFSET) as usize,
                value: PATTERN_BAR1,
            },
            SelfTestStep::ReadPramin => SelfTestAction::ReadPramin {
                addr: (self.test_vram + WRITE_OFFSET) as u64,
            },
            SelfTestStep::UnmapFirst => SelfTestAction::Unmap { range: self.mapped },
            SelfTestStep::PrepareMap => SelfTestAction::PrepareMap { num_pages: 1 },
            SelfTestStep::ExecuteMap => SelfTestAction::ExecuteMap {
                pfn: self.test_pfn(),
                writable: true,
            },
            SelfTestStep::ReadMapping => SelfTestAction::ReadMapping { vfn: self.mapped2.vfn_start },
            SelfTestStep::UnmapSecond => SelfTestAction::Unmap { range: self.mapped2 },
            SelfTestStep::Finished { result } => SelfTestAction::Finish { result },
        }
    }

    /// Decides what to do next.
    pub fn action(&self) -> (r: SelfTestAction)
        requires
            self.wf(),
        ensures
            r == self.spec_action(),
    {
        let test_pfn = self.test_vram / PAGE_SIZE as u64;
        let bar1_base_offset = self.mapped.vfn_start as usize * PAGE_SIZE;
        match self.step {
            SelfTestStep::CheckPageTables => SelfTestAction::ReadPdbEntry { addr: self.pdb_addr },
            SelfTestStep::AllocBlock => SelfTestAction::AllocBlock {
                size: TEST_BLOCK_SIZE,
                min_block_size: TEST_BLOCK_SIZE,
            },
            SelfTestStep::CreateVmm => SelfTestAction::CreateVmm {
                pdb_addr: self.pdb_addr,
                mmu_version: MmuVersion::V2,
                va_size: TEST_VA_SIZE,
            },
            SelfTestStep::MapPage => SelfTestAction::MapPage { pfn: test_pfn, writable: true },
            SelfTestStep::WritePramin => SelfTestAction::WritePramin {
                addr: self.test_vram + READ_OFFSET as u64,
                value: PATTERN_PRAMIN,
            },
            SelfTestStep::ReadBar1 => SelfTestAction::ReadBar1 {
                offset: bar1_base_offset + READ_OFFSET,
            },
            SelfTestStep::WriteBar1 => SelfTestAction::WriteBar1 {
                offset: bar1_base_offset + WRITE_OFFSET,
                value: PATTERN_BAR1,
            },
            SelfTestStep::ReadPramin => SelfTestAction::ReadPramin {
                addr: self.test_vram + WRITE_OFFSET as u64,
            },
            SelfTestStep::UnmapFirst => SelfTestAction::Unmap { range: self.mapped },
            SelfTestStep::PrepareMap => SelfTestAction::PrepareMap { num_pages: 1 },
            SelfTestStep::ExecuteMap => SelfTestAction::ExecuteMap { pfn: test_pfn, writable: true },
            SelfTestStep::ReadMapping => SelfTestAction::ReadMapping { vfn: self.mapped2.vfn_start },
            SelfTestStep::UnmapSecond => SelfTestAction::Unmap { range: self.mapped2 },
            SelfTestStep::Finished { result } => SelfTestAction::Finish { result },
        }
    }

    /// The test at another step.
    pub open spec fn at(self, step: SelfTestStep) -> SelfTest {
        SelfTest { step, ..self }
    }

    /// The test, over with `result`.
    pub open spec fn over(self, result: Result<(), Error>) -> SelfTest {
        self.at(SelfTestStep::Finished { result })
    }

    /// The test after `reply`.
    ///
    /// It is over without a complaint if there are no page tables in video memory, and
    /// with the error if something fails after that. It is over with `EIO` at the end if
    /// something was not found as expected. A reply that does not answer what was to be
    /// done changes nothing.
    pub open spec fn spec_next(self, reply: SelfTestReply) -> SelfTest {
        match (self.step, reply) {
            (SelfTestStep::Finished { .. }, _) => self,
            (SelfTestStep::CheckPageTables, SelfTestReply::Failed { .. }) => self.over(Ok(())),
            (SelfTestStep::CheckPageTables, SelfTestReply::PdbEntry { raw }) => if in_video_memory(
                Pde { raw },
            ) {
                self.at(SelfTestStep::AllocBlock)
            } else {
                self.over(Ok(()))
            },
            (_, SelfTestReply::Failed { error }) => self.over(Err(error)),
            (SelfTestStep::AllocBlock, SelfTestReply::Block { offset }) => match offset {
                Some(offset) => SelfTest { test_vram: offset, ..self.at(SelfTestStep::CreateVmm) },
                None => self.over(Err(Error::ENOMEM)),
            },
            (SelfTestStep::CreateVmm, SelfTestReply::Done) => self.at(SelfTestStep::MapPage),
            (SelfTestStep::MapPage, SelfTestReply::Mapped { range }) => SelfTest {
                mapped: range,
                ..self.at(SelfTestStep::WritePramin)
            },
            (SelfTestStep::WritePramin, SelfTestReply::Done) => self.at(SelfTestStep::ReadBar1),
            (SelfTestStep::ReadBar1, SelfTestReply::Value { value }) => SelfTest {
                test1_passed: value == PATTERN_PRAMIN,
                ..self.at(SelfTestStep::WriteBar1)
            },
            (SelfTestStep::WriteBar1, SelfTestReply::Done) => self.at(SelfTestStep::ReadPramin),
            (SelfTestStep::ReadPramin, SelfTestReply::Value { value }) => SelfTest {
                test2_passed: value == PATTERN_BAR1,
                ..self.at(SelfTestStep::UnmapFirst)
            },
            (SelfTestStep::UnmapFirst, SelfTestReply::Done) => self.at(SelfTestStep::PrepareMap),
            (SelfTestStep::PrepareMap, SelfTestReply::Done) => self.at(SelfTestStep::ExecuteMap),
            (SelfTestStep::ExecuteMap, SelfTestReply::Mapped { range }) => SelfTest {
                mapped2: range,
                ..self.at(SelfTestStep::ReadMapping)
            },
            (SelfTestStep::ReadMapping, SelfTestReply::Mapping { pfn }) => SelfTest {
                test3_passed: pfn == Some(self.test_pfn()),
                ..self.at(SelfTestStep::UnmapSecond)
            },
            (SelfTestStep::UnmapSecond, SelfTestReply::Done) => if self.test1_passed
                && self.test2_passed && self.test3_passed {
                self.over(Ok(()))
            } else {
                self.over(Err(Error::EIO))
            },
            _ => self,
        }
    }

    /// Takes note of what came of the last action.
    pub fn next(&mut self, reply: SelfTestReply)
        requires
            old(self).wf(),
            old(self).accepts(reply),
        ensures
            *final(self) == old(self).spec_next(reply),
            final(self).wf(),
    {
        match (self.step, reply) {
            (SelfTestStep::Finished { .. }, _) => {},
            (SelfTestStep::CheckPageTables, SelfTestReply::Failed { error }) => {
                self.check_page_tables(Err(error));
            },
            (SelfTestStep::CheckPageTables, SelfTestReply::PdbEntry { raw }) => {
                self.check_page_tables(Ok(raw));
            },
            (_, SelfTestReply::Failed { error }) => {
                self.step = SelfTestStep::Finished { result: Err(error) };
            },
            (SelfTestStep::AllocBlock, SelfTestReply::Block { offset }) => match offset {
                Some(offset) => {
                    self.test_vram = offset;
                    self.step = SelfTestStep::CreateVmm;
                },
                None => {
                    self.step = SelfTestStep::Finished { result: Err(Error::ENOMEM) };
                },
            },
            (SelfTestStep::CreateVmm, SelfTestReply::Done) => {
                self.step = SelfTestStep::MapPage;
            },
            (SelfTestStep::MapPage, SelfTestReply::Mapped { range }) => {
                self.mapped = range;
                self.step = SelfTestStep::WritePramin;
            },
            (SelfTestStep::WritePramin, SelfTestReply::Done) => {
                self.step = SelfTestStep::ReadBar1;
            },
            (SelfTestStep::ReadBar1, SelfTestReply::Value { value }) => {
                self.test1_passed = value == PATTERN_PRAMIN;
                self.step = SelfTestStep::WriteBar1;
            },
            (SelfTestStep::WriteBar1, SelfTestReply::Done) => {
                self.step = SelfTestStep::ReadPramin;
            },
            (SelfTestStep::ReadPramin, SelfTestReply::Value { value }) => {
                self.test2_passed = value == PATTERN_BAR1;
                self.step = SelfTestStep::UnmapFirst;
            },
            (SelfTestStep::UnmapFirst, SelfTestReply::Done) => {
                self.step = SelfTestStep::PrepareMap;
            },
            (SelfTestStep::PrepareMap, SelfTestReply::Done) => {
                self.step = SelfTestStep::ExecuteMap;
            },
            (SelfTestStep::ExecuteMap, SelfTestReply::Mapped { range }) => {
                self.mapped2 = range;
                self.step = SelfTestStep::ReadMapping;
            },
            (SelfTestStep::ReadMapping, SelfTestReply::Mapping { pfn }) => {
                self.test3_passed = match pfn {
                    Some(pfn) => pfn == self.test_vram / PAGE_SIZE as u64,
                    None => false,
                };
                self.step = SelfTestStep::UnmapSecond;
            },
            (SelfTestStep::UnmapSecond, SelfTestReply::Done) => {
                let passed = self.test1_passed && self.test2_passed && self.test3_passed;
                self.step = SelfTestStep::Finished {
                    result: if passed {
                        Ok(())
                    } else {
                        Err(Error::EIO)
                    },
                };
            },
            _ => {},
        }
    }

    /// Goes on to the test proper if there are page tables in video memory, and skips it
    /// if not.
    fn check_page_tables(&mut self, entry: Result<u64, Error>)
        ensures
            *final(self) == (match entry {
                Ok(raw) => if in_video_memory(Pde { raw }) {
                    old(self).at(SelfTestStep::AllocBlock)
                } else {
                    old(self).over(Ok(()))
                },
                Err(_) => old(self).over(Ok(())),
            }),
    {
        if check_valid_page_tables(entry).is_err() {
            self.step = SelfTestStep::Finished { result: Ok(()) };
        } else {
            self.step = SelfTestStep::AllocBlock;
        }
    }

    /// The test after `replies`, one after the other.
    pub open spec fn after(self, replies: Seq<SelfTestReply>) -> SelfTest
        decreases replies.len(),
    {
        if replies.len() == 0 {
            self
        } else {
            self.after(replies.drop_last()).spec_next(replies.last())
        }
    }
}

/// What is written on one path is read at the same place in the page on the other, in
/// both tests, and the two tests use places of their own. All of them are in the page.
pub proof fn law_paths_meet_in_page(test: SelfTest)
    requires
        test.wf(),
    ensures
        ({
            let write1 = test.at(SelfTestStep::WritePramin).spec_action();
            let read1 = test.at(SelfTestStep::ReadBar1).spec_action();
            let write2 = test.at(SelfTestStep::WriteBar1).spec_action();
            let read2 = test.at(SelfTestStep::ReadPramin).spec_action();
            &&& write1->WritePramin_addr - test.test_vram == read1->ReadBar1_offset
                - test.bar1_place(0)
            &&& write2->WriteBar1_offset - test.bar1_place(0) == read2->ReadPramin_addr
                - test.test_vram
            &&& write1->WritePramin_addr + 4 <= read2->ReadPramin_addr
            &&& test.test_vram <= write1->WritePramin_addr
            &&& read2->ReadPramin_addr + 4 <= test.test_vram + PAGE_SIZE
        }),
{
}

/// What a test finds in which nothing fails.
#[derive(Clone, Copy, Debug, PartialEq, Eq)]
pub struct SmoothRun {
    /// The page directory entry.
    pub entry: u64,
    /// The place of the test page in video memory.
    pub vram: u64,
    /// The range that the page is mapped at for the first two tests.
    pub mapped: MappedRange,
    /// What is read from BAR1 for the first test.
    pub bar1_value: u32,
    /// What is read through PRAMIN for the second test.
    pub pramin_value: u32,
    /// The range that the page is mapped at for the third test.
    pub mapped2: MappedRange,
    /// The page that is found mapped for the third test.
    pub readback: Option<u64>,
}

impl SmoothRun {
    /// The replies to the test.
    pub open spec fn replies(self) -> Seq<SelfTestReply> {
        seq![
            SelfTestReply::PdbEntry { raw: self.entry },
            SelfTestReply::Block { offset: Some(self.vram) },
            SelfTestReply::Done,
            SelfTestReply::Mapped { range: self.mapped },
            SelfTestReply::Done,
            SelfTestReply::Value { value: self.bar1_value },
            SelfTestReply::Done,
            SelfTestReply::Value { value: self.pramin_value },
            SelfTestReply::Done,
            SelfTestReply::Done,
            SelfTestReply::Mapped { range: self.mapped2 },
            SelfTestReply::Mapping { pfn: self.readback },
            SelfTestReply::Done,
        ]
    }

    /// Both patterns were read, and the test page was found mapped.
    pub open spec fn passes(self) -> bool {
        &&& self.bar1_value == PATTERN_PRAMIN
        &&& self.pramin_value == PATTERN_BAR1
        &&& self.readback == Some(self.vram / PAGE_SIZE as u64)
    }

    /// The result of the test.
    pub open spec fn result(self) -> Result<(), Error> {
        if self.passes() {
            Ok(())
        } else {
            Err(Error::EIO)
        }
    }

    /// The step after `n` replies.
    spec fn step_after(self, n: int) -> SelfTestStep {
        if n == 0 {
            SelfTestStep::CheckPageTables
        } else if n == 1 {
            SelfTestStep::AllocBlock
        } else if n == 2 {
            SelfTestStep::CreateVmm
        } else if n == 3 {
            SelfTestStep::MapPage
        } else if n == 4 {
            SelfTestStep::WritePramin
        } else if n == 5 {
            SelfTestStep::ReadBar1
        } else if n == 6 {
            SelfTestStep::WriteBar1
        } else if n == 7 {
            SelfTestStep::ReadPramin
        } else if n == 8 {
            SelfTestStep::UnmapFirst
        } else if n == 9 {
            SelfTestStep::PrepareMap
        } else if n == 10 {
            SelfTestStep::ExecuteMap
        } else if n == 11 {
            SelfTestStep::ReadMapping
        } else if n == 12 {
            SelfTestStep::UnmapSecond
        } else {
            SelfTestStep::Finished { result: self.result() }
        }
    }

    /// `test` is the test after `n` replies.
    spec fn is_after(self, test: SelfTest, n: int) -> bool {
        &&& test.step == self.step_after(n)
        &&& n >= 2 ==> test.test_vram == self.vram
        &&& n >= 4 ==> test.mapped == self.mapped
        &&& n >= 6 ==> test.test1_passed == (self.bar1_value == PATTERN_PRAMIN)
        &&& n >= 8 ==> test.test2_passed == (self.pramin_value == PATTERN_BAR1)
        &&& n >= 11 ==> test.mapped2 == self.mapped2
        &&& n >= 12 ==> test.test3_passed == (self.readback == Some(self.vram / PAGE_SIZE as u64))
    }
}

/// One reply more takes a test in which nothing fails one step on.
proof fn lemma_smooth_step(run: SmoothRun, test: SelfTest, n: int)
    requires
        in_video_memory(Pde { raw: run.entry }),
        0 <= n < 13,
        run.is_after(test, n),
    ensures
        run.is_after(test.spec_next(run.replies()[n]), n + 1),
{
}

/// Where a test stands in which nothing fails.
proof fn lemma_smooth_run(bar1_pdb: u64, run: SmoothRun, n: int)
    requires
        in_video_memory(Pde { raw: run.entry }),
        0 <= n <= 13,
    ensures
        run.is_after(
            SelfTest::spec_start(bar1_pdb, MmuVersion::V2).after(run.replies().take(n)),
            n,
        ),
    decreases n,
{
    let start = SelfTest::spec_start(bar1_pdb, MmuVersion::V2);
    if n == 0 {
        assert(run.replies().take(0).len() == 0);
    } else {
        lemma_smooth_run(bar1_pdb, run, n - 1);
        lemma_after_prefix(start, run.replies(), n);
        lemma_smooth_step(run, start.after(run.replies().take(n - 1)), n - 1);
    }
}

/// A test in which nothing fails is over after thirteen replies. It succeeds if both
/// patterns and the page were found, and ends with `EIO` if not.
pub proof fn law_smooth_run(bar1_pdb: u64, run: SmoothRun)
    requires
        in_video_memory(Pde { raw: run.entry }),
    ensures
        SelfTest::spec_start(bar1_pdb, MmuVersion::V2).after(run.replies()).step == (
        SelfTestStep::Finished { result: run.result() }),
{
    lemma_smooth_run(bar1_pdb, run, 13);
    assert(run.replies().take(13) =~= run.replies());
}

/// A test in which nothing fails unmaps each range that was mapped for it, once: the first
/// before anything is prepared for the third test, and the second at the end. Asked after
/// `n` replies for what to do next, it says in turn to map, to unmap what was mapped, to
/// prepare, to map as prepared and to unmap that.
pub proof fn law_smooth_run_unmaps_each_range_once(bar1_pdb: u64, run: SmoothRun, n: int)
    requires
        in_video_memory(Pde { raw: run.entry }),
        0 <= n <= 13,
    ensures
        ({
            let action = SelfTest::spec_start(bar1_pdb, MmuVersion::V2).after(
                run.replies().take(n),
            ).spec_action();
            &&& action is MapPage <==> n == 3
            &&& action is Unmap <==> n == 8 || n == 12
            &&& n == 8 ==> action == (SelfTestAction::Unmap { range: run.mapped })
            &&& action is PrepareMap <==> n == 9
            &&& action is ExecuteMap <==> n == 10
            &&& n == 12 ==> action == (SelfTestAction::Unmap { range: run.mapped2 })
            &&& action is Finish <==> n == 13
        }),
{
    lemma_smooth_run(bar1_pdb, run, n);
}

/// The last of `n` replies follows the ones before.
proof fn lemma_after_prefix(start: SelfTest, replies: Seq<SelfTestReply>, n: int)
    requires
        1 <= n <= replies.len(),
    ensures
        start.after(replies.take(n)) == start.after(replies.take(n - 1)).spec_next(replies[n - 1]),
{
    assert(replies.take(n).drop_last() == replies.take(n - 1));
}

/// Once there are page tables to test, the first thing that fails ends the test, with
/// its error.
pub proof fn law_failure_ends_test(
    bar1_pdb: u64,
    mmu_version: MmuVersion,
    replies: Seq<SelfTestReply>,
    error: Error,
)
    requires
        ({
            let action = SelfTest::spec_start(bar1_pdb, mmu_version).after(replies).spec_action();
            !(action is ReadPdbEntry) && !(action is Finish)
        }),
    ensures
        SelfTest::spec_start(bar1_pdb, mmu_version).after(
            replies.push(SelfTestReply::Failed { error }),
        ).spec_action() == (SelfTestAction::Finish { result: Err(error) }),
{
    let failed = SelfTestReply::Failed { error };
    assert(replies.push(failed).drop_last() == replies);
}

/// A test is over for good.
pub proof fn law_finished_stays_finished(test: SelfTest, replies: Seq<SelfTestReply>)
    requires
        test.step is Finished,
    ensures
        test.after(replies) == test,
    decreases replies.len(),
{
    if replies.len() > 0 {
        law_finished_stays_finished(test, replies.drop_last());
    }
}

/// Nothing but a page directory entry was asked for in the course of the test.
pub open spec fn skipped(start: SelfTest, replies: Seq<SelfTestReply>) -> bool {
    forall|n: int| 0 <= n <= replies.len() ==> {
        let action = #[trigger] start.after(replies.take(n)).spec_action();
        action is ReadPdbEntry || action is Finish
    }
}

/// Both patterns were read, and the test page was found mapped.
pub open spec fn found_all(test: SelfTest, replies: Seq<SelfTestReply>) -> bool {
    &&& replies.contains(SelfTestReply::Value { value: PATTERN_PRAMIN })
    &&& replies.contains(SelfTestReply::Value { value: PATTERN_BAR1 })
    &&& replies.contains(SelfTestReply::Mapping { pfn: Some(test.test_pfn()) })
}

/// What the test unmaps is what was mapped for it.
pub proof fn law_unmaps_what_was_mapped(
    bar1_pdb: u64,
    mmu_version: MmuVersion,
    replies: Seq<SelfTestReply>,
    range: MappedRange,
)
    requires
        SelfTest::spec_start(bar1_pdb, mmu_version).after(replies).spec_action()
            == (SelfTestAction::Unmap { range }),
    ensures
        replies.contains(SelfTestReply::Mapped { range }),
{
    lemma_ranges_reflect_replies(bar1_pdb, mmu_version, replies);
}

/// The test is past the step that maps the page for the first two tests.
spec fn past_first_map(step: SelfTestStep) -> bool {
    ||| step is WritePramin
    ||| step is ReadBar1
    ||| step is WriteBar1
    ||| step is ReadPramin
    ||| step is UnmapFirst
}

/// The ranges that a test has noted are those of the replies.
proof fn lemma_ranges_reflect_replies(
    bar1_pdb: u64,
    mmu_version: MmuVersion,
    replies: Seq<SelfTestReply>,
)
    ensures
        ({
            let test = SelfTest::spec_start(bar1_pdb, mmu_version).after(replies);
            &&& past_first_map(test.step) ==> replies.contains(
                SelfTestReply::Mapped { range: test.mapped },
            )
            &&& test.step is ReadMapping || test.step is UnmapSecond ==> replies.contains(
                SelfTestReply::Mapped { range: test.mapped2 },
            )
        }),
    decreases replies.len(),
{
    if replies.len() > 0 {
        let before = replies.drop_last();
        lemma_ranges_reflect_replies(bar1_pdb, mmu_version, before);
        assert forall|r: SelfTestReply| before.contains(r) implies #[trigger] replies.contains(
            r,
        ) by {
            let i = choose|i: int| 0 <= i < before.len() && before[i] == r;
            assert(replies[i] == r);
        }
        assert(replies[replies.len() - 1] == replies.last());
        assert(replies.contains(replies.last()));
    }
}

/// A test that ends well was either skipped or has found all that it looked for.
pub proof fn law_success_is_earned(
    bar1_pdb: u64,
    mmu_version: MmuVersion,
    replies: Seq<SelfTestReply>,
)
    ensures
        ({
            let start = SelfTest::spec_start(bar1_pdb, mmu_version);
            let test = start.after(replies);
            test.step matches SelfTestStep::Finished { result: Ok(_) } ==> skipped(start, replies)
                || found_all(test, replies)
        }),
{
    lemma_flags_reflect_replies(bar1_pdb, mmu_version, replies);
}

/// What a test has noted so far is what the replies said.
proof fn lemma_flags_reflect_replies(
    bar1_pdb: u64,
    mmu_version: MmuVersion,
    replies: Seq<SelfTestReply>,
)
    ensures
        ({
            let start = SelfTest::spec_start(bar1_pdb, mmu_version);
            let test = start.after(replies);
            &&& test.step is CheckPageTables ==> skipped(start, replies)
            &&& test.step is CheckPageTables || test.step is AllocBlock ==> !test.test3_passed
            &&& test.test1_passed ==> replies.contains(
                SelfTestReply::Value { value: PATTERN_PRAMIN },
            )
            &&& test.test2_passed ==> replies.contains(
                SelfTestReply::Value { value: PATTERN_BAR1 },
            )
            &&& test.test3_passed ==> replies.contains(
                SelfTestReply::Mapping { pfn: Some(test.test_pfn()) },
            )
            &&& test.step matches SelfTestStep::Finished { result: Ok(_) } ==> skipped(
                start,
                replies,
            ) || (test.test1_passed && test.test2_passed && test.test3_passed)
        }),
    decreases replies.len(),
{
    let start = SelfTest::spec_start(bar1_pdb, mmu_version);
    let test = start.after(replies);
    assert(replies.take(replies.len() as int) == replies);
    if replies.len() > 0 {
        let before = replies.drop_last();
        lemma_flags_reflect_replies(bar1_pdb, mmu_version, before);
        assert(replies == before.push(replies.last()));
        assert forall|r: SelfTestReply| before.contains(r) implies #[trigger] replies.contains(
            r,
        ) by {
            let i = choose|i: int| 0 <= i < before.len() && before[i] == r;
            assert(replies[i] == r);
        }
        assert(replies[replies.len() - 1] == replies.last());
        assert(replies.contains(replies.last()));
        if skipped(start, before) && (test.step is CheckPageTables || test.step is Finished) {
            assert forall|n: int| 0 <= n <= replies.len() implies {
                let action = #[trigger] start.after(replies.take(n)).spec_action();
                action is ReadPdbEntry || action is Finish
            } by {
                if n < replies.len() {
                    assert(replies.take(n) == before.take(n));
                }
            }
        }
    } else {
        assert forall|n: int| 0 <= n <= replies.len() implies {
            let action = #[trigger] start.after(replies.take(n)).spec_action();
            action is ReadPdbEntry || action is Finish
        } by {
            assert(replies.take(n) == replies);
        }
    }
}

/// The test page is the one that its address lies in.
pub proof fn law_test_page(test: SelfTest)
    ensures
        test.test_pfn() * 0x1000 <= test.test_vram < test.test_pfn() * 0x1000 + 0x1000,
{
    let vram = test.test_vram as int;
    assert(test.test_pfn() == vram / 0x1000);
}

/// What a test in which nothing fails does, after each number of replies: what it asks for is
/// told by the address of the page directory and by what it was given before.
pub proof fn law_smooth_run_actions(bar1_pdb: u64, run: SmoothRun, n: int)
    requires
        in_video_memory(Pde { raw: run.entry }),
        run.vram + 0x200 <= u64::MAX,
        (run.mapped.vfn_start as usize) * 0x1000 + 0x200 <= usize::MAX,
        0 <= n <= 13,
    ensures
        ({
            let test = SelfTest::spec_start(bar1_pdb, MmuVersion::V2).after(
                run.replies().take(n),
            );
            let action = test.spec_action();
            let pfn = run.vram / 0x1000;
            let place = (run.mapped.vfn_start as usize) * 0x1000;
            &&& n == 0 ==> action == (SelfTestAction::ReadPdbEntry { addr: bar1_pdb })
            &&& n == 1 ==> action == (SelfTestAction::AllocBlock {
                size: 0x1000,
                min_block_size: 0x1000,
            })
            &&& n == 2 ==> action == (SelfTestAction::CreateVmm {
                pdb_addr: bar1_pdb,
                mmu_version: MmuVersion::V2,
                va_size: 0x1_0000,
            })
            &&& n == 3 ==> action == (SelfTestAction::MapPage { pfn, writable: true })
            &&& n == 4 ==> action == (SelfTestAction::WritePramin {
                addr: (run.vram + 0x100) as u64,
                value: 0xdead_beef,
            })
            &&& n == 5 ==> action == (SelfTestAction::ReadBar1 {
                offset: (place + 0x100) as usize,
            })
            &&& n == 6 ==> action == (SelfTestAction::WriteBar1 {
                offset: (place + 0x200) as usize,
                value: 0xcafe_babe,
            })
            &&& n == 7 ==> action == (SelfTestAction::ReadPramin {
                addr: (run.vram + 0x200) as u64,
            })
            &&& n == 8 ==> action == (SelfTestAction::Unmap { range: run.mapped })
            &&& n == 9 ==> action == (SelfTestAction::PrepareMap { num_pages: 1 })
            &&& n == 10 ==> action == (SelfTestAction::ExecuteMap { pfn, writable: true })
            &&& n == 11 ==> action == (SelfTestAction::ReadMapping {
                vfn: run.mapped2.vfn_start,
            })
            &&& n == 12 ==> action == (SelfTestAction::Unmap { range: run.mapped2 })
            &&& n == 13 ==> action == (SelfTestAction::Finish {
                result: if run.bar1_value == 0xdead_beef && run.pramin_value == 0xcafe_babe
                    && run.readback == Some(pfn) {
                    Ok(())
                } else {
                    Err(Error::EIO)
                },
            })
        }),
{
    lemma_smooth_run(bar1_pdb, run, n);
    lemma_pdb_addr_stays(bar1_pdb, run.replies().take(n));
}

/// A test keeps the address of its page directory.
proof fn lemma_pdb_addr_stays(bar1_pdb: u64, replies: Seq<SelfTestReply>)
    ensures
        SelfTest::spec_start(bar1_pdb, MmuVersion::V2).after(replies).pdb_addr == bar1_pdb,
    decreases replies.len(),
{
    if replies.len() > 0 {
        lemma_pdb_addr_stays(bar1_pdb, replies.drop_last());
    }
}

/// A test is skipped, without a complaint, on any other version of the MMU, if the page
/// directory entry cannot be read, and if it does not point to video memory; it goes on if
/// it does.
pub proof fn law_skipped_tests(bar1_pdb: u64, raw: u64, error: Error)
    ensures
        ({
            let start = SelfTest::spec_start(bar1_pdb, MmuVersion::V2);
            let failed = start.spec_next(SelfTestReply::Failed { error });
            let read = start.spec_next(SelfTestReply::PdbEntry { raw });
            let other = SelfTest::spec_start(bar1_pdb, MmuVersion::V3);
            &&& other.spec_action() matches SelfTestAction::Finish { result: Ok(_) }
            &&& failed.spec_action() matches SelfTestAction::Finish { result: Ok(_) }
            &&& raw & 7 != 2 ==> (read.spec_action() matches SelfTestAction::Finish {
                result: Ok(_),
            })
            &&& raw & 7 == 2 ==> read.spec_action() is AllocBlock
        }),
{
    law_entry_bits(Pde { raw });
}

/// A test that gets no block of video memory is over with `ENOMEM`.
pub proof fn law_test_needs_a_block(test: SelfTest)
    requires
        test.spec_action() is AllocBlock,
    ensures
        test.spec_next(SelfTestReply::Block { offset: None }).spec_action() == (
        SelfTestAction::Finish { result: Err(Error::ENOMEM) }),
{
}

/// The reply answers the action: it tells what was asked for.
pub open spec fn answers(reply: SelfTestReply, action: SelfTestAction) -> bool {
    match action {
        SelfTestAction::ReadPdbEntry { .. } => reply is PdbEntry,
        SelfTestAction::AllocBlock { .. } => reply is Block,
        SelfTestAction::MapPage { .. } | SelfTestAction::ExecuteMap { .. } => reply is Mapped,
        SelfTestAction::ReadBar1 { .. } | SelfTestAction::ReadPramin { .. } => reply is Value,
        SelfTestAction::ReadMapping { .. } => reply is Mapping,
        SelfTestAction::Finish { .. } => false,
        _ => reply is Done,
    }
}

/// What does not answer what was asked for, and is no failure, changes nothing.
pub proof fn law_stray_replies(test: SelfTest, reply: SelfTestReply)
    requires
        !(reply is Failed),
        !answers(reply, test.spec_action()),
    ensures
        test.spec_next(reply) == test,
{
}

/// All places that a test reads and writes can be told from the start on, and a reply is
/// taken unless it gives a page of which they cannot.
pub proof fn law_replies_that_are_taken(
    bar1_pdb: u64,
    mmu_version: MmuVersion,
    test: SelfTest,
    reply: SelfTestReply,
)
    ensures
        SelfTest::spec_start(bar1_pdb, mmu_version).wf(),
        test.wf() <==> test.test_vram + 0x200 <= u64::MAX && (test.mapped.vfn_start as usize)
            * 0x1000 + 0x200 <= usize::MAX,
        !(reply is Block) && !(reply is Mapped) ==> test.accepts(reply),
        reply matches SelfTestReply::Block { offset: Some(offset) } ==> (offset + 0x200 <= u64::MAX
            || !(test.spec_action() is AllocBlock) ==> test.accepts(reply)),
        reply matches SelfTestReply::Block { offset: None } ==> test.accepts(reply),
        reply matches SelfTestReply::Mapped { range } ==> ((range.vfn_start as usize) * 0x1000
            + 0x200 <= usize::MAX || !(test.spec_action() is MapPage) ==> test.accepts(reply)),
{
}

} // verus!
