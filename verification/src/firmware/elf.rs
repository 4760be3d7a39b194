//! Sections of ELF files.
use vstd::prelude::*;
use vstd::utf8::encode_utf8;
use crate::bytes::{read_u16, read_u32, read_u64, u16_at, u32_at, u64_at};

verus! {

/// Offsets and sizes of the fields that lead to a section, which differ between
/// 32-bit and 64-bit files.
#[derive(Clone, Copy, Debug, PartialEq, Eq, Structural)]
pub struct ElfLayout {
    /// Addresses and offsets have 64 bits.
    pub wide: bool,
    /// Size of the file header.
    pub header_size: usize,
    /// Offset of the section header table, in the file header.
    pub shoff: usize,
    /// Number of section headers, in the file header.
    pub shnum: usize,
    /// Index of the section that holds the names, in the file header.
    pub shstrndx: usize,
    /// Size of a section header.
    pub section_size: usize,
    /// Offset of the section, in its header.
    pub sh_offset: usize,
    /// Size of the section, in its header.
    pub sh_size: usize,
}

impl ElfLayout {
    /// The layout of a file, told by its first bytes.
    pub open spec fn spec_of(elf: Seq<u8>) -> Option<ElfLayout> {
        if elf.len() < 5 || elf[0] != 0x7f || elf[1] != 0x45 || elf[2] != 0x4c || elf[3] != 0x46 {
            None
        } else if elf[4] == 1 {
            Some(
                ElfLayout {
                    wide: false,
                    header_size: 52,
                    shoff: 0x20,
                    shnum: 0x30,
                    shstrndx: 0x32,
                    section_size: 40,
                    sh_offset: 0x10,
                    sh_size: 0x14,
                },
            )
        } else if elf[4] == 2 {
            Some(
                ElfLayout {
                    wide: true,
                    header_size: 64,
                    shoff: 0x28,
                    shnum: 0x3c,
                    shstrndx: 0x3e,
                    section_size: 64,
                    sh_offset: 0x18,
                    sh_size: 0x20,
                },
            )
        } else {
            None
        }
    }

    /// Finds out the layout of a file.
    pub fn of(elf: &[u8]) -> (r: Option<ElfLayout>)
        ensures
            r == Self::spec_of(elf@),
    {
        if elf.len() < 5 || elf[0] != 0x7f || elf[1] != 0x45 || elf[2] != 0x4c || elf[3] != 0x46 {
            None
        } else if elf[4] == 1 {
            Some(
                ElfLayout {
                    wide: false,
                    header_size: 52,
                    shoff: 0x20,
                    shnum: 0x30,
                    shstrndx: 0x32,
                    section_size: 40,
                    sh_offset: 0x10,
                    sh_size: 0x14,
                },
            )
        } else if elf[4] == 2 {
            Some(
                ElfLayout {
                    wide: true,
                    header_size: 64,
                    shoff: 0x28,
                    shnum: 0x3c,
                    shstrndx: 0x3e,
                    section_size: 64,
                    sh_offset: 0x18,
                    sh_size: 0x20,
                },
            )
        } else {
            None
        }
    }

    /// The address or offset at `off`.
    pub open spec fn spec_word(self, elf: Seq<u8>, off: int) -> int {
        if self.wide {
            u64_at(elf, off) as int
        } else {
            u32_at(elf, off) as int
        }
    }

    /// Reads the address or offset at `off`.
    fn word(&self, elf: &[u8], off: usize) -> (r: u64)
        requires
            off + (if self.wide {
                8int
            } else {
                4
            }) <= elf.len(),
        ensures
            r == self.spec_word(elf@, off as int),
    {
        if self.wide {
            read_u64(elf, off)
        } else {
            read_u32(elf, off) as u64
        }
    }

    /// Number of section headers.
    pub open spec fn sections(self, elf: Seq<u8>) -> int {
        u16_at(elf, self.shnum as int) as int
    }

    /// Position of the section header `i`.
    pub open spec fn section_at(self, elf: Seq<u8>, i: int) -> int {
        self.spec_word(elf, self.shoff as int) + i * self.section_size
    }

    /// Index of the section that holds the names.
    pub open spec fn names(self, elf: Seq<u8>) -> int {
        u16_at(elf, self.shstrndx as int) as int
    }

    /// The file header and all section headers lie within the file, and there is a
    /// section with names.
    pub open spec fn well_formed(self, elf: Seq<u8>) -> bool {
        &&& elf.len() >= self.header_size
        &&& self.section_at(elf, self.sections(elf)) <= elf.len()
        &&& self.names(elf) < self.sections(elf)
    }

    /// Position of the name of section `i`.
    pub open spec fn name_at(self, elf: Seq<u8>, i: int) -> int {
        self.spec_word(elf, self.section_at(elf, self.names(elf)) + self.sh_offset) + u32_at(
            elf,
            self.section_at(elf, i),
        )
    }

    /// The first section from `i` on with the given name.
    pub open spec fn first_named(self, elf: Seq<u8>, name: Seq<u8>, i: int) -> Option<int>
        decreases self.sections(elf) - i,
    {
        if i >= self.sections(elf) {
            None
        } else if is_c_string(elf, self.name_at(elf, i), name) {
            Some(i)
        } else {
            self.first_named(elf, name, i + 1)
        }
    }

    /// The contents of section `i`, if they lie within the file.
    pub open spec fn contents(self, elf: Seq<u8>, i: int) -> Option<Seq<u8>> {
        let at = self.section_at(elf, i);
        let start = self.spec_word(elf, at + self.sh_offset);
        let size = self.spec_word(elf, at + self.sh_size);
        if start + size <= elf.len() {
            Some(elf.subrange(start, start + size))
        } else {
            None
        }
    }
}

/// At `at` stands `name` and a zero byte.
pub open spec fn is_c_string(s: Seq<u8>, at: int, name: Seq<u8>) -> bool {
    &&& at + name.len() < s.len()
    &&& s.subrange(at, at + name.len()) == name
    &&& !name.contains(0)
    &&& s[at + name.len()] == 0
}

/// The contents of the first section named `name`.
pub open spec fn spec_elf_section(elf: Seq<u8>, name: Seq<u8>) -> Option<Seq<u8>> {
    match ElfLayout::spec_of(elf) {
        Some(layout) => if layout.well_formed(elf) {
            match layout.first_named(elf, name, 0) {
                Some(i) => layout.contents(elf, i),
                None => None,
            }
        } else {
            None
        },
        None => None,
    }
}

/// Returns true if `name` and a zero byte stand at `pos`.
fn matches_name(s: &[u8], pos: u64, name: &[u8]) -> (r: bool)
    ensures
        r == is_c_string(s@, pos as int, name@),
{
    if pos >= s.len() as u64 || name.len() >= s.len() - pos as usize {
        return false;
    }
    let at = pos as usize;
    let mut i: usize = 0;
    while i < name.len()
        invariant
            i <= name.len(),
            at == pos,
            at + name.len() < s.len(),
            forall|j: int| 0 <= j < i ==> #[trigger] name@[j] == s@[at + j] && name@[j] != 0,
        decreases name.len() - i,
    {
        if name[i] == 0 || s[at + i] != name[i] {
            proof {
                let t = s@.subrange(at as int, at + name@.len());
                assert(t[i as int] == s@[at + i]);
                assert(name@[i as int] == 0 ==> name@.contains(0));
            }
            return false;
        }
        i += 1;
    }
    assert(s@.subrange(at as int, at + name@.len()) =~= name@);
    assert(!name@.contains(0));
    s[at + name.len()] == 0
}

/// An entry of a table lies within it.
proof fn lemma_entry_fits(i: int, count: int, size: int)
    requires
        0 <= i,
        0 <= size,
    ensures
        0 <= i * size,
        i < count ==> i * size + size <= count * size,
{
    assert(0 <= i * size) by (nonlinear_arith)
        requires
            0 <= i,
            0 <= size,
    ;
    if i < count {
        assert(i * size + size <= count * size) by (nonlinear_arith)
            requires
                i < count,
                0 <= size,
        ;
    }
}

/// Finds the section named `name` and returns its contents.
pub fn elf_section<'a>(elf: &'a [u8], name: &str) -> (r: Option<&'a [u8]>)
    ensures
        match r {
            Some(s) => spec_elf_section(elf@, encode_utf8(name@)) == Some(s@),
            None => spec_elf_section(elf@, encode_utf8(name@)) is None,
        },
{
    let key = name.as_bytes();
    let layout = match ElfLayout::of(elf) {
        Some(layout) => layout,
        None => {
            return None;
        },
    };
    if elf.len() < layout.header_size {
        return None;
    }
    let total = elf.len() as u64;
    let table = layout.word(elf, layout.shoff);
    let count = read_u16(elf, layout.shnum) as usize;
    let names = read_u16(elf, layout.shstrndx) as usize;
    proof {
        lemma_entry_fits(names as int, count as int, layout.section_size as int);
        assert(count * layout.section_size <= 0x1_0000 * 64) by (nonlinear_arith)
            requires
                0 <= count <= 0x1_0000,
                0 <= layout.section_size <= 64,
        ;
    }
    let table_size = (count * layout.section_size) as u64;
    if table > total || table_size > total - table || names >= count {
        return None;
    }
    let table = table as usize;
    let names_base = layout.word(elf, table + names * layout.section_size + layout.sh_offset);

    let mut i: usize = 0;
    while i < count
        invariant
            i <= count,
            elf.len() >= layout.header_size,
            ElfLayout::spec_of(elf@) == Some(layout),
            layout.well_formed(elf@),
            count == layout.sections(elf@),
            table == layout.section_at(elf@, 0),
            table + count * layout.section_size <= elf.len(),
            names_base == layout.spec_word(
                elf@,
                layout.section_at(elf@, layout.names(elf@)) + layout.sh_offset,
            ),
            total == elf.len(),
            key@ == encode_utf8(name@),
            layout.first_named(elf@, key@, 0) == layout.first_named(elf@, key@, i as int),
        decreases count - i,
    {
        proof {
            lemma_entry_fits(i as int, count as int, layout.section_size as int);
        }
        let at = table + i * layout.section_size;
        let offset = read_u32(elf, at) as u64;
        if names_base <= u64::MAX - offset && matches_name(elf, names_base + offset, key) {
            let start = layout.word(elf, at + layout.sh_offset);
            let size = layout.word(elf, at + layout.sh_size);
            if start > total || size > total - start {
                return None;
            }
            return Some(
                vstd::slice::slice_subrange(elf, start as usize, (start + size) as usize),
            );
        }
        i += 1;
    }
    None
}

/// The file is an ELF file, of 64 bits or of 32, that holds all of its section headers, one
/// of which is that of the names.
pub open spec fn is_elf(elf: Seq<u8>, wide: bool) -> bool {
    &&& elf.len() >= if wide {
        64int
    } else {
        52
    }
    &&& elf[0] == 0x7f && elf[1] == 'E' as u8 && elf[2] == 'L' as u8 && elf[3] == 'F' as u8
    &&& elf[4] == if wide {
        2u8
    } else {
        1
    }
    &&& header_of(elf, wide, section_count(elf, wide)) <= elf.len()
    &&& names_index(elf, wide) < section_count(elf, wide)
}

/// How many section headers the file says it has.
pub open spec fn section_count(elf: Seq<u8>, wide: bool) -> int {
    if wide {
        u16_at(elf, 0x3c) as int
    } else {
        u16_at(elf, 0x30) as int
    }
}

/// Which section the file says holds the names.
pub open spec fn names_index(elf: Seq<u8>, wide: bool) -> int {
    if wide {
        u16_at(elf, 0x3e) as int
    } else {
        u16_at(elf, 0x32) as int
    }
}

/// Where the file has the header of section `i`.
pub open spec fn header_of(elf: Seq<u8>, wide: bool, i: int) -> int {
    if wide {
        u64_at(elf, 0x28) + 64 * i
    } else {
        u32_at(elf, 0x20) + 40 * i
    }
}

/// Where the header of section `i` says that the section is.
pub open spec fn offset_of_section(elf: Seq<u8>, wide: bool, i: int) -> int {
    let at = header_of(elf, wide, i);
    if wide {
        u64_at(elf, at + 0x18) as int
    } else {
        u32_at(elf, at + 0x10) as int
    }
}

/// How many bytes the header of section `i` says that the section has.
pub open spec fn size_of_section(elf: Seq<u8>, wide: bool, i: int) -> int {
    let at = header_of(elf, wide, i);
    if wide {
        u64_at(elf, at + 0x20) as int
    } else {
        u32_at(elf, at + 0x14) as int
    }
}

/// Section `i` is named `name`: in the section of names, as far on as the first word of its
/// header says, is the name and a zero byte.
pub open spec fn is_named(elf: Seq<u8>, wide: bool, i: int, name: Seq<u8>) -> bool {
    let at = offset_of_section(elf, wide, names_index(elf, wide)) + u32_at(
        elf,
        header_of(elf, wide, i),
    );
    &&& at + name.len() + 1 <= elf.len()
    &&& elf.subrange(at, at + name.len() + 1) == name.push(0)
    &&& forall|j: int| 0 <= j < name.len() ==> #[trigger] name[j] != 0
}

/// Section `i` is the first that is named `name`.
pub open spec fn is_first_named(elf: Seq<u8>, wide: bool, i: int, name: Seq<u8>) -> bool {
    &&& 0 <= i < section_count(elf, wide)
    &&& is_named(elf, wide, i, name)
    &&& forall|j: int| 0 <= j < i ==> !#[trigger] is_named(elf, wide, j, name)
}

/// What the layout says of a section header is where it is.
proof fn lemma_header_place(elf: Seq<u8>, layout: ElfLayout, i: int)
    requires
        ElfLayout::spec_of(elf) == Some(layout),
    ensures
        layout.section_at(elf, i) == header_of(elf, layout.wide, i),
{
    let size = layout.section_size as int;
    assert(i * size == size * i) by (nonlinear_arith);
}

/// What the layout says of a file is where the fields of the file are.
proof fn lemma_layout(elf: Seq<u8>, wide: bool, i: int, name: Seq<u8>)
    requires
        is_elf(elf, wide),
    ensures
        ElfLayout::spec_of(elf) matches Some(layout) && {
            &&& layout.well_formed(elf)
            &&& layout.sections(elf) == section_count(elf, wide)
            &&& is_c_string(elf, layout.name_at(elf, i), name) <==> is_named(elf, wide, i, name)
            &&& layout.contents(elf, i) == {
                let start = offset_of_section(elf, wide, i);
                let end = start + size_of_section(elf, wide, i);
                if end <= elf.len() {
                    Some(elf.subrange(start, end))
                } else {
                    None
                }
            }
        },
{
    let layout = ElfLayout::spec_of(elf)->Some_0;
    let at = layout.name_at(elf, i);
    lemma_header_place(elf, layout, i);
    lemma_header_place(elf, layout, names_index(elf, wide));
    lemma_header_place(elf, layout, section_count(elf, wide));
    if is_c_string(elf, at, name) {
        assert(elf.subrange(at, at + name.len() + 1) =~= elf.subrange(at, at + name.len()).push(0));
        assert forall|j: int| 0 <= j < name.len() implies #[trigger] name[j] != 0 by {
            assert(name.contains(name[j]));
        }
    }
    if is_named(elf, wide, i, name) {
        let all = elf.subrange(at, at + name.len() + 1);
        assert(elf.subrange(at, at + name.len()) =~= all.drop_last());
        assert(all.drop_last() =~= name);
        assert(all.last() == elf[at + name.len()]);
    }
}

/// The search for a name, from section `from` on.
proof fn lemma_search(elf: Seq<u8>, wide: bool, name: Seq<u8>, from: int)
    requires
        is_elf(elf, wide),
        0 <= from <= section_count(elf, wide),
    ensures
        match ElfLayout::spec_of(elf)->Some_0.first_named(elf, name, from) {
            Some(i) => {
                &&& from <= i < section_count(elf, wide)
                &&& is_named(elf, wide, i, name)
                &&& forall|j: int| from <= j < i ==> !#[trigger] is_named(elf, wide, j, name)
            },
            None => forall|j: int|
                from <= j < section_count(elf, wide) ==> !#[trigger] is_named(elf, wide, j, name),
        },
    decreases section_count(elf, wide) - from,
{
    lemma_layout(elf, wide, from, name);
    if from < section_count(elf, wide) && !is_named(elf, wide, from, name) {
        lemma_search(elf, wide, name, from + 1);
    }
}

/// The first section of some name is found with all of its bytes: as many as the size in its
/// header says, from the offset there on. If the file does not hold them all, nothing is.
pub proof fn law_section_is_found(elf: Seq<u8>, wide: bool, i: int, name: Seq<u8>)
    requires
        is_elf(elf, wide),
        is_first_named(elf, wide, i, name),
    ensures
        ({
            let start = offset_of_section(elf, wide, i);
            let end = start + size_of_section(elf, wide, i);
            &&& end <= elf.len() ==> spec_elf_section(elf, name) == Some(elf.subrange(start, end))
            &&& end > elf.len() ==> spec_elf_section(elf, name) is None
        }),
{
    lemma_layout(elf, wide, i, name);
    lemma_search(elf, wide, name, 0);
    let layout = ElfLayout::spec_of(elf)->Some_0;
    let found = layout.first_named(elf, name, 0);
    assert(found is Some) by {
        assert(is_named(elf, wide, i, name));
    }
    let k = found->Some_0;
    assert(is_named(elf, wide, k, name));
    if k < i {
        assert(!is_named(elf, wide, k, name));
    }
    if i < k {
        assert(!is_named(elf, wide, i, name));
    }
}

/// A name that no section has is not found.
pub proof fn law_other_sections_are_not_found(elf: Seq<u8>, wide: bool, name: Seq<u8>)
    requires
        is_elf(elf, wide),
        forall|j: int|
            0 <= j < section_count(elf, wide) ==> !#[trigger] is_named(elf, wide, j, name),
    ensures
        spec_elf_section(elf, name) is None,
{
    lemma_layout(elf, wide, 0, name);
    lemma_search(elf, wide, name, 0);
}

/// Nothing is found in what is no ELF file.
pub proof fn law_only_elf_files_have_sections(elf: Seq<u8>, name: Seq<u8>)
    requires
        !is_elf(elf, false),
        !is_elf(elf, true),
    ensures
        spec_elf_section(elf, name) is None,
{
    match ElfLayout::spec_of(elf) {
        Some(layout) => {
            lemma_header_place(elf, layout, section_count(elf, layout.wide));
        },
        None => {},
    }
}

/// The file holds these sections, each with a name and its bytes, and no others.
pub open spec fn is_file_of(elf: Seq<u8>, wide: bool, sections: Seq<(Seq<u8>, Seq<u8>)>) -> bool {
    &&& is_elf(elf, wide)
    &&& section_count(elf, wide) == sections.len()
    &&& forall|i: int|
        0 <= i < sections.len() ==> is_named(elf, wide, i, (#[trigger] sections[i]).0) && {
            let start = offset_of_section(elf, wide, i);
            &&& size_of_section(elf, wide, i) == sections[i].1.len()
            &&& start + sections[i].1.len() <= elf.len()
            &&& elf.subrange(start, start + sections[i].1.len()) == sections[i].1
        }
}

/// A section has one name.
proof fn lemma_one_name(elf: Seq<u8>, wide: bool, i: int, a: Seq<u8>, b: Seq<u8>)
    requires
        is_elf(elf, wide),
        is_named(elf, wide, i, a),
        is_named(elf, wide, i, b),
    ensures
        a == b,
{
    let at = offset_of_section(elf, wide, names_index(elf, wide)) + u32_at(
        elf,
        header_of(elf, wide, i),
    );
    let sa = elf.subrange(at, at + a.len() + 1);
    let sb = elf.subrange(at, at + b.len() + 1);
    if a.len() < b.len() {
        assert(sa[a.len() as int] == 0 && sb[a.len() as int] == b[a.len() as int]);
        assert(sa[a.len() as int] == sb[a.len() as int]);
    } else if b.len() < a.len() {
        assert(sb[b.len() as int] == 0 && sa[b.len() as int] == a[b.len() as int]);
        assert(sa[b.len() as int] == sb[b.len() as int]);
    } else {
        assert(sa =~= sb);
        assert(a =~= sa.drop_last());
        assert(b =~= sb.drop_last());
    }
}

/// Each section that is put into a file, with a name that none before it has, is found there
/// with all of its bytes, however many they are.
pub proof fn law_sections_are_found_again(
    elf: Seq<u8>,
    wide: bool,
    sections: Seq<(Seq<u8>, Seq<u8>)>,
    i: int,
)
    requires
        is_file_of(elf, wide, sections),
        0 <= i < sections.len(),
        forall|j: int| 0 <= j < i ==> (#[trigger] sections[j]).0 != sections[i].0,
    ensures
        spec_elf_section(elf, sections[i].0) == Some(sections[i].1),
{
    let name = sections[i].0;
    assert forall|j: int| 0 <= j < i implies !#[trigger] is_named(elf, wide, j, name) by {
        assert(sections[j].0 != name);
        if is_named(elf, wide, j, name) {
            lemma_one_name(elf, wide, j, sections[j].0, name);
        }
    }
    law_section_is_found(elf, wide, i, name);
}

} // verus!
