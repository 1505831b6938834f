//! Loaded programs, and the loader that makes them from BPF objects.
//!
//! The loader works on an object file that has been taken apart already: the
//! caller hands it the bytes of the file together with an `ElfImage`, the
//! list of the file's sections with their names, places, symbols and
//! relocation entries. The loader resolves the symbols that name maps, patches
//! the instructions that refer to them, hands the code to the compiler and
//! registers what comes back.
use super::consts::{R_BPF_64_32, R_BPF_64_64};
use super::osutil::{buffer_addr, bytes_equal};
use super::retcode::{BpfErrorCode, BpfResult};
use super::{bpf_allocate_fd, bpf_object_create_program, BpfObjects};
use vstd::bytes::{
    spec_u32_to_le_bytes, spec_u64_from_le_bytes, u32_to_le_bytes, u64_from_le_bytes,
};
use vstd::prelude::*;
use vstd::utf8::encode_utf8;

verus! {

/// One entry of the array that names the maps of a program to be loaded: the
/// user address of the map's name, which ends with a zero byte, and the handle.
#[derive(Clone, Copy, Debug, PartialEq, Eq, Structural)]
pub struct MapFdEntry {
    pub name: u64,
    pub fd: u32,
}

/// The attributes of `BPF_PROG_LOAD_EX`: user address and size of the object
/// file, and length and user address of the array of `MapFdEntry`.
#[derive(Clone, Copy, Debug, PartialEq, Eq, Structural)]
pub struct ProgramLoadExAttr {
    pub elf_prog: u64,
    pub elf_size: u32,
    pub map_array_len: u32,
    pub map_array: u64,
}

impl MapFdEntry {
    /// The entry that stands in the sixteen bytes from the start of `bytes`
    /// on: an address of 64 bits, the handle, and four bytes of padding.
    pub open spec fn spec_from_bytes(bytes: Seq<u8>) -> Option<MapFdEntry> {
        if bytes.len() < 16 {
            None
        } else {
            Some(
                MapFdEntry {
                    name: spec_u64_from_le_bytes(bytes.subrange(0, 8)),
                    fd: vstd::bytes::spec_u32_from_le_bytes(bytes.subrange(8, 12)),
                },
            )
        }
    }

    pub fn from_bytes(bytes: &[u8]) -> (r: Option<MapFdEntry>)
        ensures
            r == MapFdEntry::spec_from_bytes(bytes@),
    {
        if bytes.len() < 16 {
            return None;
        }
        Some(
            MapFdEntry {
                name: u64_from_le_bytes(vstd::slice::slice_subrange(bytes, 0, 8)),
                fd: vstd::bytes::u32_from_le_bytes(vstd::slice::slice_subrange(bytes, 8, 12)),
            },
        )
    }
}

impl ProgramLoadExAttr {
    /// The attributes that stand in the 24 bytes from the start of `bytes` on.
    pub open spec fn spec_from_bytes(bytes: Seq<u8>) -> Option<ProgramLoadExAttr> {
        if bytes.len() < 24 {
            None
        } else {
            Some(
                ProgramLoadExAttr {
                    elf_prog: spec_u64_from_le_bytes(bytes.subrange(0, 8)),
                    elf_size: vstd::bytes::spec_u32_from_le_bytes(bytes.subrange(8, 12)),
                    map_array_len: vstd::bytes::spec_u32_from_le_bytes(bytes.subrange(12, 16)),
                    map_array: spec_u64_from_le_bytes(bytes.subrange(16, 24)),
                },
            )
        }
    }

    pub fn from_bytes(bytes: &[u8]) -> (r: Option<ProgramLoadExAttr>)
        ensures
            r == ProgramLoadExAttr::spec_from_bytes(bytes@),
    {
        if bytes.len() < 24 {
            return None;
        }
        Some(
            ProgramLoadExAttr {
                elf_prog: u64_from_le_bytes(vstd::slice::slice_subrange(bytes, 0, 8)),
                elf_size: vstd::bytes::u32_from_le_bytes(vstd::slice::slice_subrange(bytes, 8, 12)),
                map_array_len: vstd::bytes::u32_from_le_bytes(
                    vstd::slice::slice_subrange(bytes, 12, 16),
                ),
                map_array: u64_from_le_bytes(vstd::slice::slice_subrange(bytes, 16, 24)),
            },
        )
    }
}

/// A loaded program: the machine code that the compiler made of it, and the
/// table of map handles that this code reads through fixed addresses. The
/// table is never changed after loading, so its items stay where they are.
pub struct BpfProgram {
    pub bpf_insns: Option<Vec<u64>>,
    pub jited_prog: Option<Vec<u32>>,
    pub map_fd_table: Option<Vec<u32>>,
}

/// The machine number of BPF in an ELF header.
pub const EM_BPF: u16 = 0xF7;

/// The type of a section of relocation entries without addends.
pub const SHT_REL: u32 = 9;

/// The stack that the compiler reserves for a program, in bytes.
pub const JIT_STACK_SIZE: usize = 512;

/// A symbol of the symbol table. The name is absent where the file gives none
/// that can be read.
pub struct ElfSymbol {
    pub name: Option<Vec<u8>>,
}

/// A relocation entry: the offset of the instruction in the patched section,
/// the index of the symbol that it refers to, and the relocation kind.
#[derive(Clone, Copy, Debug, PartialEq, Eq, Structural)]
pub struct ElfRel {
    pub offset: u64,
    pub symbol: u32,
    pub kind: u32,
}

/// A section: its name, where its bytes lie in the file, its symbols where
/// the loader reads them (`holds_symbols`) and the section is a table of
/// 64-bit symbols, and its entries where the loader reads them
/// (`holds_rels`) and they are 64-bit entries.
pub struct ElfSection {
    pub name: Option<Vec<u8>>,
    pub offset: u64,
    pub size: u64,
    pub symbols: Option<Vec<ElfSymbol>>,
    pub rels: Option<Vec<ElfRel>>,
}

/// What the loader reads of an object file.
pub struct ElfImage {
    pub machine: u16,
    pub sections: Vec<ElfSection>,
}

/// The bytes of a name given as text.
pub open spec fn name_bytes(name: Seq<char>) -> Seq<u8> {
    encode_utf8(name)
}

pub open spec fn section_named(section: ElfSection, name: Seq<u8>) -> bool {
    section.name matches Some(n) && n@ == name
}

/// The first section from `from` on that has this name.
pub open spec fn find_section_from(sections: Seq<ElfSection>, name: Seq<u8>, from: int) -> Option<
    int,
>
    decreases sections.len() - from,
{
    if from < 0 || from >= sections.len() {
        None
    } else if section_named(sections[from], name) {
        Some(from)
    } else {
        find_section_from(sections, name, from + 1)
    }
}

/// The first section that has this name.
pub open spec fn find_section(sections: Seq<ElfSection>, name: Seq<u8>) -> Option<int> {
    find_section_from(sections, name, 0)
}

/// The place in the table of map handles that a symbol of this name stands
/// for: that of the last of the first `upto` maps that has this name.
pub open spec fn slot_of_name(map_info: Seq<(String, u32)>, name: Seq<u8>, upto: int) -> Option<
    int,
>
    decreases upto,
{
    if upto <= 0 || upto > map_info.len() {
        None
    } else if name_bytes(map_info[upto - 1].0@) == name {
        Some(upto - 1)
    } else {
        slot_of_name(map_info, name, upto - 1)
    }
}

/// The place in the table of map handles that a symbol stands for, if it
/// names a map.
pub open spec fn slot_of_symbol(map_info: Seq<(String, u32)>, symbol: ElfSymbol) -> Option<int> {
    match symbol.name {
        Some(n) => slot_of_name(map_info, n@, map_info.len() as int),
        None => None,
    }
}

pub open spec fn symbol_named(symbol: ElfSymbol, name: Seq<u8>) -> bool {
    symbol.name matches Some(n) && n@ == name
}

/// Whether some symbol has the name of the map number `index`.
pub open spec fn map_is_resolved(
    symbols: Seq<ElfSymbol>,
    map_info: Seq<(String, u32)>,
    index: int,
) -> bool {
    exists|j: int|
        0 <= j < symbols.len() && symbol_named(#[trigger] symbols[j], name_bytes(map_info[index].0@))
}

/// Whether every map's name is the name of some symbol.
pub open spec fn all_resolved(symbols: Seq<ElfSymbol>, map_info: Seq<(String, u32)>) -> bool {
    forall|i: int| 0 <= i < map_info.len() ==> #[trigger] map_is_resolved(symbols, map_info, i)
}

/// `.symtab`, the name of the symbol table.
pub open spec fn symtab_name() -> Seq<u8> {
    seq![0x2eu8, 0x73, 0x79, 0x6d, 0x74, 0x61, 0x62]
}

/// `.text`, the name of the section that holds the code.
pub open spec fn text_name() -> Seq<u8> {
    seq![0x2eu8, 0x74, 0x65, 0x78, 0x74]
}

/// `.rel`, with which the name of a section of relocation entries begins;
/// the rest is the name of the section that the entries patch.
pub open spec fn rel_prefix() -> Seq<u8> {
    seq![0x2eu8, 0x72, 0x65, 0x6c]
}

/// The symbols of the section named `.symtab`; none where that section is no
/// table of 64-bit symbols.
pub open spec fn symtab(image: ElfImage) -> Seq<ElfSymbol> {
    match find_section(image.sections@, symtab_name()) {
        Some(i) => match image.sections@[i].symbols {
            Some(symbols) => symbols@,
            None => Seq::empty(),
        },
        None => Seq::empty(),
    }
}

/// Whether `name` begins with `.rel`.
pub open spec fn is_rel_name(name: Seq<u8>) -> bool {
    name.len() >= 4 && name.subrange(0, 4) == rel_prefix()
}

/// `bytes` with the four bytes from `at` on replaced by `word`, least
/// significant byte first.
pub open spec fn with_word(bytes: Seq<u8>, at: int, word: u32) -> Seq<u8> {
    bytes.subrange(0, at) + spec_u32_to_le_bytes(word) + bytes.subrange(at + 4, bytes.len() as int)
}

/// The value that a relocation entry of this kind writes for the address
/// `addr`: the address itself for `R_BPF_64_64`, an eighth of it less one for
/// `R_BPF_64_32`. Entries of other kinds write nothing.
pub open spec fn reloc_value(kind: u32, addr: u64) -> Option<u64> {
    if kind == R_BPF_64_64 {
        Some(addr)
    } else if kind == R_BPF_64_32 {
        Some(((addr / 8 - 1) % 0x1_0000_0000_0000_0000) as u64)
    } else {
        None
    }
}

/// The file after the instruction at `at` was given the immediate `value`:
/// the low half goes to the instruction's own slot, four bytes into it, the
/// high half to the slot that follows, twelve bytes in.
pub open spec fn with_immediate(bytes: Seq<u8>, at: int, value: u64) -> Seq<u8> {
    with_word(
        with_word(bytes, at + 4, (value % 0x1_0000_0000) as u32),
        at + 12,
        (value / 0x1_0000_0000) as u32,
    )
}

/// Giving an instruction its immediate writes the low half of the value,
/// least significant byte first, into the bytes 4 to 7 of the instruction
/// and the high half into the bytes 12 to 15, and leaves every other byte of
/// the file as it was.
pub proof fn lemma_with_immediate(bytes: Seq<u8>, at: int, value: u64)
    requires
        0 <= at,
        at + 16 <= bytes.len(),
    ensures
        with_immediate(bytes, at, value).len() == bytes.len(),
        with_immediate(bytes, at, value).subrange(at + 4, at + 8) == spec_u32_to_le_bytes(
            (value % 0x1_0000_0000) as u32,
        ),
        with_immediate(bytes, at, value).subrange(at + 12, at + 16) == spec_u32_to_le_bytes(
            (value / 0x1_0000_0000) as u32,
        ),
        forall|i: int|
            0 <= i < bytes.len() && !(at + 4 <= i < at + 8) && !(at + 12 <= i < at + 16)
                ==> #[trigger] with_immediate(bytes, at, value)[i] == bytes[i],
{
    let low = (value % 0x1_0000_0000) as u32;
    let high = (value / 0x1_0000_0000) as u32;
    vstd::bytes::lemma_auto_spec_u32_to_from_le_bytes();
    assert(spec_u32_to_le_bytes(low).len() == 4);
    assert(spec_u32_to_le_bytes(high).len() == 4);
    let mid = with_word(bytes, at + 4, low);
    assert(mid.len() == bytes.len());
    let after = with_word(mid, at + 12, high);
    assert(after.subrange(at + 4, at + 8) =~= spec_u32_to_le_bytes(low));
    assert(after.subrange(at + 12, at + 16) =~= spec_u32_to_le_bytes(high));
}

/// A section with one entry of the kind `R_BPF_64_64` whose symbol names a
/// map gives the instruction at the entry's offset the address of that map's
/// place in the table of handles, and changes nothing else.
pub proof fn lemma_one_entry(
    bytes: Seq<u8>,
    base: int,
    rel: ElfRel,
    symbols: Seq<ElfSymbol>,
    map_info: Seq<(String, u32)>,
    table: usize,
)
    requires
        rel.kind == R_BPF_64_64,
        rel_slot(rel, symbols, map_info) is Some,
    ensures
        apply_rels(bytes, base, seq![rel], symbols, map_info, table, 1) == with_immediate(
            bytes,
            base + rel.offset,
            slot_addr(table, rel_slot(rel, symbols, map_info)->0 as usize),
        ),
{
    let rels = seq![rel];
    assert(rels[0] == rel);
    assert(apply_rels(bytes, base, rels, symbols, map_info, table, 0) == bytes);
}

/// The address of the item number `slot` of a table of handles that starts at
/// `table`: four bytes further for each item. Addresses wrap around.
pub open spec fn slot_addr(table: usize, slot: usize) -> u64 {
    (table as u64).wrapping_add((slot as u64).wrapping_mul(4))
}

/// The place in the table of map handles that an entry refers to, where its
/// symbol names a map and its kind is one of the two that patch.
pub open spec fn rel_slot(
    rel: ElfRel,
    symbols: Seq<ElfSymbol>,
    map_info: Seq<(String, u32)>,
) -> Option<int> {
    if rel.symbol >= symbols.len() || !(rel.kind == R_BPF_64_64 || rel.kind == R_BPF_64_32) {
        None
    } else {
        slot_of_symbol(map_info, symbols[rel.symbol as int])
    }
}

/// What an entry does, where it patches: the place of the instruction, from
/// the start of the patched section, and the value of its immediate.
pub open spec fn rel_patch(
    rel: ElfRel,
    symbols: Seq<ElfSymbol>,
    map_info: Seq<(String, u32)>,
    table: usize,
) -> Option<(int, u64)> {
    match rel_slot(rel, symbols, map_info) {
        Some(slot) => Some(
            (rel.offset as int, reloc_value(rel.kind, slot_addr(table, slot as usize))->0),
        ),
        None => None,
    }
}

/// The file after the first `n` entries of a section were applied to the
/// section that starts at `base`.
pub open spec fn apply_rels(
    bytes: Seq<u8>,
    base: int,
    rels: Seq<ElfRel>,
    symbols: Seq<ElfSymbol>,
    map_info: Seq<(String, u32)>,
    table: usize,
    n: int,
) -> Seq<u8>
    decreases n,
{
    if n <= 0 || n > rels.len() {
        bytes
    } else {
        let before = apply_rels(bytes, base, rels, symbols, map_info, table, n - 1);
        match rel_patch(rels[n - 1], symbols, map_info, table) {
            Some((offset, value)) => with_immediate(before, base + offset, value),
            None => before,
        }
    }
}

/// The section that the entries of the section number `index` patch, where
/// that section is one of entries whose name begins with `.rel`.
pub open spec fn rel_target(sections: Seq<ElfSection>, index: int) -> Option<int> {
    let section = sections[index];
    if section.rels is Some && section.name is Some && is_rel_name(section.name->0@) {
        find_section(sections, section.name->0@.subrange(4, section.name->0@.len() as int))
    } else {
        None
    }
}

/// The file after the entries of the first `n` sections were applied.
pub open spec fn apply_sections(
    bytes: Seq<u8>,
    image: ElfImage,
    map_info: Seq<(String, u32)>,
    table: usize,
    n: int,
) -> Seq<u8>
    decreases n,
{
    if n <= 0 || n > image.sections@.len() {
        bytes
    } else {
        let before = apply_sections(bytes, image, map_info, table, n - 1);
        match rel_target(image.sections@, n - 1) {
            Some(target) => apply_rels(
                before,
                image.sections@[target].offset as int,
                image.sections@[n - 1].rels->0@,
                symtab(image),
                map_info,
                table,
                image.sections@[n - 1].rels->0@.len() as int,
            ),
            None => before,
        }
    }
}

/// What is wrong with the entries of the section number `index`, if anything:
/// a section of entries has no name (`EINVAL`); the section that it patches
/// is not there (`ENOENT`) or does not lie within the file (`EINVAL`); or an
/// entry that patches has no room for its two slots in that section (`EINVAL`).
pub open spec fn rel_section_error(
    image: ElfImage,
    map_info: Seq<(String, u32)>,
    file_len: int,
    index: int,
) -> Option<BpfErrorCode> {
    let section = image.sections@[index];
    if section.rels is None {
        None
    } else if section.name is None {
        Some(BpfErrorCode::EINVAL)
    } else if !is_rel_name(section.name->0@) {
        None
    } else {
        match rel_target(image.sections@, index) {
            None => Some(BpfErrorCode::ENOENT),
            Some(target) => if image.sections@[target].offset + image.sections@[target].size
                > file_len {
                Some(BpfErrorCode::EINVAL)
            } else if exists|k: int|
                0 <= k < section.rels->0@.len() && #[trigger] rel_out_of_section(
                    section.rels->0@[k],
                    symtab(image),
                    map_info,
                    image.sections@[target].size as int,
                ) {
                Some(BpfErrorCode::EINVAL)
            } else {
                None
            },
        }
    }
}

/// Whether an entry patches and its two slots do not fit in a section of
/// `size` bytes.
pub open spec fn rel_out_of_section(
    rel: ElfRel,
    symbols: Seq<ElfSymbol>,
    map_info: Seq<(String, u32)>,
    size: int,
) -> bool {
    rel_slot(rel, symbols, map_info) is Some && rel.offset + 16 > size
}

/// The first thing that is wrong with the entries of the sections from
/// `from` on.
pub open spec fn rel_error_from(
    image: ElfImage,
    map_info: Seq<(String, u32)>,
    file_len: int,
    from: int,
) -> Option<BpfErrorCode>
    decreases image.sections@.len() - from,
{
    if from < 0 || from >= image.sections@.len() {
        None
    } else {
        match rel_section_error(image, map_info, file_len, from) {
            Some(e) => Some(e),
            None => rel_error_from(image, map_info, file_len, from + 1),
        }
    }
}

/// Why a file cannot be loaded, if it cannot. In this order: it is not made
/// for BPF (`EINVAL`); it has no section `.symtab` (`ENOENT`); a map's name
/// is not the name of any symbol (`ENOENT`); something is wrong with its
/// relocation entries (see `rel_section_error`); it has no section `.text`
/// (`ENOENT`), or that section does not lie within the file (`EINVAL`).
pub open spec fn load_error(image: ElfImage, map_info: Seq<(String, u32)>, file_len: int) -> Option<
    BpfErrorCode,
> {
    if image.machine != EM_BPF {
        Some(BpfErrorCode::EINVAL)
    } else if find_section(image.sections@, symtab_name()) is None {
        Some(BpfErrorCode::ENOENT)
    } else if !all_resolved(symtab(image), map_info) {
        Some(BpfErrorCode::ENOENT)
    } else if rel_error_from(image, map_info, file_len, 0) is Some {
        rel_error_from(image, map_info, file_len, 0)
    } else {
        match find_section(image.sections@, text_name()) {
            None => Some(BpfErrorCode::ENOENT),
            Some(text) => if image.sections@[text].offset + image.sections@[text].size > file_len {
                Some(BpfErrorCode::EINVAL)
            } else {
                None
            },
        }
    }
}

/// The code of the program: the bytes of the section `.text` after patching,
/// eight by eight, each eight read as a number with the least significant
/// byte first. Bytes left over at the end are not part of it.
pub open spec fn text_words(bytes: Seq<u8>, offset: int, size: int) -> Seq<u64> {
    Seq::new(
        (size / 8) as nat,
        |i: int| spec_u64_from_le_bytes(bytes.subrange(offset + 8 * i, offset + 8 * i + 8)),
    )
}

/// Whether two byte strings are the same.
fn same_bytes(a: &[u8], b: &[u8]) -> (same: bool)
    ensures
        same == (a@ == b@),
{
    if a.len() != b.len() {
        return false;
    }
    let same = bytes_equal(a, b, a.len());
    assert(a@.subrange(0, a@.len() as int) =~= a@);
    assert(b@.subrange(0, b@.len() as int) =~= b@);
    same
}

/// Whether the loader reads the symbols of a section with this name: it
/// reads those of `.symtab` and no others.
pub fn holds_symbols(name: &[u8]) -> (r: bool)
    ensures
        r == (name@ == symtab_name()),
{
    let dot_symtab: [u8; 7] = [0x2e, 0x73, 0x79, 0x6d, 0x74, 0x61, 0x62];
    assert(dot_symtab@ =~= symtab_name());
    same_bytes(name, dot_symtab.as_slice())
}

/// Whether the loader reads the entries of a section of this type: it reads
/// those of the sections of relocation entries without addends.
pub fn holds_rels(section_type: u32) -> (r: bool)
    ensures
        r == (section_type == SHT_REL),
{
    section_type == SHT_REL
}

/// The first section with this name.
pub fn find_section_by_name(image: &ElfImage, name: &[u8]) -> (r: Option<usize>)
    ensures
        match r {
            Some(i) => find_section(image.sections@, name@) == Some(i as int) && i
                < image.sections@.len(),
            None => find_section(image.sections@, name@) is None,
        },
{
    let mut i: usize = 0;
    while i < image.sections.len()
        invariant
            i <= image.sections@.len(),
            find_section(image.sections@, name@) == find_section_from(
                image.sections@,
                name@,
                i as int,
            ),
        decreases image.sections@.len() - i,
    {
        let found = match &image.sections[i].name {
            Some(n) => same_bytes(n.as_slice(), name),
            None => false,
        };
        if found {
            return Some(i);
        }
        i += 1;
    }
    None
}

/// The place in the table of map handles that a symbol of this name stands for.
fn slot_for_name(map_info: &[(String, u32)], name: &[u8]) -> (r: Option<usize>)
    ensures
        match r {
            Some(slot) => slot_of_name(map_info@, name@, map_info@.len() as int) == Some(
                slot as int,
            ) && slot < map_info@.len(),
            None => slot_of_name(map_info@, name@, map_info@.len() as int) is None,
        },
{
    let mut upto: usize = map_info.len();
    while upto > 0
        invariant
            upto <= map_info@.len(),
            slot_of_name(map_info@, name@, map_info@.len() as int) == slot_of_name(
                map_info@,
                name@,
                upto as int,
            ),
        decreases upto,
    {
        if same_bytes(map_info[upto - 1].0.as_str().as_bytes(), name) {
            return Some(upto - 1);
        }
        upto -= 1;
    }
    None
}

/// Whether every map's name is the name of some symbol.
fn check_all_resolved(symbols: &Vec<ElfSymbol>, map_info: &[(String, u32)]) -> (r: bool)
    ensures
        r == all_resolved(symbols@, map_info@),
{
    let mut i: usize = 0;
    while i < map_info.len()
        invariant
            i <= map_info@.len(),
            forall|k: int| 0 <= k < i ==> #[trigger] map_is_resolved(symbols@, map_info@, k),
        decreases map_info@.len() - i,
    {
        let name = map_info[i].0.as_str().as_bytes();
        let mut j: usize = 0;
        let mut found = false;
        while j < symbols.len() && !found
            invariant
                j <= symbols@.len(),
                i < map_info@.len(),
                name@ == name_bytes(map_info@[i as int].0@),
                found ==> map_is_resolved(symbols@, map_info@, i as int),
                !found ==> forall|k: int|
                    0 <= k < j ==> !symbol_named(#[trigger] symbols@[k], name@),
            decreases symbols@.len() - j + (if found { 0int } else { 1int }),
        {
            let hit = match &symbols[j].name {
                Some(n) => same_bytes(n.as_slice(), name),
                None => false,
            };
            if hit {
                assert(symbol_named(symbols@[j as int], name@));
                found = true;
            } else {
                j += 1;
            }
        }
        if !found {
            assert(!map_is_resolved(symbols@, map_info@, i as int));
            return false;
        }
        i += 1;
    }
    true
}

/// The place in the table of handles that an entry refers to.
fn slot_of_rel(
    image: &ElfImage,
    symtab_index: usize,
    map_info: &[(String, u32)],
    rel: &ElfRel,
) -> (r: Option<usize>)
    requires
        find_section(image.sections@, symtab_name()) == Some(symtab_index as int),
        symtab_index < image.sections@.len(),
    ensures
        match r {
            Some(slot) => rel_slot(*rel, symtab(*image), map_info@) == Some(slot as int) && slot
                < map_info@.len(),
            None => rel_slot(*rel, symtab(*image), map_info@) is None,
        },
{
    if !(rel.kind == R_BPF_64_64 || rel.kind == R_BPF_64_32) {
        return None;
    }
    match &image.sections[symtab_index].symbols {
        Some(symbols) => {
            let index = rel.symbol as usize;
            if index >= symbols.len() {
                return None;
            }
            match &symbols[index].name {
                Some(n) => slot_for_name(map_info, n.as_slice()),
                None => None,
            }
        },
        None => None,
    }
}

/// What is wrong with the entries of the section number `index`.
#[verifier::loop_isolation(false)]
fn check_rel_section(
    image: &ElfImage,
    symtab_index: usize,
    map_info: &[(String, u32)],
    file_len: usize,
    index: usize,
) -> (r: Option<BpfErrorCode>)
    requires
        find_section(image.sections@, symtab_name()) == Some(symtab_index as int),
        symtab_index < image.sections@.len(),
        index < image.sections@.len(),
    ensures
        r == rel_section_error(*image, map_info@, file_len as int, index as int),
{
    let section = &image.sections[index];
    let rels = match &section.rels {
        Some(rels) => rels,
        None => { return None; },
    };
    let name = match &section.name {
        Some(name) => name,
        None => { return Some(BpfErrorCode::EINVAL); },
    };
    let prefix: [u8; 4] = [0x2e, 0x72, 0x65, 0x6c];
    if name.len() < 4 || !bytes_equal(name.as_slice(), prefix.as_slice(), 4) {
        assert(prefix@.subrange(0, 4) =~= rel_prefix());
        return None;
    }
    assert(prefix@.subrange(0, 4) =~= rel_prefix());
    let target_name = vstd::slice::slice_subrange(name.as_slice(), 4, name.len());
    let target = match find_section_by_name(image, target_name) {
        Some(target) => target,
        None => { return Some(BpfErrorCode::ENOENT); },
    };
    let size = image.sections[target].size;
    match image.sections[target].offset.checked_add(size) {
        Some(end) => {
            if end > file_len as u64 {
                return Some(BpfErrorCode::EINVAL);
            }
        },
        None => { return Some(BpfErrorCode::EINVAL); },
    }
    let mut k: usize = 0;
    while k < rels.len()
        invariant
            k <= rels@.len(),
            find_section(image.sections@, symtab_name()) == Some(symtab_index as int),
            symtab_index < image.sections@.len(),
            forall|j: int|
                0 <= j < k ==> !#[trigger] rel_out_of_section(
                    rels@[j],
                    symtab(*image),
                    map_info@,
                    size as int,
                ),
        decreases rels@.len() - k,
    {
        let rel = &rels[k];
        if slot_of_rel(image, symtab_index, map_info, rel).is_some() {
            let fits = match rel.offset.checked_add(16) {
                Some(end) => end <= size,
                None => false,
            };
            if !fits {
                assert(rel_out_of_section(rels@[k as int], symtab(*image), map_info@, size as int));
                return Some(BpfErrorCode::EINVAL);
            }
        }
        k += 1;
    }
    None
}

/// The first thing that is wrong with the relocation entries.
fn check_rels(
    image: &ElfImage,
    symtab_index: usize,
    map_info: &[(String, u32)],
    file_len: usize,
) -> (r: Option<BpfErrorCode>)
    requires
        find_section(image.sections@, symtab_name()) == Some(symtab_index as int),
        symtab_index < image.sections@.len(),
    ensures
        r == rel_error_from(*image, map_info@, file_len as int, 0),
{
    let mut i: usize = 0;
    while i < image.sections.len()
        invariant
            i <= image.sections@.len(),
            find_section(image.sections@, symtab_name()) == Some(symtab_index as int),
            symtab_index < image.sections@.len(),
            rel_error_from(*image, map_info@, file_len as int, 0) == rel_error_from(
                *image,
                map_info@,
                file_len as int,
                i as int,
            ),
        decreases image.sections@.len() - i,
    {
        let e = check_rel_section(image, symtab_index, map_info, file_len, i);
        if e.is_some() {
            return e;
        }
        i += 1;
    }
    None
}

/// Checks a file before anything is written: the sections `.symtab` and
/// `.text` by their numbers where all is well.
fn check_load(image: &ElfImage, map_info: &[(String, u32)], file_len: usize) -> (r: Result<
    (usize, usize),
    BpfErrorCode,
>)
    ensures
        match r {
            Ok((symtab_index, text)) => {
                &&& load_error(*image, map_info@, file_len as int) is None
                &&& find_section(image.sections@, symtab_name()) == Some(symtab_index as int)
                &&& find_section(image.sections@, text_name()) == Some(text as int)
                &&& symtab_index < image.sections@.len()
                &&& text < image.sections@.len()
            },
            Err(e) => load_error(*image, map_info@, file_len as int) == Some(e),
        },
{
    if image.machine != EM_BPF {
        return Err(BpfErrorCode::EINVAL);
    }
    let dot_symtab: [u8; 7] = [0x2e, 0x73, 0x79, 0x6d, 0x74, 0x61, 0x62];
    assert(dot_symtab@ =~= symtab_name());
    let symtab_index = match find_section_by_name(image, dot_symtab.as_slice()) {
        Some(i) => i,
        None => { return Err(BpfErrorCode::ENOENT); },
    };
    let resolved = match &image.sections[symtab_index].symbols {
        Some(symbols) => check_all_resolved(symbols, map_info),
        None => map_info.len() == 0,
    };
    if !resolved {
        proof {
            if image.sections@[symtab_index as int].symbols is None {
                assert(!map_is_resolved(symtab(*image), map_info@, 0));
            }
        }
        return Err(BpfErrorCode::ENOENT);
    }
    match check_rels(image, symtab_index, map_info, file_len) {
        Some(e) => { return Err(e); },
        None => {},
    }
    let dot_text: [u8; 5] = [0x2e, 0x74, 0x65, 0x78, 0x74];
    assert(dot_text@ =~= text_name());
    let text = match find_section_by_name(image, dot_text.as_slice()) {
        Some(i) => i,
        None => { return Err(BpfErrorCode::ENOENT); },
    };
    match image.sections[text].offset.checked_add(image.sections[text].size) {
        Some(end) => {
            if end > file_len as u64 {
                return Err(BpfErrorCode::EINVAL);
            }
        },
        None => { return Err(BpfErrorCode::EINVAL); },
    }
    Ok((symtab_index, text))
}

/// Writes `word` at `at`, least significant byte first.
fn write_word(prog: &mut [u8], at: usize, word: u32)
    requires
        at + 4 <= old(prog)@.len(),
    ensures
        final(prog)@.len() == old(prog)@.len(),
        final(prog)@ == with_word(old(prog)@, at as int, word),
{
    let len = prog.len();
    let bytes = u32_to_le_bytes(word);
    proof {
        vstd::bytes::lemma_auto_spec_u32_to_from_le_bytes();
        assert(spec_u32_to_le_bytes(word).len() == 4);
    }
    let mut j: usize = 0;
    while j < 4
        invariant
            j <= 4,
            bytes@.len() == 4,
            at + 4 <= prog@.len() == len,
            prog@.len() == old(prog)@.len(),
            forall|k: int| 0 <= k < j ==> prog@[at + k] == bytes@[k],
            forall|k: int|
                0 <= k < prog@.len() && !(at <= k < at + j) ==> prog@[k] == old(prog)@[k],
        decreases 4 - j,
    {
        prog[at + j] = bytes[j];
        j += 1;
    }
    assert(prog@ =~= with_word(old(prog)@, at as int, word));
}

/// Gives the instruction at `at` the immediate `value`.
fn write_immediate(prog: &mut [u8], at: usize, value: u64)
    requires
        at + 16 <= old(prog)@.len(),
    ensures
        final(prog)@.len() == old(prog)@.len(),
        final(prog)@ == with_immediate(old(prog)@, at as int, value),
{
    let len = prog.len();
    write_word(prog, at + 4, (value % 0x1_0000_0000) as u32);
    write_word(prog, at + 12, (value / 0x1_0000_0000) as u32);
}

/// Where nothing is wrong with the entries from `from` on, nothing is wrong
/// with those of any one section behind `from`.
proof fn lemma_no_rel_error(
    image: ElfImage,
    map_info: Seq<(String, u32)>,
    file_len: int,
    from: int,
    index: int,
)
    requires
        rel_error_from(image, map_info, file_len, from) is None,
        0 <= from <= index < image.sections@.len(),
    ensures
        rel_section_error(image, map_info, file_len, index) is None,
    decreases index - from,
{
    if from < index {
        lemma_no_rel_error(image, map_info, file_len, from + 1, index);
    }
}

/// Applies the entries of the section number `index`.
#[verifier::loop_isolation(false)]
fn apply_rel_section(
    prog: &mut [u8],
    image: &ElfImage,
    symtab_index: usize,
    map_info: &[(String, u32)],
    table: usize,
    index: usize,
)
    requires
        find_section(image.sections@, symtab_name()) == Some(symtab_index as int),
        symtab_index < image.sections@.len(),
        index < image.sections@.len(),
        rel_section_error(*image, map_info@, old(prog)@.len() as int, index as int) is None,
    ensures
        final(prog)@.len() == old(prog)@.len(),
        final(prog)@ == (match rel_target(image.sections@, index as int) {
            Some(target) => apply_rels(
                old(prog)@,
                image.sections@[target].offset as int,
                image.sections@[index as int].rels->0@,
                symtab(*image),
                map_info@,
                table,
                image.sections@[index as int].rels->0@.len() as int,
            ),
            None => old(prog)@,
        }),
{
    let file_len = prog.len();
    let section = &image.sections[index];
    let rels = match &section.rels {
        Some(rels) => rels,
        None => { return ; },
    };
    let name = match &section.name {
        Some(name) => name,
        None => { return ; },
    };
    let prefix: [u8; 4] = [0x2e, 0x72, 0x65, 0x6c];
    assert(prefix@.subrange(0, 4) =~= rel_prefix());
    if name.len() < 4 || !bytes_equal(name.as_slice(), prefix.as_slice(), 4) {
        return ;
    }
    let target_name = vstd::slice::slice_subrange(name.as_slice(), 4, name.len());
    let target = match find_section_by_name(image, target_name) {
        Some(target) => target,
        None => { return ; },
    };
    let base = image.sections[target].offset as usize;
    let size = image.sections[target].size;
    let mut k: usize = 0;
    while k < rels.len()
        invariant
            k <= rels@.len(),
            prog@.len() == old(prog)@.len(),
            prog@ == apply_rels(
                old(prog)@,
                base as int,
                rels@,
                symtab(*image),
                map_info@,
                table,
                k as int,
            ),
        decreases rels@.len() - k,
    {
        let rel = &rels[k];
        match slot_of_rel(image, symtab_index, map_info, rel) {
            Some(slot) => {
                assert(!rel_out_of_section(rels@[k as int], symtab(*image), map_info@, size as int));
                let addr = (table as u64).wrapping_add((slot as u64).wrapping_mul(4));
                let value = if rel.kind == R_BPF_64_64 {
                    addr
                } else {
                    (addr / 8).wrapping_sub(1)
                };
                write_immediate(prog, base + rel.offset as usize, value);
            },
            None => {},
        }
        k += 1;
    }
}

/// Applies every relocation entry of a file that `load_error` finds no fault
/// with.
fn apply_all(
    prog: &mut [u8],
    image: &ElfImage,
    symtab_index: usize,
    map_info: &[(String, u32)],
    table: usize,
)
    requires
        find_section(image.sections@, symtab_name()) == Some(symtab_index as int),
        symtab_index < image.sections@.len(),
        rel_error_from(*image, map_info@, old(prog)@.len() as int, 0) is None,
    ensures
        final(prog)@.len() == old(prog)@.len(),
        final(prog)@ == apply_sections(
            old(prog)@,
            *image,
            map_info@,
            table,
            image.sections@.len() as int,
        ),
{
    let mut i: usize = 0;
    while i < image.sections.len()
        invariant
            i <= image.sections@.len(),
            find_section(image.sections@, symtab_name()) == Some(symtab_index as int),
            symtab_index < image.sections@.len(),
                rel_error_from(*image, map_info@, old(prog)@.len() as int, 0) is None,
            prog@.len() == old(prog)@.len(),
            prog@ == apply_sections(old(prog)@, *image, map_info@, table, i as int),
        decreases image.sections@.len() - i,
    {
        proof {
            lemma_no_rel_error(*image, map_info@, old(prog)@.len() as int, 0, i as int);
        }
        apply_rel_section(prog, image, symtab_index, map_info, table, i);
        i += 1;
    }
}

/// Patches the instructions of an object file that refer to maps, for a
/// table of map handles that lies at the address `table`, and says where in
/// the file the code is: offset and size of the section `.text`.
///
/// The file is checked as a whole first; a file that `load_error` finds fault
/// with is left as it was.
pub fn relocate(prog: &mut [u8], image: &ElfImage, map_info: &[(String, u32)], table: usize) -> (r:
    Result<(usize, usize), BpfErrorCode>)
    ensures
        final(prog)@.len() == old(prog)@.len(),
        match load_error(*image, map_info@, old(prog)@.len() as int) {
            Some(e) => r == Err::<(usize, usize), BpfErrorCode>(e) && final(prog)@ == old(prog)@,
            None => {
                let text = image.sections@[find_section(image.sections@, text_name())->0];
                &&& r == Ok::<(usize, usize), BpfErrorCode>(
                    (text.offset as usize, text.size as usize),
                )
                &&& text.offset + text.size <= old(prog)@.len()
                &&& final(prog)@ == apply_sections(
                    old(prog)@,
                    *image,
                    map_info@,
                    table,
                    image.sections@.len() as int,
                )
            },
        },
{
    let (symtab_index, text) = check_load(image, map_info, prog.len())?;
    apply_all(prog, image, symtab_index, map_info, table);
    Ok((image.sections[text].offset as usize, image.sections[text].size as usize))
}

/// The code in `prog` from `offset` on, as the compiler takes it.
pub fn read_text(prog: &[u8], offset: usize, size: usize) -> (words: Vec<u64>)
    requires
        offset + size <= prog@.len(),
    ensures
        words@ == text_words(prog@, offset as int, size as int),
{
    let len = prog.len();
    let count = size / 8;
    let mut words: Vec<u64> = Vec::new();
    let mut i: usize = 0;
    while i < count
        invariant
            i <= count,
            count == size / 8,
            offset + size <= prog@.len() == len,
            words@.len() == i,
            forall|k: int|
                0 <= k < i ==> words@[k] == spec_u64_from_le_bytes(
                    prog@.subrange(offset + 8 * k, offset + 8 * k + 8),
                ),
        decreases count - i,
    {
        let start = offset + 8 * i;
        let word = u64_from_le_bytes(vstd::slice::slice_subrange(prog, start, start + 8));
        words.push(word);
        i += 1;
    }
    assert(words@ =~= text_words(prog@, offset as int, size as int));
    words
}

/// The handles of the maps, in the order given.
pub open spec fn map_fds(map_info: Seq<(String, u32)>) -> Seq<u32> {
    Seq::new(map_info.len(), |i: int| map_info[i].1)
}

/// The table of map handles of a program.
fn build_map_fd_table(map_info: &[(String, u32)]) -> (table: Vec<u32>)
    ensures
        table@ == map_fds(map_info@),
{
    let mut table: Vec<u32> = Vec::with_capacity(200);
    let mut i: usize = 0;
    while i < map_info.len()
        invariant
            i <= map_info@.len(),
            table@.len() == i,
            forall|k: int| 0 <= k < i ==> table@[k] == map_info@[k].1,
        decreases map_info@.len() - i,
    {
        table.push(map_info[i].1);
        i += 1;
    }
    assert(table@ =~= map_fds(map_info@));
    table
}

/// What loading leaves behind where it succeeds, for a table of handles at
/// the address `table` and the machine code `code`: the patched file, and the
/// program under the handle that the counter stood at.
pub open spec fn loaded(
    before: &BpfObjects,
    after: &BpfObjects,
    file_before: Seq<u8>,
    file_after: Seq<u8>,
    image: ElfImage,
    map_info: Seq<(String, u32)>,
    table: usize,
    code: Vec<u32>,
) -> bool {
    let fd = before.counter();
    &&& file_after == apply_sections(
        file_before,
        image,
        map_info,
        table,
        image.sections@.len() as int,
    )
    &&& !before@.contains_key(fd)
    &&& after.counter() == fd + 1
    &&& after@.dom() == before@.dom().insert(fd)
    &&& forall|other: u32|
        other != fd && #[trigger] before@.contains_key(other) ==> after@[other] == before@[other]
    &&& after.has_program(fd)
    &&& after.program_at(fd).bpf_insns is None
    &&& after.program_at(fd).jited_prog == Some(code)
    &&& after.program_at(fd).map_fd_table is Some
    &&& after.program_at(fd).map_fd_table->0@ == map_fds(map_info)
}

/// What loading leaves behind and returns. A file that `load_error` finds
/// fault with is refused with that error, and so is any file once the
/// handles have run out (`ENOMEM`); the file and the registry are then as
/// they were. Otherwise see `loaded`: there is an address for the table of
/// handles, and machine code that `jit` made of the patched section `.text`
/// with a stack of `JIT_STACK_SIZE` bytes, for which it holds.
pub open spec fn program_loaded<F: FnOnce(&[u64], usize) -> Vec<u32>>(
    before: &BpfObjects,
    after: &BpfObjects,
    file_before: Seq<u8>,
    file_after: Seq<u8>,
    image: ElfImage,
    map_info: Seq<(String, u32)>,
    jit: F,
    r: BpfResult,
) -> bool {
    match load_error(image, map_info, file_before.len() as int) {
        Some(e) => r == Err::<usize, BpfErrorCode>(e) && file_after == file_before && after@
            == before@ && after.counter() == before.counter(),
        None => if before.counter() == u32::MAX {
            r == Err::<usize, BpfErrorCode>(BpfErrorCode::ENOMEM) && file_after == file_before
                && after@ == before@ && after.counter() == before.counter()
        } else {
            let text = image.sections@[find_section(image.sections@, text_name()).unwrap()];
            &&& r == Ok::<usize, BpfErrorCode>(before.counter() as usize)
            &&& exists|table: usize, insns: &[u64], code: Vec<u32>|
                {
                    &&& #[trigger] loaded(
                        before,
                        after,
                        file_before,
                        file_after,
                        image,
                        map_info,
                        table,
                        code,
                    )
                    &&& insns@ == text_words(file_after, text.offset as int, text.size as int)
                    &&& #[trigger] jit.ensures((insns, JIT_STACK_SIZE), code)
                }
        },
    }
}

/// Loads a program: patches the file for a fresh table of the maps' handles,
/// has `jit` compile the code with a stack of `JIT_STACK_SIZE` bytes, and
/// registers the result under a new handle, which it returns.
///
/// Where the table of handles comes to lie is for the allocator to say, so
/// the patched file is known only up to that address: `relocate` says what
/// it is for each.
pub fn bpf_program_load_ex<F: FnOnce(&[u64], usize) -> Vec<u32>>(
    objs: &mut BpfObjects,
    prog: &mut [u8],
    image: &ElfImage,
    map_info: &[(String, u32)],
    jit: F,
) -> (r: BpfResult)
    requires
        old(objs).wf(),
        forall|insns: &[u64]| jit.requires((insns, JIT_STACK_SIZE)),
    ensures
        final(objs).wf(),
        final(prog)@.len() == old(prog)@.len(),
        program_loaded(
            old(objs),
            final(objs),
            old(prog)@,
            final(prog)@,
            *image,
            map_info@,
            jit,
            r,
        ),
{
    let (symtab_index, text) = check_load(image, map_info, prog.len())?;
    if objs.is_exhausted() {
        return Err(BpfErrorCode::ENOMEM);
    }
    // build map fd table. storage must be fixed after this.
    let map_fd_table = build_map_fd_table(map_info);
    let table = buffer_addr(&map_fd_table);
    apply_all(prog, image, symtab_index, map_info, table);
    let bpf_insns = read_text(
        prog,
        image.sections[text].offset as usize,
        image.sections[text].size as usize,
    );
    let compiled_code = jit(bpf_insns.as_slice(), JIT_STACK_SIZE);
    let ghost code = compiled_code;
    let program = BpfProgram {
        bpf_insns: None,
        jited_prog: Some(compiled_code),
        map_fd_table: Some(map_fd_table),
    };
    let fd = bpf_allocate_fd(objs);
    bpf_object_create_program(objs, fd, program);
    proof {
        assert(objs@.dom() =~= old(objs)@.dom().insert(fd));
        assert(loaded(old(objs), objs, old(prog)@, prog@, *image, map_info@, table, code));
    }
    Ok(fd as usize)
}

} // verus!
