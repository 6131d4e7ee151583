//! The Portable Executable container as mathematics.
//!
//! Every function here is a specification over the raw bytes of an image.
//! [`decode`] says which byte sequences are images and what each one holds; the
//! executable decoder in [`crate::structures`] is proved against it.

use crate::structures::{
    CoffHeader, DataDirectory, ExportNameDescriptor, ExportTableDescriptor, ImportDescriptor,
    LookupDescriptor, OptionalHeader, PortableExecutable, SectionHeader,
};
use crate::utils::{be_u32, in_bounds, le_i32, le_u16, le_u32, le_u64};
use vstd::prelude::*;

verus! {

/// One imported library: its name and the functions imported from it by name.
pub struct ImportEntryView {
    pub name: Seq<char>,
    pub names: Seq<Seq<char>>,
}

/// What a decoded image holds.
///
/// `exports` is `None` when the image has no export directory, and `imports` is
/// `None` when it has no import directory. A directory that is present and can
/// be walked gives `Some`, also where its table turns out to be empty.
pub struct Image {
    pub sections: Seq<SectionHeader>,
    pub directories: Seq<DataDirectory>,
    pub exports: Option<Seq<Seq<char>>>,
    pub imports: Option<Seq<ImportEntryView>>,
}

// Signature

/// The file offset of the signature, as the field at `E_LFANEW_OFFSET` gives it.
pub open spec fn new_header_offset(bytes: Seq<u8>) -> int {
    le_i32(bytes, PortableExecutable::E_LFANEW_OFFSET as int)
}

/// Both the pointer to the signature and the signature itself lie inside `bytes`.
pub open spec fn signature_in_bounds(bytes: Seq<u8>) -> bool {
    &&& in_bounds(bytes, PortableExecutable::E_LFANEW_OFFSET as int, 4)
    &&& in_bounds(bytes, new_header_offset(bytes), 4)
}

/// `bytes` carries the signature where its pointer says.
pub open spec fn has_signature(bytes: Seq<u8>) -> bool {
    &&& signature_in_bounds(bytes)
    &&& be_u32(bytes, new_header_offset(bytes)) == PortableExecutable::NT_SIGNATURE
}

// Headers

/// Where the file header starts: right after the signature.
pub open spec fn file_header_offset(bytes: Seq<u8>) -> int {
    new_header_offset(bytes) + 4
}

/// Where the optional header starts.
pub open spec fn optional_header_offset(bytes: Seq<u8>) -> int {
    file_header_offset(bytes) + CoffHeader::SIZE
}

/// Where the first section header starts.
pub open spec fn section_table_offset(bytes: Seq<u8>) -> int {
    optional_header_offset(bytes) + OptionalHeader::SIZE
}

/// The number of section headers that the file header announces.
pub open spec fn section_count(bytes: Seq<u8>) -> int {
    le_u16(bytes, file_header_offset(bytes) + CoffHeader::NUMBER_OF_SECTIONS_OFFSET)
}

/// The signature is there, and both headers and every announced section header
/// lie inside `bytes`.
pub open spec fn headers_fit(bytes: Seq<u8>) -> bool {
    &&& has_signature(bytes)
    &&& section_table_offset(bytes) + SectionHeader::SIZE * section_count(bytes) <= bytes.len()
}

/// The data directory whose first byte is `bytes[at]`.
pub open spec fn directory_at(bytes: Seq<u8>, at: int) -> DataDirectory {
    DataDirectory { rva: le_u32(bytes, at) as u32, size: le_u32(bytes, at + 4) as u32 }
}

/// The table that `directory` stands for is absent: both its address and its
/// size are zero.
pub open spec fn directory_absent(directory: DataDirectory) -> bool {
    directory.rva == 0 && directory.size == 0
}

/// The section header whose first byte is `bytes[at]`.
pub open spec fn section_at(bytes: Seq<u8>, at: int) -> SectionHeader {
    SectionHeader {
        virtual_size: le_u32(bytes, at + SectionHeader::VIRTUAL_SIZE_OFFSET) as u32,
        rva: le_u32(bytes, at + SectionHeader::RVA_OFFSET) as u32,
        raw: le_u32(bytes, at + SectionHeader::RAW_OFFSET) as u32,
    }
}

/// The data directories of an optional header whose first byte is `bytes[at]`.
pub open spec fn directories_at(bytes: Seq<u8>, at: int) -> Seq<DataDirectory> {
    Seq::new(
        OptionalHeader::DIR_ENTRIES_COUNT as nat,
        |i: int| directory_at(bytes, at + OptionalHeader::DIRS_OFFSET + 8 * i),
    )
}

/// The data directories of the image, in file order.
pub open spec fn data_directories(bytes: Seq<u8>) -> Seq<DataDirectory> {
    directories_at(bytes, optional_header_offset(bytes))
}

/// The section headers of the image, in file order.
pub open spec fn section_table(bytes: Seq<u8>) -> Seq<SectionHeader> {
    Seq::new(
        section_count(bytes) as nat,
        |i: int| section_at(bytes, section_table_offset(bytes) + SectionHeader::SIZE * i),
    )
}

// Address translation

/// `rva` lies in the virtual range of `section`.
pub open spec fn section_contains(section: SectionHeader, rva: int) -> bool {
    section.rva <= rva < section.rva + section.virtual_size
}

/// The file offset of `rva`, taken as an address of `section`.
pub open spec fn section_offset(section: SectionHeader, rva: int) -> int {
    section.raw + (rva - section.rva)
}

/// `sections[i]` is the first section whose virtual range holds `rva`.
pub open spec fn is_owner(sections: Seq<SectionHeader>, rva: int, i: int) -> bool {
    &&& 0 <= i < sections.len()
    &&& section_contains(sections[i], rva)
    &&& forall|j: int| 0 <= j < i ==> !section_contains(#[trigger] sections[j], rva)
}

/// The file offset of `rva`: its offset in the first section that holds it, and
/// `None` when no section does.
pub open spec fn translate(sections: Seq<SectionHeader>, rva: int) -> Option<int> {
    if exists|i: int| is_owner(sections, rva, i) {
        Some(section_offset(sections[choose|i: int| is_owner(sections, rva, i)], rva))
    } else {
        None
    }
}

/// Translation is total over the section table: an address that lies in the
/// virtual range of some section has a file offset, and it is the offset in
/// the first such section.
pub proof fn lemma_translate_total(sections: Seq<SectionHeader>, rva: int)
    requires
        exists|i: int| 0 <= i < sections.len() && section_contains(#[trigger] sections[i], rva),
    ensures
        translate(sections, rva) is Some,
        exists|i: int|
            is_owner(sections, rva, i) && translate(sections, rva) == Some(
                section_offset(sections[i], rva),
            ),
{
    let some = choose|i: int| 0 <= i < sections.len() && section_contains(
        #[trigger] sections[i],
        rva,
    );
    let first = first_section_holding(sections, rva, some);
    lemma_translate_unique(sections, rva, first);
}

/// The least index, up to `upto`, of a section that holds `rva`.
proof fn first_section_holding(sections: Seq<SectionHeader>, rva: int, upto: int) -> (first: int)
    requires
        0 <= upto < sections.len(),
        section_contains(sections[upto], rva),
    ensures
        is_owner(sections, rva, first),
        first <= upto,
    decreases upto,
{
    if exists|j: int| 0 <= j < upto && section_contains(#[trigger] sections[j], rva) {
        let j = choose|j: int| 0 <= j < upto && section_contains(#[trigger] sections[j], rva);
        first_section_holding(sections, rva, j)
    } else {
        upto
    }
}

/// Translation is single-valued: whichever section is the first to hold `rva`,
/// the file offset of `rva` is its offset in that section.
pub proof fn lemma_translate_unique(sections: Seq<SectionHeader>, rva: int, i: int)
    requires
        is_owner(sections, rva, i),
    ensures
        translate(sections, rva) == Some(section_offset(sections[i], rva)),
{
}

/// An address that no section holds has no file offset.
pub proof fn lemma_translate_unmapped(sections: Seq<SectionHeader>, rva: int)
    requires
        forall|i: int| 0 <= i < sections.len() ==> !section_contains(#[trigger] sections[i], rva),
    ensures
        translate(sections, rva) is None,
{
}

// Strings

/// `bytes[end]` is the first zero byte at or after `at`.
pub open spec fn is_terminator(bytes: Seq<u8>, at: int, end: int) -> bool {
    &&& 0 <= at <= end < bytes.len()
    &&& bytes[end] == 0
    &&& forall|k: int| at <= k < end ==> #[trigger] bytes[k] != 0
}

/// The string that starts at `bytes[at]` and runs up to the next zero byte, each
/// byte taken as the character with that code. `None` when no zero byte follows.
pub open spec fn c_string(bytes: Seq<u8>, at: int) -> Option<Seq<char>> {
    if exists|end: int| is_terminator(bytes, at, end) {
        let end = choose|end: int| is_terminator(bytes, at, end);
        Some(Seq::new((end - at) as nat, |k: int| bytes[at + k] as char))
    } else {
        None
    }
}

/// A string ends at the first zero byte, wherever that is: when `bytes[end]` is
/// the first zero byte at or after `at`, the string at `at` is made of the
/// bytes from `at` up to `end`.
pub proof fn lemma_c_string_ends(bytes: Seq<u8>, at: int, end: int)
    requires
        is_terminator(bytes, at, end),
    ensures
        c_string(bytes, at) == Some(Seq::new((end - at) as nat, |k: int| bytes[at + k] as char)),
{
    let chosen = choose|e: int| is_terminator(bytes, at, e);
    assert(chosen == end);
}

/// Where no zero byte follows, there is no string.
pub proof fn lemma_c_string_unterminated(bytes: Seq<u8>, at: int)
    requires
        forall|k: int| at <= k < bytes.len() ==> #[trigger] bytes[k] != 0,
    ensures
        c_string(bytes, at) is None,
{
}

// Export table

/// The `i`-th exported name of a name-pointer array that starts at `names_at`.
/// `None` when the pointer lies outside `bytes`, points into no section, or
/// points at a string that is not terminated.
pub open spec fn export_name(
    bytes: Seq<u8>,
    sections: Seq<SectionHeader>,
    names_at: int,
    i: int,
) -> Option<Seq<char>> {
    let pointer_at = names_at + ExportNameDescriptor::SIZE * i;
    if in_bounds(bytes, pointer_at, ExportNameDescriptor::SIZE as int) {
        match translate(sections, le_u32(bytes, pointer_at)) {
            Some(at) => c_string(bytes, at),
            None => None,
        }
    } else {
        None
    }
}

/// The exported names of a name-pointer array of `count` entries that starts at
/// `names_at`, in the order of the pointers. `None` when one of them cannot be read.
pub open spec fn export_names_at(
    bytes: Seq<u8>,
    sections: Seq<SectionHeader>,
    names_at: int,
    count: int,
) -> Option<Seq<Seq<char>>> {
    if names_at <= bytes.len() && forall|i: int|
        0 <= i < count ==> (#[trigger] export_name(bytes, sections, names_at, i)) is Some {
        Some(Seq::new(count as nat, |i: int| export_name(bytes, sections, names_at, i).unwrap()))
    } else {
        None
    }
}

/// The head of an export directory whose first byte is `bytes[at]`.
pub open spec fn export_descriptor_at(bytes: Seq<u8>, at: int) -> ExportTableDescriptor {
    ExportTableDescriptor {
        number_of_names: le_u32(bytes, at + ExportTableDescriptor::NUMBER_OF_NAMES_OFFSET) as u32,
        names_rva: le_u32(bytes, at + ExportTableDescriptor::NAMES_RVA_OFFSET) as u32,
    }
}

/// The exported names that an export directory with the head `descriptor`
/// lists. `None` when the array of name pointers is mapped in no section or one
/// of the names cannot be read.
pub open spec fn export_names_of(
    bytes: Seq<u8>,
    sections: Seq<SectionHeader>,
    descriptor: ExportTableDescriptor,
) -> Option<Seq<Seq<char>>> {
    match translate(sections, descriptor.names_rva as int) {
        Some(names_at) => export_names_at(
            bytes,
            sections,
            names_at,
            descriptor.number_of_names as int,
        ),
        None => None,
    }
}

/// The exported names under a directory that is present. `None` when the walk
/// leaves the buffer or the mapped sections.
pub open spec fn export_names(
    bytes: Seq<u8>,
    sections: Seq<SectionHeader>,
    directory: DataDirectory,
) -> Option<Seq<Seq<char>>> {
    match translate(sections, directory.rva as int) {
        Some(at) => if in_bounds(bytes, at, ExportTableDescriptor::NAMES_RVA_OFFSET + 4) {
            export_names_of(bytes, sections, export_descriptor_at(bytes, at))
        } else {
            None
        },
        None => None,
    }
}

/// The export table of an image: `Some(None)` when the directory is absent,
/// `Some(Some(names))` when it is present and well formed, `None` when it is
/// present and malformed.
pub open spec fn exports(
    bytes: Seq<u8>,
    sections: Seq<SectionHeader>,
    directory: DataDirectory,
) -> Option<Option<Seq<Seq<char>>>> {
    if directory_absent(directory) {
        Some(None)
    } else {
        match export_names(bytes, sections, directory) {
            Some(names) => Some(Some(names)),
            None => None,
        }
    }
}

/// Where the array of name pointers of a present export directory starts.
pub open spec fn name_pointers_offset(
    bytes: Seq<u8>,
    sections: Seq<SectionHeader>,
    directory: DataDirectory,
) -> int {
    translate(
        sections,
        export_descriptor_at(
            bytes,
            translate(sections, directory.rva as int).unwrap(),
        ).names_rva as int,
    ).unwrap()
}

/// The number of names that a present export directory announces.
pub open spec fn export_count(
    bytes: Seq<u8>,
    sections: Seq<SectionHeader>,
    directory: DataDirectory,
) -> int {
    export_descriptor_at(
        bytes,
        translate(sections, directory.rva as int).unwrap(),
    ).number_of_names as int
}

// Import table

/// The `width` bytes from `bytes[at]` on are all zero.
pub open spec fn is_zero_record(bytes: Seq<u8>, at: int, width: int) -> bool {
    forall|k: int| at <= k < at + width ==> #[trigger] bytes[k] == 0
}

/// A record is all zero exactly when its copy is.
pub proof fn lemma_zero_record_in_part(bytes: Seq<u8>, at: int, width: int, part: Seq<u8>)
    requires
        in_bounds(bytes, at, width),
        0 <= width,
        part == bytes.subrange(at, at + width),
    ensures
        is_zero_record(part, 0, width) == is_zero_record(bytes, at, width),
{
    if is_zero_record(part, 0, width) {
        assert forall|k: int| at <= k < at + width implies #[trigger] bytes[k] == 0 by {
            assert(part[k - at] == bytes[k]);
        }
    }
    if is_zero_record(bytes, at, width) {
        assert forall|k: int| 0 <= k < width implies #[trigger] part[k] == 0 by {
        }
    }
}

// Lookup tables

/// Where entry `j` of the lookup table at `table_at` starts.
pub open spec fn lookup_entry_offset(table_at: int, j: int) -> int {
    table_at + LookupDescriptor::SIZE * j
}

/// Entry `j` of the lookup table at `table_at` is all zero: it ends the table.
pub open spec fn ends_lookup_table(bytes: Seq<u8>, table_at: int, j: int) -> bool {
    is_zero_record(bytes, lookup_entry_offset(table_at, j), LookupDescriptor::SIZE as int)
}

/// The lookup table at `table_at` holds exactly `count` entries before its
/// terminator, and the terminator lies inside `bytes`.
pub open spec fn is_lookup_count(bytes: Seq<u8>, table_at: int, count: int) -> bool {
    &&& 0 <= count
    &&& in_bounds(bytes, table_at, LookupDescriptor::SIZE * (count + 1))
    &&& ends_lookup_table(bytes, table_at, count)
    &&& forall|j: int| 0 <= j < count ==> !#[trigger] ends_lookup_table(bytes, table_at, j)
}

/// The number of entries in the lookup table at `table_at`; `None` when `bytes`
/// ends before a terminator.
pub open spec fn lookup_count(bytes: Seq<u8>, table_at: int) -> Option<int> {
    if exists|count: int| is_lookup_count(bytes, table_at, count) {
        Some(choose|count: int| is_lookup_count(bytes, table_at, count))
    } else {
        None
    }
}

/// A lookup table has one length: when entry `count` is the first all-zero
/// entry and lies inside `bytes`, the table holds `count` entries.
pub proof fn lemma_lookup_count(bytes: Seq<u8>, table_at: int, count: int)
    requires
        is_lookup_count(bytes, table_at, count),
    ensures
        lookup_count(bytes, table_at) == Some(count),
{
    let chosen = choose|c: int| is_lookup_count(bytes, table_at, c);
    assert(chosen == count);
}

/// The lookup entry at `entry_at` imports by ordinal: the top bit of its 64-bit
/// value is set.
pub open spec fn is_ordinal(bytes: Seq<u8>, entry_at: int) -> bool {
    le_u64(bytes, entry_at) >= 0x8000_0000_0000_0000
}

/// The lookup entry whose first byte is `bytes[at]`.
pub open spec fn lookup_descriptor_at(bytes: Seq<u8>, at: int) -> LookupDescriptor {
    LookupDescriptor {
        import_type: if is_ordinal(bytes, at) {
            1u8
        } else {
            0u8
        },
        name_rva: le_u32(bytes, at) as u32,
    }
}

/// Entry `j` of the lookup table at `table_at` imports by name.
pub open spec fn imports_by_name(bytes: Seq<u8>, table_at: int, j: int) -> bool {
    !is_ordinal(bytes, lookup_entry_offset(table_at, j))
}

/// The name that entry `j` of the lookup table at `table_at` imports. It stands
/// two bytes after the place that the low 32 bits of the entry point to, behind
/// a hint. `None` when that place is mapped in no section or the name is not
/// terminated.
pub open spec fn lookup_name(
    bytes: Seq<u8>,
    sections: Seq<SectionHeader>,
    table_at: int,
    j: int,
) -> Option<Seq<char>> {
    match translate(sections, le_u32(bytes, lookup_entry_offset(table_at, j))) {
        Some(at) => c_string(bytes, at + 2),
        None => None,
    }
}

/// The name of every by-name entry among the first `count` entries of the
/// lookup table at `table_at` can be read.
pub open spec fn lookup_names_readable(
    bytes: Seq<u8>,
    sections: Seq<SectionHeader>,
    table_at: int,
    count: int,
) -> bool {
    forall|j: int|
        0 <= j < count && imports_by_name(bytes, table_at, j) ==> (#[trigger] lookup_name(
            bytes,
            sections,
            table_at,
            j,
        )) is Some
}

/// The names imported by the first `count` entries of the lookup table at
/// `table_at`, in table order, entries that import by ordinal left out.
pub open spec fn lookup_names(
    bytes: Seq<u8>,
    sections: Seq<SectionHeader>,
    table_at: int,
    count: int,
) -> Seq<Seq<char>>
    decreases count,
{
    if count <= 0 {
        Seq::empty()
    } else if imports_by_name(bytes, table_at, count - 1) {
        lookup_names(bytes, sections, table_at, count - 1).push(
            lookup_name(bytes, sections, table_at, count - 1).unwrap(),
        )
    } else {
        lookup_names(bytes, sections, table_at, count - 1)
    }
}

/// The names imported through the lookup table at `table_at`. `None` when the
/// table is not terminated inside `bytes` or one of its names cannot be read.
pub open spec fn lookup_table(
    bytes: Seq<u8>,
    sections: Seq<SectionHeader>,
    table_at: int,
) -> Option<Seq<Seq<char>>> {
    match lookup_count(bytes, table_at) {
        Some(count) => if lookup_names_readable(bytes, sections, table_at, count) {
            Some(lookup_names(bytes, sections, table_at, count))
        } else {
            None
        },
        None => None,
    }
}

// Import descriptors

/// The import descriptor whose first byte is `bytes[at]`.
pub open spec fn import_descriptor_at(bytes: Seq<u8>, at: int) -> ImportDescriptor {
    ImportDescriptor {
        lookup_table_rva: le_u32(bytes, at + ImportDescriptor::LOOKUP_TABLE_RVA_OFFSET) as u32,
        name_rva: le_u32(bytes, at + ImportDescriptor::NAME_OFFSET) as u32,
    }
}

/// The library that `descriptor` describes: the names of its lookup table, and
/// its own name. `None` when either is mapped in no section or cannot be read.
pub open spec fn import_entry_of(
    bytes: Seq<u8>,
    sections: Seq<SectionHeader>,
    descriptor: ImportDescriptor,
) -> Option<ImportEntryView> {
    match translate(sections, descriptor.lookup_table_rva as int) {
        Some(table_at) => match lookup_table(bytes, sections, table_at) {
            Some(names) => match translate(sections, descriptor.name_rva as int) {
                Some(name_at) => match c_string(bytes, name_at) {
                    Some(name) => Some(ImportEntryView { name, names }),
                    None => None,
                },
                None => None,
            },
            None => None,
        },
        None => None,
    }
}

/// Where descriptor `i` of the descriptor array at `at` starts.
pub open spec fn descriptor_offset(at: int, i: int) -> int {
    at + ImportDescriptor::SIZE * i
}

/// Descriptor `i` of the descriptor array at `at` is all zero: it ends the array.
pub open spec fn ends_descriptors(bytes: Seq<u8>, at: int, i: int) -> bool {
    is_zero_record(bytes, descriptor_offset(at, i), ImportDescriptor::SIZE as int)
}

/// The descriptor array at `at` holds exactly `count` descriptors before its
/// terminator, and the terminator lies inside `bytes`.
pub open spec fn is_descriptor_count(bytes: Seq<u8>, at: int, count: int) -> bool {
    &&& 0 <= count
    &&& in_bounds(bytes, at, ImportDescriptor::SIZE * (count + 1))
    &&& ends_descriptors(bytes, at, count)
    &&& forall|i: int| 0 <= i < count ==> !#[trigger] ends_descriptors(bytes, at, i)
}

/// The number of descriptors in the descriptor array at `at`; `None` when
/// `bytes` ends before a terminator.
pub open spec fn descriptor_count(bytes: Seq<u8>, at: int) -> Option<int> {
    if exists|count: int| is_descriptor_count(bytes, at, count) {
        Some(choose|count: int| is_descriptor_count(bytes, at, count))
    } else {
        None
    }
}

/// A descriptor array has one length: when descriptor `count` is the first
/// all-zero descriptor and lies inside `bytes`, the array holds `count` descriptors.
pub proof fn lemma_descriptor_count(bytes: Seq<u8>, at: int, count: int)
    requires
        is_descriptor_count(bytes, at, count),
    ensures
        descriptor_count(bytes, at) == Some(count),
{
    let chosen = choose|c: int| is_descriptor_count(bytes, at, c);
    assert(chosen == count);
}

/// The library that descriptor `i` of the descriptor array at `at` describes.
pub open spec fn import_entry(
    bytes: Seq<u8>,
    sections: Seq<SectionHeader>,
    at: int,
    i: int,
) -> Option<ImportEntryView> {
    import_entry_of(bytes, sections, import_descriptor_at(bytes, descriptor_offset(at, i)))
}

/// The libraries of the descriptor array at `at`, in the order of the
/// descriptors. `None` when the array is not terminated inside `bytes` or one of
/// its descriptors cannot be followed.
pub open spec fn import_entries_at(
    bytes: Seq<u8>,
    sections: Seq<SectionHeader>,
    at: int,
) -> Option<Seq<ImportEntryView>> {
    match descriptor_count(bytes, at) {
        Some(count) => if forall|i: int|
            0 <= i < count ==> (#[trigger] import_entry(bytes, sections, at, i)) is Some {
            Some(Seq::new(count as nat, |i: int| import_entry(bytes, sections, at, i).unwrap()))
        } else {
            None
        },
        None => None,
    }
}

/// The libraries under a directory that is present. `None` when the directory
/// is mapped in no section or the walk leaves the buffer or the mapped sections.
pub open spec fn import_libraries(
    bytes: Seq<u8>,
    sections: Seq<SectionHeader>,
    directory: DataDirectory,
) -> Option<Seq<ImportEntryView>> {
    match translate(sections, directory.rva as int) {
        Some(at) => import_entries_at(bytes, sections, at),
        None => None,
    }
}

/// The import table of an image: `Some(None)` when the directory is absent,
/// `Some(Some(libraries))` when it is present and well formed, `None` when it
/// is present and malformed.
pub open spec fn imports(
    bytes: Seq<u8>,
    sections: Seq<SectionHeader>,
    directory: DataDirectory,
) -> Option<Option<Seq<ImportEntryView>>> {
    if directory_absent(directory) {
        Some(None)
    } else {
        match import_libraries(bytes, sections, directory) {
            Some(libraries) => Some(Some(libraries)),
            None => None,
        }
    }
}

// The whole image

/// What `bytes` holds as an image; `None` when `bytes` is rejected.
pub open spec fn decode(bytes: Seq<u8>) -> Option<Image> {
    if headers_fit(bytes) {
        let sections = section_table(bytes);
        let directories = data_directories(bytes);
        match (
            exports(bytes, sections, directories[0]),
            imports(bytes, sections, directories[1]),
        ) {
            (Some(exports), Some(imports)) => Some(
                Image { sections, directories, exports, imports },
            ),
            _ => None,
        }
    } else {
        None
    }
}

/// The export table keeps the order of the name-pointer array: it has as many
/// names as the directory announces, and its `i`-th name is the string that the
/// `i`-th pointer points to. Nothing is sorted and nothing is left out.
pub proof fn lemma_export_order(bytes: Seq<u8>, i: int)
    requires
        decode(bytes) is Some,
        decode(bytes).unwrap().exports is Some,
    ensures
        ({
            let names = decode(bytes).unwrap().exports.unwrap();
            let sections = section_table(bytes);
            let directory = data_directories(bytes)[0];
            &&& names.len() == export_count(bytes, sections, directory)
            &&& 0 <= i < names.len() ==> export_name(
                bytes,
                sections,
                name_pointers_offset(bytes, sections, directory),
                i,
            ) == Some(names[i])
        }),
{
}

/// The import table keeps the order of the import descriptors: it has one
/// library for each descriptor before the terminator, and its `i`-th library is
/// the one that the `i`-th descriptor describes.
pub proof fn lemma_import_order(bytes: Seq<u8>, i: int)
    requires
        decode(bytes) is Some,
        decode(bytes).unwrap().imports is Some,
    ensures
        ({
            let libraries = decode(bytes).unwrap().imports.unwrap();
            let sections = section_table(bytes);
            let at = translate(sections, data_directories(bytes)[1].rva as int).unwrap();
            &&& descriptor_count(bytes, at) == Some(libraries.len() as int)
            &&& 0 <= i < libraries.len() ==> import_entry(bytes, sections, at, i) == Some(
                libraries[i],
            )
        }),
{
}

/// An export directory that can be walked is read in full: where the directory
/// is present, its head and its array of `names.len()` name pointers lie inside
/// `bytes` and in mapped sections, and pointer `i` points to the string
/// `names[i]`, the export table is `names`. Equal pointers give equal names.
pub proof fn lemma_export_table_read(
    bytes: Seq<u8>,
    sections: Seq<SectionHeader>,
    directory: DataDirectory,
    names: Seq<Seq<char>>,
)
    requires
        !directory_absent(directory),
        translate(sections, directory.rva as int) is Some,
        in_bounds(
            bytes,
            translate(sections, directory.rva as int).unwrap(),
            ExportTableDescriptor::NAMES_RVA_OFFSET + 4,
        ),
        names.len() == export_count(bytes, sections, directory),
        translate(
            sections,
            export_descriptor_at(
                bytes,
                translate(sections, directory.rva as int).unwrap(),
            ).names_rva as int,
        ) is Some,
        name_pointers_offset(bytes, sections, directory) <= bytes.len(),
        forall|i: int|
            0 <= i < names.len() ==> #[trigger] export_name(
                bytes,
                sections,
                name_pointers_offset(bytes, sections, directory),
                i,
            ) == Some(names[i]),
    ensures
        exports(bytes, sections, directory) == Some(Some(names)),
{
    let names_at = name_pointers_offset(bytes, sections, directory);
    let count = export_count(bytes, sections, directory);
    assert(export_names_at(bytes, sections, names_at, count).unwrap() =~= names);
}

/// An image that has neither an export nor an import directory is decoded,
/// with no tables: it is not rejected.
pub proof fn lemma_absent_directories_decoded(bytes: Seq<u8>)
    requires
        headers_fit(bytes),
        directory_absent(data_directories(bytes)[0]),
        directory_absent(data_directories(bytes)[1]),
    ensures
        decode(bytes) == Some(
            Image {
                sections: section_table(bytes),
                directories: data_directories(bytes),
                exports: None,
                imports: None,
            },
        ),
{
}

/// A buffer too short to hold the pointer to the signature is rejected.
pub proof fn lemma_short_buffer_rejected(bytes: Seq<u8>)
    requires
        bytes.len() < PortableExecutable::E_LFANEW_OFFSET + 4,
    ensures
        !has_signature(bytes),
        decode(bytes) is None,
{
}

/// A buffer with anything but the signature where its pointer says is rejected.
pub proof fn lemma_wrong_signature_rejected(bytes: Seq<u8>)
    requires
        be_u32(bytes, new_header_offset(bytes)) != PortableExecutable::NT_SIGNATURE,
    ensures
        !has_signature(bytes),
        decode(bytes) is None,
{
}

/// A buffer that ends before the last section header that its file header
/// announces is rejected, however many sections that is.
pub proof fn lemma_truncated_section_table_rejected(bytes: Seq<u8>)
    requires
        bytes.len() < section_table_offset(bytes) + SectionHeader::SIZE * section_count(bytes),
    ensures
        decode(bytes) is None,
{
}

} // verus!
