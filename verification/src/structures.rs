//! The decoder: fixed-layout records, the section table, and the walks over the
//! export and import tables of an image.

use crate::model::{
    c_string, data_directories, decode, descriptor_offset, directories_at, directory_at,
    ends_descriptors, ends_lookup_table, directory_absent, export_descriptor_at, export_name,
    export_count, export_names, export_names_at, exports, has_signature, import_descriptor_at, import_entries_at,
    import_entry, import_entry_of, import_libraries, imports, is_descriptor_count, is_lookup_count, is_owner,
    is_zero_record, lemma_c_string_ends, lemma_c_string_unterminated, lemma_descriptor_count,
    lemma_lookup_count, lemma_translate_unique, lemma_translate_unmapped,
    lemma_zero_record_in_part, lookup_descriptor_at,
    lookup_entry_offset, lookup_name, lookup_names, lookup_names_readable, lookup_table,
    name_pointers_offset,
    section_at, section_contains, section_count, section_offset, section_table, section_table_offset,
    signature_in_bounds, translate, Image, ImportEntryView,
};
use crate::utils::{
    from_be_bytes, from_le_bytes, in_bounds, le_u16, le_u32, right_slice, split_at,
};
use vstd::prelude::*;

verus! {

broadcast use vstd::layout::layout_of_primitives;

/// The standard library's `String::push`, taken on trust as documented: the
/// string afterwards is the string before with `ch` appended at its end.
pub assume_specification[ String::push ](string: &mut String, ch: char)
    ensures
        final(string)@ == old(string)@.push(ch),
;

/// Tells whether every byte of `data` is zero.
fn all_zero(data: &[u8]) -> (zero: bool)
    ensures
        zero == is_zero_record(data@, 0, data@.len() as int),
{
    let mut i: usize = 0;
    while i < data.len()
        invariant
            i <= data@.len(),
            forall|k: int| 0 <= k < i ==> #[trigger] data@[k] == 0,
        decreases data@.len() - i,
    {
        if data[i] != 0 {
            return false;
        }
        i += 1;
    }
    true
}

/// An image under analysis: the bytes it was decoded from, and what they hold.
#[derive(Debug)]
pub struct PortableExecutable<'a> {
    raw_data: &'a [u8],
    coff_header: CoffHeader,
    optional_header: OptionalHeader,
    section_headers: Vec<SectionHeader>,
    export_table: Option<ExportTable>,
    import_table: Option<ImportTable>,
}

impl<'a> View for PortableExecutable<'a> {
    type V = Image;

    closed spec fn view(&self) -> Image {
        Image {
            sections: self.section_headers@,
            directories: self.optional_header.data_directories@,
            exports: match self.export_table {
                Some(table) => Some(table@),
                None => None,
            },
            imports: match self.import_table {
                Some(table) => Some(table@),
                None => None,
            },
        }
    }
}

impl<'a> PortableExecutable<'a> {
    /// Where the pointer to the signature stands.
    pub const E_LFANEW_OFFSET: usize = 0x3C;

    /// The signature, `PE\0\0`, read as a big-endian number.
    pub const NT_SIGNATURE: u32 = 0x50450000;

    /// The bytes that the image was decoded from.
    pub closed spec fn bytes(&self) -> Seq<u8> {
        self.raw_data@
    }

    /// The number of sections that the file header of the image announces.
    pub closed spec fn announced_sections(&self) -> int {
        self.coff_header.number_of_sections as int
    }

    /// The image holds exactly what its bytes decode to, and as many sections as
    /// its file header announces.
    pub open spec fn wf(&self) -> bool {
        &&& decode(self.bytes()) == Some(self@)
        &&& self.announced_sections() == section_count(self.bytes())
        &&& self.announced_sections() == self@.sections.len()
    }

    /// Tells whether `data` carries the signature: `None` when `data` ends before
    /// the signature or the pointer to it, else whether the signature is the right one.
    pub fn is_correct_pe(data: &[u8]) -> (correct: Option<bool>)
        ensures
            correct == if signature_in_bounds(data@) {
                Some(has_signature(data@))
            } else {
                None
            },
    {
        let e_lfanew = from_le_bytes::<i32, 4>(right_slice(data, Self::E_LFANEW_OFFSET)?)?;
        if e_lfanew < 0 {
            return None;
        }
        let signature = from_be_bytes::<u32, 4>(right_slice(data, e_lfanew as usize)?)?;
        Some(signature == Self::NT_SIGNATURE)
    }

    /// Decodes `data` as an image: checks the signature, reads the headers and
    /// the section table, then walks the export and the import directory. `None`
    /// when `data` is rejected.
    pub fn create(data: &'a [u8]) -> (image: Option<Self>)
        ensures
            image is Some <==> decode(data@) is Some,
            image matches Some(pe) ==> pe.bytes() == data@ && pe.wf(),
    {
        if let Some(true) = Self::is_correct_pe(data) {
            let e_lfanew = from_le_bytes::<i32, 4>(right_slice(data, Self::E_LFANEW_OFFSET)?)?
                as usize;

            let raw_data = data;
            let mut rest = right_slice(data, e_lfanew + 4)?;

            let coff_header = Self::create_coff_header(&mut rest)?;
            let optional_header = Self::create_optional_header(&mut rest)?;
            assert(optional_header.data_directories@ =~= data_directories(data@));
            let mut section_headers = Vec::new();
            for i in 0..coff_header.number_of_sections
                invariant
                    has_signature(data@),
                    coff_header.number_of_sections == section_count(data@),
                    section_table_offset(data@) + SectionHeader::SIZE * i <= data@.len(),
                    rest@ == data@.subrange(
                        section_table_offset(data@) + SectionHeader::SIZE * i,
                        data@.len() as int,
                    ),
                    section_headers@.len() == i,
                    forall|k: int|
                        0 <= k < i ==> section_headers@[k] == section_at(
                            data@,
                            section_table_offset(data@) + SectionHeader::SIZE * k,
                        ),
            {
                section_headers.push(Self::create_section_header(&mut rest)?);
            }
            assert(section_headers@ =~= section_table(data@));

            let mut portable_executable = PortableExecutable {
                raw_data,
                coff_header,
                optional_header,
                section_headers,
                export_table: None,
                import_table: None,
            };

            portable_executable.export_table = portable_executable.create_export_table()?;
            portable_executable.import_table = portable_executable.create_import_table()?;

            Some(portable_executable)
        } else {
            None
        }
    }

    /// Takes a file header off the front of `*data_ref`. When `*data_ref` is too
    /// short for one, it is left as it was.
    fn create_coff_header(data_ref: &mut &[u8]) -> (header: Option<CoffHeader>)
        ensures
            header is Some <==> in_bounds(old(data_ref)@, 0, CoffHeader::SIZE as int),
            header matches Some(h) ==> h.number_of_sections == le_u16(
                old(data_ref)@,
                CoffHeader::NUMBER_OF_SECTIONS_OFFSET as int,
            ) && final(data_ref)@ == old(data_ref)@.subrange(
                CoffHeader::SIZE as int,
                old(data_ref)@.len() as int,
            ),
            header is None ==> final(data_ref)@ == old(data_ref)@,
    {
        let (header_data, new_data) = split_at(data_ref, CoffHeader::SIZE)?;
        *data_ref = new_data;
        CoffHeader::create(header_data)
    }

    /// Takes an optional header off the front of `*data_ref`. When `*data_ref` is
    /// too short for one, it is left as it was.
    fn create_optional_header(data_ref: &mut &[u8]) -> (header: Option<OptionalHeader>)
        ensures
            header is Some <==> in_bounds(old(data_ref)@, 0, OptionalHeader::SIZE as int),
            header matches Some(h) ==> h.data_directories@ == directories_at(old(data_ref)@, 0)
                && final(data_ref)@ == old(data_ref)@.subrange(
                OptionalHeader::SIZE as int,
                old(data_ref)@.len() as int,
            ),
            header is None ==> final(data_ref)@ == old(data_ref)@,
    {
        let (header_data, new_data) = split_at(data_ref, OptionalHeader::SIZE)?;
        *data_ref = new_data;
        OptionalHeader::create(header_data)
    }

    /// Takes a section header off the front of `*data_ref`. When `*data_ref` is
    /// too short for one, it is left as it was.
    fn create_section_header(data_ref: &mut &[u8]) -> (header: Option<SectionHeader>)
        ensures
            header is Some <==> in_bounds(old(data_ref)@, 0, SectionHeader::SIZE as int),
            header matches Some(h) ==> h == section_at(old(data_ref)@, 0) && final(data_ref)@
                == old(data_ref)@.subrange(
                SectionHeader::SIZE as int,
                old(data_ref)@.len() as int,
            ),
            header is None ==> final(data_ref)@ == old(data_ref)@,
    {
        let (header_data, new_data) = split_at(data_ref, SectionHeader::SIZE)?;
        *data_ref = new_data;
        SectionHeader::create(header_data)
    }

    /// Translates a relative virtual address to a file offset: the offset of
    /// `rva` in the first section whose virtual range holds it. `None` when no
    /// section holds it.
    pub fn raw_from_rva(&self, rva: u32) -> (raw: Option<u64>)
        ensures
            raw is Some <==> exists|i: int|
                0 <= i < self@.sections.len() && section_contains(
                    #[trigger] self@.sections[i],
                    rva as int,
                ),
            forall|i: int|
                is_owner(self@.sections, rva as int, i) ==> raw == Some(
                    section_offset(self@.sections[i], rva as int) as u64,
                ),
            match raw {
                Some(offset) => translate(self@.sections, rva as int) == Some(offset as int),
                None => translate(self@.sections, rva as int) is None,
            },
    {
        let mut i: usize = 0;
        while i < self.section_headers.len()
            invariant
                i <= self.section_headers@.len(),
                forall|j: int|
                    0 <= j < i ==> !section_contains(#[trigger] self.section_headers@[j], rva as int),
            decreases self.section_headers@.len() - i,
        {
            let section = &self.section_headers[i];
            if section.rva <= rva && (rva as u64) < section.rva as u64 + section.virtual_size as u64 {
                proof {
                    lemma_translate_unique(self.section_headers@, rva as int, i as int);
                }
                return Some(section.raw as u64 + (rva - section.rva) as u64);
            }
            i += 1;
        }
        proof {
            lemma_translate_unmapped(self.section_headers@, rva as int);
        }
        None
    }

    /// The bytes of the image from offset `raw` on; `None` when `raw` is past the
    /// end of the image.
    fn slice_from(&self, raw: u64) -> (rest: Option<&'a [u8]>)
        ensures
            raw <= self.bytes().len() ==> (rest matches Some(part) && part@
                == self.bytes().subrange(raw as int, self.bytes().len() as int)),
            raw > self.bytes().len() ==> rest is None,
    {
        if raw > self.raw_data.len() as u64 {
            return None;
        }
        right_slice(self.raw_data, raw as usize)
    }

    /// Walks the export directory. The result is `Some(None)` when the image has
    /// no export directory, `Some(Some(table))` when it has one and every name
    /// can be read, and `None` when the walk leaves the image or its sections.
    fn create_export_table(&self) -> (table: Option<Option<ExportTable>>)
        requires
            self@.directories.len() == OptionalHeader::DIR_ENTRIES_COUNT,
        ensures
            match table {
                Some(Some(t)) => exports(self.bytes(), self@.sections, self@.directories[0])
                    == Some(Some(t@)),
                Some(None) => exports(self.bytes(), self@.sections, self@.directories[0])
                    == Some(None::<Seq<Seq<char>>>),
                None => exports(self.bytes(), self@.sections, self@.directories[0]) is None,
            },
            table matches Some(Some(t)) ==> t@.len() == export_count(
                self.bytes(),
                self@.sections,
                self@.directories[0],
            ) && forall|i: int|
                0 <= i < t@.len() ==> #[trigger] export_name(
                    self.bytes(),
                    self@.sections,
                    name_pointers_offset(self.bytes(), self@.sections, self@.directories[0]),
                    i,
                ) == Some(t@[i]),
    {
        let mut export_table = ExportTable { names: Vec::new() };

        let export_table_rva = self.optional_header.data_directories[0].rva;
        if export_table_rva == 0 && self.optional_header.data_directories[0].size == 0 {
            return Some(None);
        }
        let export_table_raw = self.raw_from_rva(export_table_rva)?;

        let export_table_descriptor = ExportTableDescriptor::create(
            self.slice_from(export_table_raw)?,
        )?;

        let names_raw = self.raw_from_rva(export_table_descriptor.names_rva)?;
        let mut data = self.slice_from(names_raw)?;
        let ghost bytes = self.bytes();
        let ghost sections = self@.sections;
        let ghost directory = self@.directories[0];
        for i in 0..export_table_descriptor.number_of_names
            invariant
                bytes == self.bytes(),
                sections == self@.sections,
                !directory_absent(directory),
                exports(bytes, sections, directory) == exports(
                    self.bytes(),
                    self@.sections,
                    self@.directories[0],
                ),
                export_names(bytes, sections, directory) == export_names_at(
                    bytes,
                    sections,
                    names_raw as int,
                    export_table_descriptor.number_of_names as int,
                ),
                names_raw + ExportNameDescriptor::SIZE * i <= bytes.len(),
                data@ == bytes.subrange(
                    names_raw + ExportNameDescriptor::SIZE * i,
                    bytes.len() as int,
                ),
                export_table.names@.len() == i,
                forall|k: int|
                    0 <= k < i ==> #[trigger] export_name(bytes, sections, names_raw as int, k)
                        == Some(export_table.names@[k]@),
        {
            let (export_name_descriptor_data, new_data) = split_at(
                data,
                ExportNameDescriptor::SIZE,
            )?;
            data = new_data;

            let export_name_descriptor = ExportNameDescriptor::create(
                export_name_descriptor_data,
            )?;
            let export_name_raw = self.raw_from_rva(export_name_descriptor.name_rva)?;
            let name = self.string_from_raw(export_name_raw);
            assert(match name {
                Some(s) => export_name(bytes, sections, names_raw as int, i as int) == Some(s@),
                None => export_name(bytes, sections, names_raw as int, i as int) is None,
            });
            export_table.names.push(name?);
        }

        Some(Some(export_table))
    }

    /// Walks the import directory: descriptor by descriptor up to the all-zero
    /// terminator. The result is `Some(None)` when the image has no import
    /// directory, `Some(Some(table))` when it has one and every library can be
    /// read, and `None` when the walk leaves the image or its sections.
    fn create_import_table(&self) -> (table: Option<Option<ImportTable>>)
        requires
            self@.directories.len() == OptionalHeader::DIR_ENTRIES_COUNT,
        ensures
            match table {
                Some(Some(t)) => imports(self.bytes(), self@.sections, self@.directories[1])
                    == Some(Some(t@)),
                Some(None) => imports(self.bytes(), self@.sections, self@.directories[1])
                    == Some(None::<Seq<ImportEntryView>>),
                None => imports(self.bytes(), self@.sections, self@.directories[1]) is None,
            },
    {
        let mut import_table = ImportTable { entries: Vec::new() };

        let import_table_rva = self.optional_header.data_directories[1].rva;
        if import_table_rva == 0 && self.optional_header.data_directories[1].size == 0 {
            return Some(None);
        }
        let import_table_raw = self.raw_from_rva(import_table_rva)?;

        let ghost bytes = self.bytes();
        let ghost sections = self@.sections;
        let ghost at = import_table_raw as int;
        let mut data = self.slice_from(import_table_raw)?;
        loop
            invariant_except_break
                data@ == bytes.subrange(
                    descriptor_offset(at, import_table.entries@.len() as int),
                    bytes.len() as int,
                ),
            invariant
                bytes == self.bytes(),
                sections == self@.sections,
                !directory_absent(self@.directories[1]),
                import_libraries(bytes, sections, self@.directories[1]) == import_entries_at(
                    bytes,
                    sections,
                    at,
                ),
                0 <= at,
                descriptor_offset(at, import_table.entries@.len() as int) <= bytes.len(),
                forall|i: int|
                    0 <= i < import_table.entries@.len() ==> !#[trigger] ends_descriptors(
                        bytes,
                        at,
                        i,
                    ),
                forall|i: int|
                    0 <= i < import_table.entries@.len() ==> #[trigger] import_entry(
                        bytes,
                        sections,
                        at,
                        i,
                    ) == Some(import_table.entries@[i]@),
            ensures
                is_descriptor_count(bytes, at, import_table.entries@.len() as int),
            decreases data@.len(),
        {
            let ghost count = import_table.entries@.len() as int;
            let (import_descriptor_data, new_data) = split_at(data, ImportDescriptor::SIZE)?;
            data = new_data;
            proof {
                assert(import_descriptor_data@ =~= bytes.subrange(
                    descriptor_offset(at, count),
                    descriptor_offset(at, count) + ImportDescriptor::SIZE,
                ));
                lemma_zero_record_in_part(
                    bytes,
                    descriptor_offset(at, count),
                    ImportDescriptor::SIZE as int,
                    import_descriptor_data@,
                );
            }
            if all_zero(import_descriptor_data) {
                break ;
            }
            let import_descriptor = ImportDescriptor::create(import_descriptor_data)?;
            let entry = self.create_import_table_entry(&import_descriptor);
            assert(match entry {
                Some(e) => import_entry(bytes, sections, at, count) == Some(e@),
                None => import_entry(bytes, sections, at, count) is None,
            });
            import_table.entries.push(entry?);
        }
        proof {
            lemma_descriptor_count(bytes, at, import_table.entries@.len() as int);
        }

        Some(Some(import_table))
    }

    /// Follows one import descriptor: first its lookup table, entry by entry up
    /// to the all-zero terminator, skipping the entries that import by ordinal;
    /// then the name of the library. `None` when the walk leaves the image or its
    /// sections.
    fn create_import_table_entry(&self, descriptor: &ImportDescriptor) -> (entry: Option<
        ImportTableEntry,
    >)
        ensures
            match entry {
                Some(e) => import_entry_of(self.bytes(), self@.sections, *descriptor) == Some(e@),
                None => import_entry_of(self.bytes(), self@.sections, *descriptor) is None,
            },
    {
        let mut import_table_entry = ImportTableEntry {
            lookup_table: LookupTable { entries: Vec::new() },
            name: String::new(),
        };

        let lookup_table_raw = self.raw_from_rva(descriptor.lookup_table_rva)?;

        let ghost bytes = self.bytes();
        let ghost sections = self@.sections;
        let ghost table_at = lookup_table_raw as int;
        let ghost mut count: int = 0;
        let mut data = self.slice_from(lookup_table_raw)?;
        loop
            invariant_except_break
                data@ == bytes.subrange(lookup_entry_offset(table_at, count), bytes.len() as int),
            invariant
                bytes == self.bytes(),
                sections == self@.sections,
                translate(sections, descriptor.lookup_table_rva as int) == Some(table_at),
                0 <= count,
                0 <= table_at,
                lookup_entry_offset(table_at, count) <= bytes.len(),
                forall|j: int| 0 <= j < count ==> !#[trigger] ends_lookup_table(bytes, table_at, j),
                lookup_names_readable(bytes, sections, table_at, count),
                import_table_entry.lookup_table@ == lookup_names(bytes, sections, table_at, count),
            ensures
                is_lookup_count(bytes, table_at, count),
            decreases data@.len(),
        {
            let (lookup_descriptor_data, new_data) = split_at(data, LookupDescriptor::SIZE)?;
            data = new_data;
            proof {
                assert(lookup_descriptor_data@ =~= bytes.subrange(
                    lookup_entry_offset(table_at, count),
                    lookup_entry_offset(table_at, count) + LookupDescriptor::SIZE,
                ));
                lemma_zero_record_in_part(
                    bytes,
                    lookup_entry_offset(table_at, count),
                    LookupDescriptor::SIZE as int,
                    lookup_descriptor_data@,
                );
            }
            if all_zero(lookup_descriptor_data) {
                break ;
            }
            let lookup_descriptor = LookupDescriptor::create(lookup_descriptor_data)?;
            if lookup_descriptor.import_type == 0 {
                let import_name_raw = self.raw_from_rva(lookup_descriptor.name_rva)?;
                let import_name = self.string_from_raw(import_name_raw + 2);
                assert(match import_name {
                    Some(s) => lookup_name(bytes, sections, table_at, count) == Some(s@),
                    None => lookup_name(bytes, sections, table_at, count) is None,
                });
                let lookup_table_entry = LookupTableEntry { name: import_name? };
                import_table_entry.lookup_table.entries.push(lookup_table_entry);
            }
            proof {
                count = count + 1;
            }
        }
        proof {
            lemma_lookup_count(bytes, table_at, count);
        }

        let name_raw = self.raw_from_rva(descriptor.name_rva)?;
        let name = self.string_from_raw(name_raw)?;

        import_table_entry.name = name;
        Some(import_table_entry)
    }

    /// The export table of the image, when it has one.
    pub fn get_export_table(&self) -> (table: Option<&ExportTable>)
        ensures
            match table {
                Some(t) => self@.exports == Some(t@),
                None => self@.exports is None,
            },
    {
        self.export_table.as_ref()
    }

    /// The import table of the image, when it has one.
    pub fn get_import_table(&self) -> (table: Option<&ImportTable>)
        ensures
            match table {
                Some(t) => self@.imports == Some(t@),
                None => self@.imports is None,
            },
    {
        self.import_table.as_ref()
    }

    /// Reads the string that starts at offset `raw` and ends before the next zero
    /// byte, taking each byte as the character with that code. `None` when the
    /// bytes end before a zero byte.
    pub fn string_from_raw(&self, raw: u64) -> (string: Option<String>)
        ensures
            match string {
                Some(s) => c_string(self.bytes(), raw as int) == Some(s@),
                None => c_string(self.bytes(), raw as int) is None,
            },
    {
        if raw >= self.raw_data.len() as u64 {
            return None;
        }
        let start = raw as usize;
        let mut res = String::new();
        let mut i: usize = start;
        while i < self.raw_data.len()
            invariant
                start == raw,
                start <= i <= self.raw_data@.len(),
                forall|k: int| start <= k < i ==> #[trigger] self.raw_data@[k] != 0,
                res@ == Seq::new((i - start) as nat, |k: int| self.raw_data@[start + k] as char),
            decreases self.raw_data@.len() - i,
        {
            let byte = self.raw_data[i];
            if byte == 0 {
                proof {
                    lemma_c_string_ends(self.raw_data@, start as int, i as int);
                }
                return Some(res);
            }
            res.push(byte as char);
            i += 1;
        }
        proof {
            lemma_c_string_unterminated(self.raw_data@, start as int);
        }
        None
    }
}

/// The file header, of which only the number of sections is kept.
#[derive(Debug)]
pub struct CoffHeader {
    pub number_of_sections: u16,
}

impl CoffHeader {
    /// Where the number of sections stands in the header.
    pub const NUMBER_OF_SECTIONS_OFFSET: usize = 0x2;

    /// The number of bytes that the header takes in the file.
    pub const SIZE: usize = 20;

    /// Decodes a file header from the front of `data`.
    pub fn create(data: &[u8]) -> (header: Option<Self>)
        ensures
            header == if in_bounds(data@, 0, Self::NUMBER_OF_SECTIONS_OFFSET + 2) {
                Some(
                    CoffHeader {
                        number_of_sections: le_u16(
                            data@,
                            Self::NUMBER_OF_SECTIONS_OFFSET as int,
                        ) as u16,
                    },
                )
            } else {
                None
            },
    {
        Some(
            CoffHeader {
                number_of_sections: from_le_bytes::<u16, 2>(
                    right_slice(data, Self::NUMBER_OF_SECTIONS_OFFSET)?,
                )?,
            },
        )
    }
}

/// One data directory: where a table of the image is mapped, and its size.
#[derive(Debug)]
pub struct DataDirectory {
    pub rva: u32,
    pub size: u32,
}

impl DataDirectory {
    /// Decodes a data directory from the front of `data`.
    pub fn create(data: &[u8]) -> (directory: Option<Self>)
        ensures
            directory == if in_bounds(data@, 0, 8) {
                Some(directory_at(data@, 0))
            } else {
                None
            },
    {
        Some(
            DataDirectory {
                rva: from_le_bytes::<u32, 4>(data)?,
                size: from_le_bytes::<u32, 4>(right_slice(data, 4)?)?,
            },
        )
    }
}

/// One section header: a virtual range and the file offset it is read from.
#[derive(Debug)]
pub struct SectionHeader {
    pub virtual_size: u32,
    pub rva: u32,
    pub raw: u32,
}

impl SectionHeader {
    /// Where the size of the virtual range stands in the header.
    pub const VIRTUAL_SIZE_OFFSET: usize = 0x8;

    /// Where the start of the virtual range stands in the header.
    pub const RVA_OFFSET: usize = 0xC;

    /// Where the file offset of the section stands in the header.
    pub const RAW_OFFSET: usize = 0x14;

    /// The number of bytes that the header takes in the file.
    pub const SIZE: usize = 40;

    /// Decodes a section header from the front of `data`.
    pub fn create(data: &[u8]) -> (header: Option<Self>)
        ensures
            header == if in_bounds(data@, 0, Self::RAW_OFFSET + 4) {
                Some(section_at(data@, 0))
            } else {
                None
            },
    {
        Some(
            SectionHeader {
                virtual_size: from_le_bytes::<u32, 4>(
                    right_slice(data, Self::VIRTUAL_SIZE_OFFSET)?,
                )?,
                rva: from_le_bytes::<u32, 4>(right_slice(data, Self::RVA_OFFSET)?)?,
                raw: from_le_bytes::<u32, 4>(right_slice(data, Self::RAW_OFFSET)?)?,
            },
        )
    }
}

/// The optional header, of which only the data directories are kept.
#[derive(Debug)]
pub struct OptionalHeader {
    pub data_directories: Vec<DataDirectory>,
}

impl OptionalHeader {
    /// The number of data directories.
    pub const DIR_ENTRIES_COUNT: usize = 16;

    /// Where the first data directory stands in the header.
    pub const DIRS_OFFSET: usize = 0x70;

    /// The number of bytes that the header takes in the file.
    pub const SIZE: usize = 240;

    /// Decodes an optional header from the front of `data`.
    pub fn create(data: &[u8]) -> (header: Option<Self>)
        ensures
            header is Some <==> in_bounds(data@, 0, Self::SIZE as int),
            header matches Some(h) ==> h.data_directories@ == directories_at(data@, 0),
    {
        let mut data_directories = Vec::new();
        for i in 0..Self::DIR_ENTRIES_COUNT
            invariant
                data_directories@.len() == i,
                i > 0 ==> in_bounds(data@, 0, Self::DIRS_OFFSET + 8 * i),
                forall|k: int|
                    0 <= k < i ==> data_directories@[k] == directory_at(
                        data@,
                        Self::DIRS_OFFSET + 8 * k,
                    ),
        {
            data_directories.push(
                DataDirectory::create(right_slice(data, Self::DIRS_OFFSET + 8 * i)?)?,
            );
        }
        Some(OptionalHeader { data_directories })
    }
}

/// The head of the export directory: how many names it exports, and where the
/// array of pointers to them is mapped.
#[derive(Debug)]
pub struct ExportTableDescriptor {
    pub number_of_names: u32,
    pub names_rva: u32,
}

impl ExportTableDescriptor {
    /// The number of bytes that the whole head takes in the file. Decoding
    /// reads no further than the pointer to the names.
    pub const SIZE: usize = 40;

    /// Where the number of names stands in the head.
    pub const NUMBER_OF_NAMES_OFFSET: usize = 24;

    /// Where the pointer to the array of name pointers stands in the head.
    pub const NAMES_RVA_OFFSET: usize = 32;

    /// Decodes the head of an export directory from the front of `data`.
    pub fn create(data: &[u8]) -> (descriptor: Option<Self>)
        ensures
            descriptor == if in_bounds(data@, 0, Self::NAMES_RVA_OFFSET + 4) {
                Some(export_descriptor_at(data@, 0))
            } else {
                None
            },
    {
        let number_of_names = from_le_bytes::<u32, 4>(
            right_slice(data, Self::NUMBER_OF_NAMES_OFFSET)?,
        )?;
        let names_rva = from_le_bytes::<u32, 4>(right_slice(data, Self::NAMES_RVA_OFFSET)?)?;

        Some(ExportTableDescriptor { number_of_names, names_rva })
    }
}

/// One entry of the name-pointer array: where an exported name is mapped.
#[derive(Debug)]
pub struct ExportNameDescriptor {
    pub name_rva: u32,
}

impl ExportNameDescriptor {
    /// The number of bytes that one name pointer takes in the file.
    pub const SIZE: usize = 4;

    /// Decodes a name pointer from the front of `data`.
    pub fn create(data: &[u8]) -> (descriptor: Option<Self>)
        ensures
            descriptor == if in_bounds(data@, 0, Self::SIZE as int) {
                Some(ExportNameDescriptor { name_rva: le_u32(data@, 0) as u32 })
            } else {
                None
            },
    {
        Some(ExportNameDescriptor { name_rva: from_le_bytes::<u32, 4>(data)? })
    }
}

/// One import descriptor: where the lookup table and the name of a library are mapped.
#[derive(Debug)]
pub struct ImportDescriptor {
    pub lookup_table_rva: u32,
    pub name_rva: u32,
}

impl ImportDescriptor {
    /// The number of bytes that the descriptor takes in the file.
    pub const SIZE: usize = 20;

    /// Where the pointer to the lookup table stands in the descriptor.
    pub const LOOKUP_TABLE_RVA_OFFSET: usize = 0;

    /// Where the pointer to the name of the library stands in the descriptor.
    pub const NAME_OFFSET: usize = 0xC;

    /// Decodes an import descriptor from the front of `data`.
    pub fn create(data: &[u8]) -> (descriptor: Option<Self>)
        ensures
            descriptor == if in_bounds(data@, 0, Self::NAME_OFFSET + 4) {
                Some(import_descriptor_at(data@, 0))
            } else {
                None
            },
    {
        Some(
            ImportDescriptor {
                lookup_table_rva: from_le_bytes::<u32, 4>(
                    right_slice(data, Self::LOOKUP_TABLE_RVA_OFFSET)?,
                )?,
                name_rva: from_le_bytes::<u32, 4>(right_slice(data, Self::NAME_OFFSET)?)?,
            },
        )
    }
}

/// One entry of a lookup table. `import_type` is 1 for an import by ordinal and
/// 0 for an import by name, whose hint and name are mapped at `name_rva`.
#[derive(Debug)]
pub struct LookupDescriptor {
    pub import_type: u8,
    pub name_rva: u32,
}

impl LookupDescriptor {
    /// The number of bytes that one lookup entry takes in the file.
    pub const SIZE: usize = 8;

    /// Decodes a lookup entry from the front of `data`.
    pub fn create(data: &[u8]) -> (descriptor: Option<Self>)
        ensures
            descriptor == if in_bounds(data@, 0, Self::SIZE as int) {
                Some(lookup_descriptor_at(data@, 0))
            } else {
                None
            },
    {
        let number = from_le_bytes::<u64, 8>(data)?;
        assert(((number >> 63) & 1) == (if number >= 0x8000_0000_0000_0000u64 {
            1u64
        } else {
            0u64
        })) by (bit_vector);
        let import_type = ((number >> 63) & 1) as u8;

        let name_rva = from_le_bytes::<u32, 4>(data)?;

        Some(LookupDescriptor { import_type, name_rva })
    }
}

/// The exported names of an image, in the order of its name-pointer array.
#[derive(Debug)]
pub struct ExportTable {
    pub names: Vec<String>,
}

impl View for ExportTable {
    type V = Seq<Seq<char>>;

    open spec fn view(&self) -> Seq<Seq<char>> {
        Seq::new(self.names@.len(), |i: int| self.names@[i]@)
    }
}

/// The imported libraries of an image, in the order of its import descriptors.
#[derive(Debug, Clone)]
pub struct ImportTable {
    pub entries: Vec<ImportTableEntry>,
}

impl View for ImportTable {
    type V = Seq<ImportEntryView>;

    open spec fn view(&self) -> Seq<ImportEntryView> {
        Seq::new(self.entries@.len(), |i: int| self.entries@[i]@)
    }
}

/// One imported library: its name, and the functions imported from it by name.
#[derive(Debug, Clone)]
pub struct ImportTableEntry {
    pub lookup_table: LookupTable,
    pub name: String,
}

impl View for ImportTableEntry {
    type V = ImportEntryView;

    open spec fn view(&self) -> ImportEntryView {
        ImportEntryView { name: self.name@, names: self.lookup_table@ }
    }
}

/// The functions imported from one library by name, in the order of its lookup table.
#[derive(Debug, Clone)]
pub struct LookupTable {
    pub entries: Vec<LookupTableEntry>,
}

impl View for LookupTable {
    type V = Seq<Seq<char>>;

    open spec fn view(&self) -> Seq<Seq<char>> {
        Seq::new(self.entries@.len(), |i: int| self.entries@[i]@)
    }
}

/// One function imported by name.
#[derive(Debug, Clone)]
pub struct LookupTableEntry {
    pub name: String,
}

impl View for LookupTableEntry {
    type V = Seq<char>;

    open spec fn view(&self) -> Seq<char> {
        self.name@
    }
}

} // verus!
