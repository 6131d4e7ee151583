use pe_parser::structures::{
    CoffHeader, DataDirectory, ExportNameDescriptor, ExportTableDescriptor, ImportDescriptor,
    LookupDescriptor, OptionalHeader, SectionHeader,
};

fn put_u32(buffer: &mut [u8], at: usize, value: u32) {
    buffer[at..at + 4].copy_from_slice(&value.to_le_bytes());
}

#[test]
fn record_sizes_and_offsets() {
    assert_eq!(CoffHeader::SIZE, 20);
    assert_eq!(CoffHeader::NUMBER_OF_SECTIONS_OFFSET, 2);
    assert_eq!(OptionalHeader::SIZE, 240);
    assert_eq!(OptionalHeader::DIRS_OFFSET, 0x70);
    assert_eq!(OptionalHeader::DIR_ENTRIES_COUNT, 16);
    assert_eq!(SectionHeader::SIZE, 40);
    assert_eq!(SectionHeader::VIRTUAL_SIZE_OFFSET, 8);
    assert_eq!(SectionHeader::RVA_OFFSET, 12);
    assert_eq!(SectionHeader::RAW_OFFSET, 20);
    assert_eq!(ExportTableDescriptor::SIZE, 40);
    assert_eq!(ExportTableDescriptor::NUMBER_OF_NAMES_OFFSET, 24);
    assert_eq!(ExportTableDescriptor::NAMES_RVA_OFFSET, 32);
    assert_eq!(ExportNameDescriptor::SIZE, 4);
    assert_eq!(ImportDescriptor::SIZE, 20);
    assert_eq!(ImportDescriptor::LOOKUP_TABLE_RVA_OFFSET, 0);
    assert_eq!(ImportDescriptor::NAME_OFFSET, 12);
    assert_eq!(LookupDescriptor::SIZE, 8);
}

#[test]
fn coff_header_reads_the_section_count() {
    let mut data = [0u8; 20];
    data[0] = 0x4C;
    data[1] = 0x01;
    data[2] = 0x05;
    data[3] = 0x01;
    let header = CoffHeader::create(&data).unwrap();
    assert_eq!(header.number_of_sections, 0x0105);
}

#[test]
fn coff_header_needs_four_bytes() {
    assert!(CoffHeader::create(&[]).is_none());
    assert!(CoffHeader::create(&[0, 0]).is_none());
    assert!(CoffHeader::create(&[0, 0, 3]).is_none());
    let header = CoffHeader::create(&[0, 0, 3, 0]).unwrap();
    assert_eq!(header.number_of_sections, 3);
}

#[test]
fn data_directory_reads_both_fields() {
    let data = [0x00, 0x10, 0x00, 0x00, 0x28, 0x00, 0x00, 0x00, 0xAA];
    let directory = DataDirectory::create(&data).unwrap();
    assert_eq!(directory.rva, 0x1000);
    assert_eq!(directory.size, 0x28);
}

#[test]
fn data_directory_needs_eight_bytes() {
    assert!(DataDirectory::create(&[0u8; 7]).is_none());
    assert!(DataDirectory::create(&[0u8; 3]).is_none());
    let directory = DataDirectory::create(&[0xFFu8; 8]).unwrap();
    assert_eq!(directory.rva, u32::MAX);
    assert_eq!(directory.size, u32::MAX);
}

#[test]
fn section_header_reads_three_fields() {
    let mut data = [0xEEu8; 40];
    put_u32(&mut data, 8, 0x0000_2345);
    put_u32(&mut data, 12, 0x0000_1000);
    put_u32(&mut data, 20, 0x0000_0400);
    let header = SectionHeader::create(&data).unwrap();
    assert_eq!(header.virtual_size, 0x2345);
    assert_eq!(header.rva, 0x1000);
    assert_eq!(header.raw, 0x400);
}

#[test]
fn section_header_needs_twenty_four_bytes() {
    assert!(SectionHeader::create(&[0u8; 23]).is_none());
    assert!(SectionHeader::create(&[0u8; 11]).is_none());
    assert!(SectionHeader::create(&[0u8; 24]).is_some());
}

#[test]
fn optional_header_reads_sixteen_directories() {
    let mut data = [0u8; 240];
    for i in 0..16usize {
        put_u32(&mut data, 0x70 + 8 * i, 0x1000 * (i as u32 + 1));
        put_u32(&mut data, 0x70 + 8 * i + 4, i as u32);
    }
    let header = OptionalHeader::create(&data).unwrap();
    assert_eq!(header.data_directories.len(), 16);
    for i in 0..16usize {
        assert_eq!(header.data_directories[i].rva, 0x1000 * (i as u32 + 1));
        assert_eq!(header.data_directories[i].size, i as u32);
    }
}

#[test]
fn optional_header_needs_its_whole_size() {
    assert!(OptionalHeader::create(&[0u8; 239]).is_none());
    assert!(OptionalHeader::create(&[0u8; 0x70]).is_none());
    assert!(OptionalHeader::create(&[]).is_none());
    assert!(OptionalHeader::create(&[0u8; 240]).is_some());
    assert!(OptionalHeader::create(&[0u8; 300]).is_some());
}

#[test]
fn export_descriptor_reads_count_and_names_pointer() {
    let mut data = [0x11u8; 40];
    put_u32(&mut data, 24, 7);
    put_u32(&mut data, 32, 0x0000_3040);
    let descriptor = ExportTableDescriptor::create(&data).unwrap();
    assert_eq!(descriptor.number_of_names, 7);
    assert_eq!(descriptor.names_rva, 0x3040);
}

#[test]
fn export_descriptor_needs_thirty_six_bytes() {
    assert!(ExportTableDescriptor::create(&[0u8; 35]).is_none());
    assert!(ExportTableDescriptor::create(&[0u8; 27]).is_none());
    assert!(ExportTableDescriptor::create(&[0u8; 36]).is_some());
}

#[test]
fn export_name_descriptor_reads_a_pointer() {
    let descriptor = ExportNameDescriptor::create(&[0x80, 0x14, 0x00, 0x00]).unwrap();
    assert_eq!(descriptor.name_rva, 0x1480);
    assert!(ExportNameDescriptor::create(&[0x80, 0x14, 0x00]).is_none());
}

#[test]
fn import_descriptor_reads_lookup_table_and_name() {
    let mut data = [0x22u8; 20];
    put_u32(&mut data, 0, 0x0000_1100);
    put_u32(&mut data, 12, 0x0000_1200);
    let descriptor = ImportDescriptor::create(&data).unwrap();
    assert_eq!(descriptor.lookup_table_rva, 0x1100);
    assert_eq!(descriptor.name_rva, 0x1200);
}

#[test]
fn import_descriptor_needs_sixteen_bytes() {
    assert!(ImportDescriptor::create(&[0u8; 15]).is_none());
    assert!(ImportDescriptor::create(&[0u8; 3]).is_none());
    assert!(ImportDescriptor::create(&[0u8; 16]).is_some());
}

#[test]
fn lookup_descriptor_tells_names_from_ordinals() {
    let by_name = LookupDescriptor::create(&[0x00, 0x13, 0x00, 0x00, 0, 0, 0, 0]).unwrap();
    assert_eq!(by_name.import_type, 0);
    assert_eq!(by_name.name_rva, 0x1300);

    let by_ordinal = LookupDescriptor::create(&[0x10, 0x00, 0, 0, 0, 0, 0, 0x80]).unwrap();
    assert_eq!(by_ordinal.import_type, 1);
    assert_eq!(by_ordinal.name_rva, 0x10);

    let high_bits = LookupDescriptor::create(&[0xFF, 0xFF, 0xFF, 0xFF, 0xFF, 0xFF, 0xFF, 0x7F])
        .unwrap();
    assert_eq!(high_bits.import_type, 0);
    assert_eq!(high_bits.name_rva, u32::MAX);
}

#[test]
fn lookup_descriptor_needs_eight_bytes() {
    assert!(LookupDescriptor::create(&[0u8; 7]).is_none());
    assert!(LookupDescriptor::create(&[]).is_none());
}
