use elfprobe::elf::header::ElfHeader;
use elfprobe::elf::sections::{ElfSection, ElfSectionTable};
use elfprobe::elf::types::{ElfType32, ElfType64};
use elfprobe::endian::{BigEndian, LittleEndian};
use elfprobe::pod::Pod;

#[test]
fn sections_size_of_be_32() {
    assert_eq!(ElfSection::<ElfType32<BigEndian>>::pod_size(), 40);
}

#[test]
fn sections_size_of_be_64() {
    assert_eq!(ElfSection::<ElfType64<BigEndian>>::pod_size(), 64);
}

#[test]
fn sections_size_of_le_32() {
    assert_eq!(ElfSection::<ElfType32<LittleEndian>>::pod_size(), 40);
}

#[test]
fn sections_size_of_le_64() {
    assert_eq!(ElfSection::<ElfType64<LittleEndian>>::pod_size(), 64);
}

#[test]
fn section_table_parse_is_refused() {
    let header_bytes = [0u8; 52];
    let header = ElfHeader::<ElfType32<LittleEndian>>::from_bytes(&header_bytes).unwrap();
    let data: &[u8] = &header_bytes;
    assert!(ElfSectionTable::parse(data, &header).is_err());
}
