use elfprobe::elf::identification::ElfIdentification;
use elfprobe::elf::types::{ElfType32, ElfType64};
use elfprobe::endian::{BigEndian, LittleEndian};
use elfprobe::pod::Pod;

#[test]
fn identification_size_of_be_32() {
    assert_eq!(ElfIdentification::<ElfType32<BigEndian>>::pod_size(), 16);
}

#[test]
fn identification_size_of_be_64() {
    assert_eq!(ElfIdentification::<ElfType64<BigEndian>>::pod_size(), 16);
}

#[test]
fn identification_size_of_le_32() {
    assert_eq!(ElfIdentification::<ElfType32<LittleEndian>>::pod_size(), 16);
}

#[test]
fn identification_size_of_le_64() {
    assert_eq!(ElfIdentification::<ElfType64<LittleEndian>>::pod_size(), 16);
}

#[test]
fn identification_from_bytes_reads_fields() {
    let bytes: [u8; 16] = [
        0x7f, 0x45, 0x4c, 0x46, 1, 2, 1, 3, 9, 0, 0, 0, 0, 0, 0, 0,
    ];
    let ident = ElfIdentification::<ElfType32<LittleEndian>>::from_bytes(&bytes).unwrap();
    assert_eq!(ident.ei_mag0, 0x7f);
    assert_eq!(ident.ei_mag1, 0x45);
    assert_eq!(ident.ei_mag2, 0x4c);
    assert_eq!(ident.ei_mag3, 0x46);
    assert_eq!(ident.ei_class, 1);
    assert_eq!(ident.ei_data, 2);
    assert_eq!(ident.ei_version, 1);
    assert_eq!(ident.ei_osabi, 3);
    assert_eq!(ident.ei_abiversion, 9);
    assert_eq!(ident.ei_pad, [0u8; 7]);
}
