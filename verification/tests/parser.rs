use elfprobe::elf::{parse_elf, ElfFile};
use elfprobe::error::BytesError;
use elfprobe::hex::parse_hex;

#[test]
fn parser() {
    let bytes = parse_hex(
        r"
      7F 'ELF ; Magic
      01 ; ei_class
      02 ; ei_data
      02 ; ei_version
      03 ; ei_osabi
      00 ; ei_abiversion
      00 00 00 00 00 00 00 ; ei_pad

      0003 ; e_type
      003e ; e_machine
      0102 0304 ; e_version
      0102 0304 ; e_entry
      0102 0304 ; e_phoff
      0102 0304 ; e_shoff
      0102 0304 ; e_flags
      0102 ; e_ehsize
      0102 ; e_phentsize
      0102 ; e_phnum
      0102 ; e_shentsize
      0102 ; e_shnum
      0102 ; e_shstrndx
    ",
    );

    let binding = bytes.unwrap();
    assert_eq!(binding.len(), 52);
    let result = parse_elf(binding.as_slice());

    match result {
        Ok(ElfFile::Elf32Be(object)) => {
            let header = &object.header;
            assert_eq!(header.e_ident.ei_class, 1);
            assert_eq!(header.e_ident.ei_data, 2);
            assert_eq!(header.e_ident.ei_version, 2);
            assert_eq!(header.e_ident.ei_osabi, 3);
            assert_eq!(header.e_type.get(), 3);
            assert_eq!(header.e_machine.get(), 0x3e);
            assert_eq!(header.e_version.get(), 0x0102_0304);
            assert_eq!(header.e_entry.get(), 0x0102_0304);
            assert_eq!(header.e_phoff.get(), 0x0102_0304);
            assert_eq!(header.e_shoff.get(), 0x0102_0304);
            assert_eq!(header.e_flags.get(), 0x0102_0304);
            assert_eq!(header.e_ehsize.get(), 0x0102);
            assert_eq!(header.e_shstrndx.get(), 0x0102);
        }
        other => panic!("expected a 32-bit big-endian object, got {:?}", other.is_ok()),
    }
}

fn well_formed(class: u8, encoding: u8) -> Vec<u8> {
    let header_size = if class == 1 { 52 } else { 64 };
    let mut bytes = vec![0x7f, b'E', b'L', b'F', class, encoding, 1, 0];
    while bytes.len() < header_size {
        bytes.push(bytes.len() as u8);
    }
    bytes
}

#[test]
fn dispatch_32_little() {
    let bytes = well_formed(1, 1);
    match parse_elf(bytes.as_slice()) {
        Ok(ElfFile::Elf32Le(object)) => {
            assert_eq!(object.header.e_ident.ei_class, 1);
            assert_eq!(object.header.e_ident.ei_data, 1);
            // Little-endian: the low byte comes first.
            assert_eq!(object.header.e_type.get(), 0x1110);
            assert_eq!(object.header.e_machine.get(), 0x1312);
            assert_eq!(object.header.e_version.get(), 0x17161514);
            assert_eq!(object.header.e_entry.get(), 0x1b1a1918);
            assert_eq!(object.header.e_shstrndx.get(), 0x3332);
        }
        _ => panic!("expected a 32-bit little-endian object"),
    }
}

#[test]
fn dispatch_64_little() {
    let bytes = well_formed(2, 1);
    match parse_elf(bytes.as_slice()) {
        Ok(ElfFile::Elf64Le(object)) => {
            assert_eq!(object.header.e_type.get(), 0x1110);
            assert_eq!(object.header.e_entry.get(), 0x1f1e1d1c1b1a1918);
            assert_eq!(object.header.e_shstrndx.get(), 0x3f3e);
        }
        _ => panic!("expected a 64-bit little-endian object"),
    }
}

#[test]
fn dispatch_32_big() {
    let bytes = well_formed(1, 2);
    match parse_elf(bytes.as_slice()) {
        Ok(ElfFile::Elf32Be(object)) => {
            assert_eq!(object.header.e_type.get(), 0x1011);
            assert_eq!(object.header.e_entry.get(), 0x18191a1b);
            assert_eq!(object.header.e_shstrndx.get(), 0x3233);
        }
        _ => panic!("expected a 32-bit big-endian object"),
    }
}

#[test]
fn dispatch_64_big() {
    let bytes = well_formed(2, 2);
    match parse_elf(bytes.as_slice()) {
        Ok(ElfFile::Elf64Be(object)) => {
            assert_eq!(object.header.e_type.get(), 0x1011);
            assert_eq!(object.header.e_entry.get(), 0x18191a1b1c1d1e1f);
            assert_eq!(object.header.e_shstrndx.get(), 0x3e3f);
        }
        _ => panic!("expected a 64-bit big-endian object"),
    }
}

#[test]
fn magic_rejects_wrong_bytes() {
    assert!(matches!(
        parse_elf(&[0x7e, b'E', b'L', b'F', 1, 1][..]),
        Err(BytesError::BadMagic)
    ));
    assert!(matches!(
        parse_elf(&[0x7f, b'E', b'L', b'f', 1, 1][..]),
        Err(BytesError::BadMagic)
    ));
    // A buffer shorter than the magic is rejected the same way.
    assert!(matches!(parse_elf(&[0x7f, b'E'][..]), Err(BytesError::BadMagic)));
    assert!(matches!(parse_elf(&[][..]), Err(BytesError::BadMagic)));
}

#[test]
fn missing_class_data_is_an_out_of_range_read() {
    assert!(matches!(
        parse_elf(&[0x7f, b'E', b'L', b'F'][..]),
        Err(BytesError::Empty)
    ));
    assert!(matches!(
        parse_elf(&[0x7f, b'E', b'L', b'F', 1][..]),
        Err(BytesError::Empty)
    ));
}

#[test]
fn invalid_class_data_is_rejected() {
    for (class, encoding) in [(0u8, 1u8), (3, 1), (1, 0), (1, 3), (0, 0), (255, 255)] {
        let bytes = [0x7f, b'E', b'L', b'F', class, encoding];
        assert!(matches!(parse_elf(&bytes[..]), Err(BytesError::BadClassData)));
    }
}

#[test]
fn short_buffer_is_an_out_of_range_read() {
    let mut bytes = well_formed(1, 1);
    bytes.truncate(51);
    assert!(matches!(parse_elf(bytes.as_slice()), Err(BytesError::Empty)));
    let mut bytes = well_formed(2, 2);
    bytes.truncate(63);
    assert!(matches!(parse_elf(bytes.as_slice()), Err(BytesError::Empty)));
}
