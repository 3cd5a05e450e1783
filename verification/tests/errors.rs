use elfprobe::elf::identification::ElfIdentification;
use elfprobe::elf::types::ElfType32;
use elfprobe::endian::LittleEndian;
use elfprobe::error::BytesError;
use elfprobe::pod::{cast_check, Pod};
use elfprobe::primitive::{U16, U32};

#[test]
fn from_bytes_ok() {
    let bytes = [0x10u8, 0x20];
    let value = U16::<LittleEndian>::from_bytes(&bytes).unwrap();
    assert_eq!(value.get(), 0x2010);
    assert_eq!(value.bytes, bytes);
}

#[test]
fn from_bytes_size_of_error() {
    // The cast succeeds exactly on a slice of the type's size; the
    // reported numbers are the actual inputs.
    assert!(matches!(
        ElfIdentification::<ElfType32<LittleEndian>>::from_bytes(&[1, 2, 3]),
        Err(BytesError::SizeOfMismatch { length: 3, size_of: 16 })
    ));
    assert!(matches!(
        U32::<LittleEndian>::from_bytes(&[1, 2, 3, 4, 5]),
        Err(BytesError::SizeOfMismatch { length: 5, size_of: 4 })
    ));
    assert!(U32::<LittleEndian>::from_bytes(&[1, 2, 3, 4]).is_ok());
}

#[test]
fn from_bytes_align_of_error() {
    // The aligned-storage admission test: a correctly sized slice at a
    // misaligned address is refused with the address and the
    // required alignment; the same length aligned passes.
    assert!(matches!(
        cast_check(16, 16, 0x1001, 8),
        Err(BytesError::AlignOfMismatch { pointer: 0x1001, align_of: 8 })
    ));
    assert!(matches!(cast_check(16, 16, 0x1000, 8), Ok(())));
    // The size check comes first.
    assert!(matches!(
        cast_check(3, 16, 0x1001, 8),
        Err(BytesError::SizeOfMismatch { length: 3, size_of: 16 })
    ));
}

#[test]
fn messages_name_the_numbers() {
    assert_eq!(BytesError::Empty.message(), "bytes.len() != 0");
    assert_eq!(
        BytesError::SizeOfMismatch { length: 3, size_of: 16 }.message(),
        "bytes.len() != size_of::<Pod>(), 3 != 16"
    );
    assert_eq!(
        BytesError::AlignOfMismatch { pointer: 0x1001, align_of: 8 }.message(),
        "bytes.as_ptr() % align_of::<Pod>() != 0, 0x1001 % 8 == 1"
    );
    assert_eq!(BytesError::BadMagic.message(), "bytes do not start with the ELF magic");
    assert_eq!(
        BytesError::BadClassData.message(),
        "class/data bytes select no supported combination"
    );
}
