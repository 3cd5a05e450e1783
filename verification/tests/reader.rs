use elfprobe::endian::LittleEndian;
use elfprobe::error::BytesError;
use elfprobe::primitive::{U16, U32};
use elfprobe::reader::{read_pod, Reader};

#[test]
fn read_bytes() {
    let slice: &[u8] = &[1, 2, 3, 4, 5, 6];
    let bytes = <&[u8] as Reader<'_>>::read_bytes(slice, 3, 2);
    assert_eq!(bytes, Some(&[3u8, 4u8, 5u8] as &[u8]));
}

#[test]
fn read_bytes_out_of_range() {
    let slice: &[u8] = &[1, 2, 3, 4, 5, 6];
    assert_eq!(<&[u8] as Reader<'_>>::read_bytes(slice, 3, 4), None);
    assert_eq!(<&[u8] as Reader<'_>>::read_bytes(slice, 7, 0), None);
    assert_eq!(<&[u8] as Reader<'_>>::read_bytes(slice, usize::MAX, 2), None);
    assert_eq!(<&[u8] as Reader<'_>>::read_bytes(slice, 0, 6), Some(&[] as &[u8]));
}

#[test]
fn length_is_the_buffer_length() {
    let slice: &[u8] = &[1, 2, 3];
    assert_eq!(Reader::length(slice), 3);
}

#[test]
fn read_pod_reads_at_offset() {
    let slice: &[u8] = &[0xaa, 0xbb, 0x10, 0x20, 0x30, 0x40];
    let word: U32<LittleEndian> = read_pod(slice, 2).unwrap();
    assert_eq!(word.get(), 0x40302010);
    let half: U16<LittleEndian> = read_pod(slice, 0).unwrap();
    assert_eq!(half.get(), 0xbbaa);
}

#[test]
fn read_pod_out_of_range_is_empty() {
    let slice: &[u8] = &[1, 2, 3];
    let result: Result<U32<LittleEndian>, BytesError> = read_pod(slice, 0);
    assert!(matches!(result, Err(BytesError::Empty)));
    let result: Result<U16<LittleEndian>, BytesError> = read_pod(slice, 2);
    assert!(matches!(result, Err(BytesError::Empty)));
}
