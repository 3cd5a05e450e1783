use elfprobe::elf::magic::Magic;

#[test]
fn magic_magic_one_non_printable() {
    assert_eq!(Magic::from([0x7F, b'E', b'L', b'F']).render(), r"\x7f ELF");
}

#[test]
fn magic_magic_two_non_printables() {
    assert_eq!(Magic::from([0x1, b'A', 0x2, b'b']).render(), r"\x01 A \x02 b");
}

#[test]
fn magic_magic_three_non_printables() {
    assert_eq!(Magic::from([0x1, 0x2, 0x3, b'A']).render(), r"\x01 \x02 \x03 A");
}

#[test]
fn adapter_magic_one_non_printable() {
    assert_eq!(Magic([0x7F, b'E', b'L', b'F']).render(), r"\x7f ELF");
}

#[test]
fn adapter_magic_two_non_printables() {
    assert_eq!(Magic([0x1, b'A', 0x2, b'b']).render(), r"\x01 A \x02 b");
}

#[test]
fn adapter_magic_three_non_printables() {
    assert_eq!(Magic([0x1, 0x2, 0x3, b'A']).render(), r"\x01 \x02 \x03 A");
}

#[test]
fn magic_all_printable_is_grouped() {
    assert_eq!(Magic([b'E', b'L', b'F', b'!']).render(), "ELF!");
}

#[test]
fn magic_tab_and_high_byte_are_escaped() {
    assert_eq!(Magic([b'\t', b'A', 0xff, b'C']).render(), r"\t A \xff C");
}
