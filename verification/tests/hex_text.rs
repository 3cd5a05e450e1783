use elfprobe::hex::{find_words, parse_hex, remove_comment, to_capitalized, ParseHexError};

#[test]
fn one_byte() {
    assert_eq!(parse_hex("11").unwrap(), vec![0x11]);
}

#[test]
fn one_word() {
    assert_eq!(parse_hex("1122").unwrap(), vec![0x11, 0x22]);
}

#[test]
fn one_dword() {
    assert_eq!(parse_hex("11223344").unwrap(), vec![0x11, 0x22, 0x33, 0x44]);
}

#[test]
fn simple_quote() {
    assert_eq!(parse_hex("'Hello").unwrap(), vec![0x48, 0x65, 0x6c, 0x6c, 0x6f]);
}

#[test]
fn section_name() {
    assert_eq!(parse_hex(".data").unwrap(), vec![0x2E, 0x64, 0x61, 0x74, 0x61]);
}

#[test]
fn multilines() {
    let bytes = parse_hex(
        r"
    b612 1a 1b 'Hello 'XY ; Short comment
    FF   00   616263      ; This is a long comment
    ; Empty line

    .data ''
    ",
    );
    let expected = vec![
        0xB6, 0x12, 0x1A, 0x1B, //
        0x48, 0x65, 0x6c, 0x6c, 0x6f, // Hello
        0x58, 0x59, // XY
        0xFF, 0x00, //
        0x61, 0x62, 0x63, // abc
        0x2E, 0x64, 0x61, 0x74, 0x61, // .data
        0x27, // the escaped quote
    ];
    assert_eq!(bytes.unwrap(), expected);
}

#[test]
fn invalid_word_length() {
    let error = parse_hex("1234 ABCD 'Hello 'World! 5 6 7 8").unwrap_err();
    assert_eq!(error.message(), "Word length must be even (\"5\").");
}

#[test]
fn invalid_chunk_size() {
    let error = parse_hex("'Elf 'Dwarf .bss 123 ; This is a comment.").unwrap_err();
    assert_eq!(error.message(), "Word length must be a multiple of 2 (\"123\").");
}

#[test]
fn parse_int_error() {
    let error = parse_hex("DEADBEEF IS GREAT").unwrap_err();
    assert_eq!(error.message(), "Invalid digit found in string (\"IS\").");
}

#[test]
fn error_values_name_the_word() {
    match parse_hex("5") {
        Err(ParseHexError::InvalidWordLength(word)) => assert_eq!(word, vec![b'5']),
        _ => panic!("expected the lone word to be refused"),
    }
    match parse_hex("GG") {
        Err(ParseHexError::ParseError(chunk)) => assert_eq!(chunk, vec![b'G', b'G']),
        _ => panic!("expected the chunk to be refused"),
    }
}

#[test]
fn remove_comment_keeps_the_prefix() {
    assert_eq!(remove_comment("12 34 ; comment"), "12 34 ");
    assert_eq!(remove_comment("no comment"), "no comment");
    assert_eq!(remove_comment("; all comment"), "");
}

#[test]
fn find_words_drops_comments_and_whitespace() {
    let words = find_words("one two ; gone\n three");
    let expected: Vec<Vec<u8>> = vec![b"one".to_vec(), b"two".to_vec(), b"three".to_vec()];
    assert_eq!(words, expected);
}

#[test]
fn to_capitalized_raises_the_first_letter() {
    assert_eq!(to_capitalized("invalid digit"), "Invalid digit");
    assert_eq!(to_capitalized("Already"), "Already");
    assert_eq!(to_capitalized(""), "");
    assert_eq!(to_capitalized("7 up"), "7 up");
}
