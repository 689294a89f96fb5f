use autochthon::loader::{BinaryHeader, LoadedProgram, LoaderError};

fn image_with_one_symbol() -> Vec<u8> {
    let mut image = Vec::new();
    // Header: symbol table at 12, data at 21, code at 24.
    image.extend_from_slice(&[0, 0, 0, 12, 0, 0, 0, 21, 0, 0, 0, 24]);
    // One symbol: "main" -> code offset 2.
    image.extend_from_slice(&[4, b'm', b'a', b'i', b'n', 0, 0, 0, 2]);
    // Data section.
    image.extend_from_slice(&[1, 2, 3]);
    // Code section.
    image.extend_from_slice(&[5, 11, 11]);
    image
}

#[test]
fn header_words_read_big_endian() {
    let h = BinaryHeader::extract_from_bytes(&image_with_one_symbol()).expect("header");
    assert_eq!(h.symbol_table_location, 12);
    assert_eq!(h.data_section_location, 21);
    assert_eq!(h.code_section_location, 24);
}

#[test]
fn header_needs_twelve_bytes() {
    assert!(BinaryHeader::extract_from_bytes(&[0; 11]).is_none());
    assert!(BinaryHeader::extract_from_bytes(&[]).is_none());
    assert!(BinaryHeader::extract_from_bytes(&[0; 12]).is_some());
}

#[test]
fn loads_sections_and_symbols() {
    let p = LoadedProgram::from_binary_bytes(image_with_one_symbol()).expect("load");
    assert_eq!(p.symbol_table.len(), 1);
    assert_eq!(p.symbol_table[0].name, b"main".to_vec());
    assert_eq!(p.symbol_table[0].offset, 2);
    assert_eq!(p.data, vec![1, 2, 3]);
    assert_eq!(p.code, vec![5, 11, 11]);
}

#[test]
fn loads_an_image_with_empty_sections() {
    let image = vec![0, 0, 0, 12, 0, 0, 0, 12, 0, 0, 0, 12];
    let p = LoadedProgram::from_binary_bytes(image).expect("load");
    assert!(p.symbol_table.is_empty());
    assert!(p.data.is_empty());
    assert!(p.code.is_empty());
}

#[test]
fn symbol_table_maps_names_to_offsets() {
    let p = LoadedProgram::from_binary_bytes(image_with_one_symbol()).expect("load");
    assert_eq!(p.symbol_offset(b"main"), Some(2));
    assert_eq!(p.symbol_offset(b"mai"), None);
    assert_eq!(p.symbol_offset(b"maine"), None);
    assert_eq!(p.symbol_offset(b""), None);
}

#[test]
fn a_repeated_symbol_name_keeps_its_first_offset() {
    let mut image = vec![0, 0, 0, 12, 0, 0, 0, 24, 0, 0, 0, 24];
    image.extend_from_slice(&[1, b'f', 0, 0, 0, 0]);
    image.extend_from_slice(&[1, b'f', 0, 0, 0, 1]);
    image.extend_from_slice(&[11, 11]);
    let p = LoadedProgram::from_binary_bytes(image).expect("load");
    assert_eq!(p.symbol_table.len(), 2);
    assert_eq!(p.symbol_offset(b"f"), Some(0));
}

#[test]
fn short_buffer_is_an_invalid_header() {
    assert_eq!(
        LoadedProgram::from_binary_bytes(vec![0; 8]),
        Err(LoaderError::InvalidHeader)
    );
}

#[test]
fn unordered_offsets_are_an_invalid_header() {
    // Symbol table claimed inside the header.
    let image = vec![0, 0, 0, 11, 0, 0, 0, 12, 0, 0, 0, 12];
    assert_eq!(
        LoadedProgram::from_binary_bytes(image),
        Err(LoaderError::InvalidHeader)
    );
    // Data section before the symbol table.
    let image = vec![0, 0, 0, 14, 0, 0, 0, 12, 0, 0, 0, 14];
    assert_eq!(
        LoadedProgram::from_binary_bytes(image),
        Err(LoaderError::InvalidHeader)
    );
    // A negative offset.
    let image = vec![0xFF, 0, 0, 0, 0, 0, 0, 12, 0, 0, 0, 12];
    assert_eq!(
        LoadedProgram::from_binary_bytes(image),
        Err(LoaderError::InvalidHeader)
    );
}

#[test]
fn code_past_the_end_is_truncated() {
    let image = vec![0, 0, 0, 12, 0, 0, 0, 12, 0, 0, 0, 100];
    assert_eq!(
        LoadedProgram::from_binary_bytes(image),
        Err(LoaderError::TruncatedSection)
    );
}

#[test]
fn truncated_symbol_entry_is_invalid() {
    let mut image = vec![0, 0, 0, 12, 0, 0, 0, 14, 0, 0, 0, 14];
    // Name length 5, but only one byte follows in the region.
    image.extend_from_slice(&[5, 0]);
    assert_eq!(
        LoadedProgram::from_binary_bytes(image),
        Err(LoaderError::InvalidSymbolTable)
    );
}

#[test]
fn symbol_offset_outside_code_is_invalid() {
    let mut image = vec![0, 0, 0, 12, 0, 0, 0, 18, 0, 0, 0, 18];
    // One symbol "x" -> offset 1, but the code section is 1 byte long.
    image.extend_from_slice(&[1, b'x', 0, 0, 0, 1]);
    image.push(11);
    assert_eq!(
        LoadedProgram::from_binary_bytes(image),
        Err(LoaderError::InvalidSymbolTable)
    );
    // Offset 0 into a 1-byte code section is fine.
    let mut image = vec![0, 0, 0, 12, 0, 0, 0, 18, 0, 0, 0, 18];
    image.extend_from_slice(&[1, b'x', 0, 0, 0, 0]);
    image.push(11);
    assert!(LoadedProgram::from_binary_bytes(image).is_ok());
}
