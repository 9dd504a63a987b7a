use milkdbg::pe::{ParseError, PeOptional, RawImportThunkData, ThunkData, PE, RVA};

fn put16(v: &mut Vec<u8>, off: usize, x: u16) {
    v[off..off + 2].copy_from_slice(&x.to_le_bytes());
}

fn put32(v: &mut Vec<u8>, off: usize, x: u32) {
    v[off..off + 4].copy_from_slice(&x.to_le_bytes());
}

/// A minimal 32-bit image: DOS header pointing at offset 64, the
/// signature, a COFF header naming the 32-bit machine, a 96-byte
/// optional header, and `dirs` data-directory entries.
fn build_pe32(dirs: &[(u32, u32)], total: usize) -> Vec<u8> {
    let ndirs = dirs.len() as u32;
    let mut v = vec![0u8; total];
    v[0] = 0x4D;
    v[1] = 0x5A;
    put32(&mut v, 60, 64); // offset of the signature
    put32(&mut v, 64, 0x0000_4550); // "PE\0\0"
    put16(&mut v, 68, 0x014C); // machine: 32-bit x86
    put16(&mut v, 70, 1); // sections
    put16(&mut v, 84, (96 + 8 * ndirs) as u16); // optional-header size
    put16(&mut v, 88, 0x010B); // optional magic
    put32(&mut v, 88 + 4, 0x2000); // size_of_code
    put32(&mut v, 88 + 16, 0x1000); // entry-point offset
    put32(&mut v, 88 + 20, 0x1000); // base_of_code
    put32(&mut v, 88 + 28, 0x0040_0000); // image base
    put32(&mut v, 88 + 92, ndirs); // data-directory count
    for (i, (va, size)) in dirs.iter().enumerate() {
        put32(&mut v, 184 + 8 * i, *va);
        put32(&mut v, 184 + 8 * i + 4, *size);
    }
    v
}

#[test]
fn parse_minimal_image() {
    let bytes = build_pe32(&[(0, 0), (0, 0)], 512);
    let pe = PE::from_vec(bytes).unwrap();
    assert_eq!(pe.dos_header.e_lfanew.0, 64);
    assert_eq!(pe.data_directory.len(), 2);
    match &pe.optional {
        PeOptional::PE32(o) => {
            assert_eq!(o.image_base, 0x0040_0000);
            assert_eq!(o.address_of_entry_point.0, 0x1000);
            assert_eq!(o.number_of_rva_and_sizes, 2);
        },
    }
    assert_eq!(pe.optional.get_image_base(), 0x0040_0000);
    assert_eq!(pe.optional.get_address_of_entry_point().0, 0x1000);
    assert_eq!(pe.optional.get_address_of_entry_point().to_va(0x0040_0000), 0x0040_1000);
}

#[test]
fn wrong_signature_is_refused() {
    let mut bytes = build_pe32(&[], 512);
    bytes[64] = 0x00;
    assert!(matches!(PE::from_vec(bytes), Err(ParseError::WrongSignature)));
}

#[test]
fn short_buffer_is_out_of_bounds() {
    assert!(matches!(PE::from_vec(vec![0u8; 32]), Err(ParseError::OutOfBounds)));
}

#[test]
fn other_machine_is_unsupported() {
    let mut bytes = build_pe32(&[], 512);
    put16(&mut bytes, 68, 0x8664);
    assert!(matches!(PE::from_vec(bytes), Err(ParseError::UnsupportedMachine)));
}

#[test]
fn data_directory_round_trip() {
    let dirs = [(0x3000u32, 0x40u32), (0x4000, 0x80), (0, 0), (0x5000, 0x10)];
    let bytes = build_pe32(&dirs, 512);
    let pe = PE::from_vec(bytes).unwrap();
    for (i, (va, size)) in dirs.iter().enumerate() {
        let d = pe.get_data_directory(i).unwrap();
        assert_eq!(d.virtual_address.0, *va);
        assert_eq!(d.size, *size);
    }
    assert!(pe.get_data_directory(dirs.len()).is_none());
}

#[test]
fn zero_rva_export_directory_gives_none() {
    let bytes = build_pe32(&[(0, 0), (0, 0)], 512);
    let pe = PE::from_vec(bytes).unwrap();
    assert!(pe.get_export_section().is_none());
}

#[test]
fn export_directory_is_read_at_its_offset() {
    let mut bytes = build_pe32(&[(300, 64), (0, 0)], 512);
    put32(&mut bytes, 300 + 20, 3); // number_of_functions
    put32(&mut bytes, 300 + 24, 2); // number_of_names
    put32(&mut bytes, 300 + 28, 400); // address_of_functions
    let pe = PE::from_vec(bytes).unwrap();
    let e = pe.get_export_section().unwrap();
    assert_eq!(e.number_of_functions, 3);
    assert_eq!(e.number_of_names, 2);
    assert_eq!(e.address_of_functions.0, 400);
}

#[test]
fn zero_rva_import_directory_gives_empty_list() {
    let bytes = build_pe32(&[(0, 0), (0, 0)], 512);
    let pe = PE::from_vec(bytes).unwrap();
    assert!(pe.get_imports().is_empty());
    assert!(pe.get_iat().is_empty());
}

#[test]
fn import_walk_stops_at_zero_descriptor() {
    let mut bytes = build_pe32(&[(0, 0), (280, 40)], 512);
    put32(&mut bytes, 280, 0x1111); // first descriptor's original-first-thunk
    put32(&mut bytes, 280 + 12, 0x2222); // its name offset
    put32(&mut bytes, 280 + 20, 0); // second descriptor: all zero, ends the walk
    let pe = PE::from_vec(bytes).unwrap();
    let imports = pe.get_imports();
    assert_eq!(imports.len(), 1);
    assert_eq!(imports[0].original_first_thunk.0, 0x1111);
    assert_eq!(imports[0].name.0, 0x2222);
}

#[test]
fn old_style_descriptor_with_zero_first_thunk_is_kept() {
    // An old-style descriptor carries no original-first-thunk but
    // does name its module: the walk keeps it and stops only at the
    // all-zero descriptor.
    let mut bytes = build_pe32(&[(0, 0), (280, 60)], 512);
    put32(&mut bytes, 280, 0); // no original-first-thunk
    put32(&mut bytes, 280 + 12, 0x2222); // but a name
    put32(&mut bytes, 280 + 16, 0x3333); // and a first-thunk
    // the next descriptor is all zero and ends the walk
    let pe = PE::from_vec(bytes).unwrap();
    let imports = pe.get_imports();
    assert_eq!(imports.len(), 1);
    assert_eq!(imports[0].original_first_thunk.0, 0);
    assert_eq!(imports[0].name.0, 0x2222);
    assert_eq!(imports[0].first_thunk.0, 0x3333);
}

#[test]
fn thunk_with_high_bit_is_an_ordinal() {
    let bytes = build_pe32(&[], 512);
    let pe = PE::from_vec(bytes).unwrap();
    let t = pe.get_thunk_from_raw(&RawImportThunkData { data: 0x8000_0003 }).unwrap();
    match t {
        ThunkData::Ordinal(n) => assert_eq!(n, 3),
        _ => panic!("expected an ordinal"),
    }
}

#[test]
fn thunk_without_high_bit_is_a_name() {
    let mut bytes = build_pe32(&[], 0x10000);
    // hint then "CreateFileA\0" at offset 0xABCD
    put16(&mut bytes, 0xABCD, 7);
    let name = b"CreateFileA";
    bytes[0xABCD + 2..0xABCD + 2 + name.len()].copy_from_slice(name);
    let pe = PE::from_vec(bytes).unwrap();
    let t = pe.get_thunk_from_raw(&RawImportThunkData { data: 0x0000_ABCD }).unwrap();
    match t {
        ThunkData::ImportedByName { hint, name } => {
            assert_eq!(hint, 7);
            assert_eq!(name, "CreateFileA");
        },
        _ => panic!("expected a name"),
    }
}

#[test]
fn typed_reads_see_the_bytes() {
    let mut bytes = build_pe32(&[], 512);
    put32(&mut bytes, 400, 0xDEAD_BEEF);
    let pe = PE::from_vec(bytes).unwrap();
    assert_eq!(pe.read_u32_at(RVA(400)).unwrap(), 0xDEAD_BEEF);
    assert_eq!(pe.read_u16_at(RVA(400)).unwrap(), 0xBEEF);
    assert_eq!(pe.read_u8_at(RVA(400)).unwrap(), 0xEF);
    assert_eq!(pe.read_u32_at(RVA(512)), Err(ParseError::OutOfBounds));
}

#[test]
fn null_terminated_string_reads() {
    let mut bytes = build_pe32(&[], 512);
    let s = b"kernel32.dll";
    bytes[300..300 + s.len()].copy_from_slice(s);
    let pe = PE::from_vec(bytes).unwrap();
    assert_eq!(pe.read_null_terminated_string_at(RVA(300)).unwrap(), "kernel32.dll");
}

#[test]
fn heuristic_string_rejects_unprintable_bytes() {
    let mut bytes = build_pe32(&[], 512);
    let good = b"Hello, world!";
    bytes[300..300 + good.len()].copy_from_slice(good);
    bytes[340] = 0x01; // unprintable before any terminator
    bytes[341] = 0;
    let pe = PE::from_vec(bytes).unwrap();
    assert_eq!(pe.read_possible_null_terminated_string_at(RVA(300)).unwrap(), "Hello, world!");
    assert!(pe.read_possible_null_terminated_string_at(RVA(340)).is_none());
}

#[test]
fn code_section_is_copied() {
    let mut bytes = build_pe32(&[], 0x4000);
    // base_of_code 0x1000, size_of_code 0x2000
    bytes[0x1000] = 0x55;
    bytes[0x1001] = 0x89;
    let pe = PE::from_vec(bytes).unwrap();
    let code = pe.get_code().unwrap();
    assert_eq!(code.len(), 0x2000);
    assert_eq!(code[0], 0x55);
    assert_eq!(code[1], 0x89);
    let (base, size) = pe.optional.get_code();
    assert_eq!(base.0, 0x1000);
    assert_eq!(size, 0x2000);
}

#[test]
fn raw_thunks_stop_at_zero() {
    let mut bytes = build_pe32(&[(0, 0), (280, 40)], 512);
    put32(&mut bytes, 280, 440);
    let pe = PE::from_vec(bytes).unwrap();
    let mut bytes2 = build_pe32(&[(0, 0), (280, 40)], 512);
    put32(&mut bytes2, 280, 440);
    put32(&mut bytes2, 440, 0x8000_0001);
    put32(&mut bytes2, 444, 0x0000_0200);
    put32(&mut bytes2, 448, 0);
    let pe2 = PE::from_vec(bytes2).unwrap();
    let imp = pe.get_imports();
    let thunks = pe2.get_raw_import_thunks_of(&imp[0], true);
    assert_eq!(thunks.len(), 2);
    assert_eq!(thunks[0].data, 0x8000_0001);
    assert_eq!(thunks[1].data, 0x0000_0200);
}
