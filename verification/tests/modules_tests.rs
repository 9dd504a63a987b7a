use milkdbg::modules::Modules;

fn put16(v: &mut Vec<u8>, off: usize, x: u16) {
    v[off..off + 2].copy_from_slice(&x.to_le_bytes());
}

fn put32(v: &mut Vec<u8>, off: usize, x: u32) {
    v[off..off + 4].copy_from_slice(&x.to_le_bytes());
}

/// A mapped 32-bit module whose export directory stands at offset 320
/// with size 80, so routine offsets in `[320, 400]` are forwarders.
/// The function-address table is at 360, names at 380, ordinals at
/// 400 (by table position), and name strings from 420 on.
fn build_module_with_exports(exports: &[(&str, u32)]) -> Vec<u8> {
    let mut v = vec![0u8; 2048];
    put32(&mut v, 60, 64); // signature offset
    put32(&mut v, 64, 0x0000_4550);
    put16(&mut v, 68, 0x014C); // machine: 32-bit x86
    put32(&mut v, 184, 320); // export directory offset
    put32(&mut v, 188, 80); // export directory size
    let n = exports.len() as u32;
    put32(&mut v, 320 + 20, n); // number_of_functions
    put32(&mut v, 320 + 24, n); // number_of_names
    put32(&mut v, 320 + 28, 360); // address_of_functions
    put32(&mut v, 320 + 32, 600); // address_of_names
    put32(&mut v, 320 + 36, 700); // address_of_name_ordinals
    let mut name_off = 800u32;
    for (i, (name, rva)) in exports.iter().enumerate() {
        put32(&mut v, 360 + 4 * i, *rva);
        put32(&mut v, 600 + 4 * i, name_off);
        put16(&mut v, 700 + 2 * i, i as u16);
        let b = name.as_bytes();
        v[name_off as usize..name_off as usize + b.len()].copy_from_slice(b);
        name_off += b.len() as u32 + 1;
    }
    v
}

#[test]
fn exports_are_registered() {
    let image = build_module_with_exports(&[("Alpha", 0x500), ("Beta", 0x600)]);
    let mut m = Modules::new();
    m.load_module(0x0040_0000, image.len(), "mod.dll", &image).unwrap();
    assert_eq!(m.functions.len(), 2);
    assert_eq!(m.get_function_addr("", &String::from("Alpha")), Some(0x0040_0500));
    assert_eq!(m.get_function_addr("", &String::from("Beta")), Some(0x0040_0600));
    assert_eq!(m.get_function_addr("", &String::from("Gamma")), None);
    assert_eq!(m.modules.len(), 1);
    assert_eq!(m.modules[0].addr, 0x0040_0000);
    assert_eq!(m.modules[0].name, "mod.dll");
}

#[test]
fn forwarder_exports_are_not_registered() {
    // The second routine's offset, 350, lies inside the export
    // directory's own extent [320, 400]: a forwarder.
    let image = build_module_with_exports(&[("Real", 0x500), ("Fwd", 350)]);
    let mut m = Modules::new();
    m.load_module(0x0040_0000, image.len(), "mod.dll", &image).unwrap();
    assert_eq!(m.functions.len(), 1);
    assert_eq!(m.get_function_addr("", &String::from("Real")), Some(0x0040_0500));
    assert_eq!(m.get_function_addr("", &String::from("Fwd")), None);
}

#[test]
fn small_exportless_module_is_scanned() {
    let mut image = vec![0u8; 1024];
    put32(&mut image, 60, 64);
    put32(&mut image, 64, 0x0000_4550);
    put16(&mut image, 68, 0x014C);
    // the export directory entry is zero: no exports
    image[512] = 0x55;
    image[513] = 0x89; // a frame-pointer prologue at offset 512
    image[700] = 0xCC;
    image[701] = 0xCC; // padding just before offset 702
    let mut m = Modules::new();
    m.load_module(0x0040_0000, image.len(), "plain.exe", &image).unwrap();
    let names: Vec<String> = m.functions.iter().map(|f| f.name.clone()).collect();
    assert!(names.contains(&String::from("f_400200"))); // 0x400000 + 512
    assert!(names.contains(&String::from("f_4002BE"))); // 0x400000 + 702
}

#[test]
fn function_lookup_is_greatest_at_or_below() {
    let image = build_module_with_exports(&[("A", 0x100), ("B", 0x200), ("C", 0x300)]);
    let mut m = Modules::new();
    m.load_module(0x0040_0000, image.len(), "mod.dll", &image).unwrap();
    // Address before the second function: the first is in front
    // position and is never returned.
    assert!(m.get_function_at(0x0040_0150).is_none());
    let f = m.get_function_at(0x0040_0250).unwrap();
    assert_eq!(f.name, "B");
    assert_eq!(f.addr, 0x0040_0200);
    let g = m.get_function_at(0x0040_1000).unwrap();
    assert_eq!(g.name, "C");
    // Monotone: a lower query never returns a higher function.
    let lo = m.get_function_at(0x0040_0210).unwrap().addr;
    let hi = m.get_function_at(0x0040_0310).unwrap().addr;
    assert!(lo <= hi);
    assert!(m.get_function_at(0x0040_0050).is_none());
}

#[test]
fn module_lookup_follows_base_addresses() {
    let image1 = build_module_with_exports(&[("A", 0x100), ("B", 0x200)]);
    let image2 = build_module_with_exports(&[("C", 0x100), ("D", 0x200)]);
    let mut m = Modules::new();
    m.load_module(0x0040_0000, image1.len(), "one.dll", &image2).unwrap();
    m.load_module(0x0050_0000, image2.len(), "two.dll", &image1).unwrap();
    let hit = m.get_module_at(0x0050_1234).unwrap();
    assert_eq!(hit.name, "two.dll");
    assert!(m.get_module_at(0x0040_1234).is_none()); // front position is never returned
}

#[test]
fn instruction_walk_follows_decoded_lengths() {
    // Two functions so the traced one is not in front position. The
    // second starts with: push ebp (1 byte); mov ebp, esp (2 bytes);
    // ret (1 byte).
    let mut image = vec![0u8; 1024];
    put32(&mut image, 60, 64);
    put32(&mut image, 64, 0x0000_4550);
    put16(&mut image, 68, 0x014C);
    image[512] = 0x55;
    image[513] = 0x89;
    image[514] = 0xE5;
    image[515] = 0xC3;
    let mut m = Modules::new();
    m.load_module(0x0040_0000, image.len(), "mod.dll", &image).unwrap();
    m.add_functions(
        vec![(String::from("early"), 0x0040_0000), (String::from("traced"), 0x0040_0200)],
        0x0040_0000,
        &image,
    );
    let f = 0x0040_0200;
    let (start, entries) = m.get_instructions_at(f).unwrap();
    assert_eq!(*start, f);
    assert_eq!(entries[0].len, 1);
    assert_eq!(entries[1].len, 2);
    assert_eq!(entries[2].len, 1);
    let (eip, _) = m.get_instruction_at(f + 1).unwrap();
    assert_eq!(eip, f + 1);
    let (eip2, _) = m.get_instruction_at(f + 2).unwrap();
    assert_eq!(eip2, f + 3); // inside the two-byte instruction: next boundary
    let (after, _) = m.get_next_instruction_after(f + 1).unwrap();
    assert_eq!(after, f + 3);
}
