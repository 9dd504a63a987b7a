use milkdbg::bytes::{
    hex_string, parse_hex, read_u16_le, read_u32_le, string_from_array_with_zero,
    string_from_ascii, utf16_capture_done, utf8_capture_boundary,
};
use milkdbg::context::{
    clear_trap_flag, high_u8, low_u16, low_u8, set_trap_flag, watch_dr0, ThreadContext,
    Wow64Context, REG_AH, REG_AL, REG_AX, REG_EAX, REG_EBP, REG_EIP, REG_ESP, REG_NONE, REG_RAX,
};
use milkdbg::instr::{annotation_style, operand_note, AnnotationStyle, OperandNote, MNEMONIC_FLD,
    MNEMONIC_MOV, MNEMONIC_PUSH, OPKIND_MEMORY, OPKIND_REGISTER};

fn ctx() -> ThreadContext {
    ThreadContext {
        ip: 0x0040_1000,
        sp: 0x0012_F000,
        bp: 0x0012_F040,
        ax: 0x1234_5678_9ABC_DEF0,
        bx: 2,
        cx: 3,
        dx: 4,
        si: 5,
        di: 6,
        dr6: 0,
    }
}

#[test]
fn partial_registers_mask_their_backing_fields() {
    assert_eq!(high_u8(0x1234), 0x12);
    assert_eq!(low_u8(0x1234), 0x34);
    assert_eq!(low_u16(0xABCD_1234), 0x1234);
    let c = ctx();
    assert_eq!(c.get(REG_EAX), Some(0x1234_5678_9ABC_DEF0));
    assert_eq!(c.get(REG_RAX), Some(0x1234_5678_9ABC_DEF0));
    assert_eq!(c.get(REG_AX), Some(0xDEF0));
    assert_eq!(c.get(REG_AL), Some(0xF0));
    assert_eq!(c.get(REG_AH), Some(0xDE));
    assert_eq!(c.get(REG_ESP), Some(0x0012_F000));
    assert_eq!(c.get(REG_EIP), Some(0x0040_1000));
    assert_eq!(c.get(REG_NONE), Some(0));
    assert_eq!(c.get(9999), None);
}

#[test]
fn wow64_context_normalizes() {
    let w = Wow64Context {
        eip: 0x0040_1000,
        esp: 0x0012_F000,
        ebp: 0x0012_F040,
        eax: 1,
        ebx: 2,
        ecx: 3,
        edx: 4,
        esi: 5,
        edi: 6,
        eflags: 0,
        dr0: 0,
        dr6: 0x5,
        dr7: 0,
    };
    let c = ThreadContext::from_wow64(&w);
    assert_eq!(c.ip, 0x0040_1000);
    assert_eq!(c.dr6, 5);
}

#[test]
fn trap_flag_set_and_clear() {
    let w = Wow64Context {
        eip: 0x10,
        esp: 0,
        ebp: 0,
        eax: 0,
        ebx: 0,
        ecx: 0,
        edx: 0,
        esi: 0,
        edi: 0,
        eflags: 0x202,
        dr0: 0,
        dr6: 0,
        dr7: 0,
    };
    let on = set_trap_flag(&w, Some(0x0040_2000));
    assert_eq!(on.eflags, 0x302);
    assert_eq!(on.eip, 0x0040_2000);
    let off = clear_trap_flag(&on, None);
    assert_eq!(off.eflags, 0x202);
    assert_eq!(off.eip, 0x0040_2000);
}

#[test]
fn hardware_watch_arms_the_first_debug_register() {
    let w = Wow64Context {
        eip: 0,
        esp: 0,
        ebp: 0,
        eax: 0,
        ebx: 0,
        ecx: 0,
        edx: 0,
        esi: 0,
        edi: 0,
        eflags: 0,
        dr0: 0,
        dr6: 0xFF,
        dr7: 0x000F_0000,
    };
    let armed = watch_dr0(&w, 0x0050_0000);
    assert_eq!(armed.dr0, 0x0050_0000);
    assert_eq!(armed.dr7, 0x0000_0001);
    assert_eq!(armed.dr6, 0);
}

#[test]
fn annotation_styles_follow_the_mnemonic() {
    assert_eq!(annotation_style(MNEMONIC_MOV), AnnotationStyle::TwoOps);
    assert_eq!(annotation_style(MNEMONIC_PUSH), AnnotationStyle::OneOp);
    assert_eq!(annotation_style(MNEMONIC_FLD), AnnotationStyle::FloatOp);
    assert_eq!(annotation_style(1), AnnotationStyle::Plain);
}

#[test]
fn operand_notes_carry_addresses_and_values() {
    let c = ctx();
    let mem = operand_note(&c, OPKIND_MEMORY, 0, REG_EBP, 8, false).unwrap();
    assert_eq!(mem, OperandNote::MemoryU32 { addr: 0x0012_F048 });
    let reg = operand_note(&c, OPKIND_REGISTER, REG_ESP, 0, 0, false).unwrap();
    assert_eq!(reg, OperandNote::Register { code: REG_ESP, value: 0x0012_F000 });
    let fl = operand_note(&c, OPKIND_MEMORY, 0, REG_EBP, 4, true).unwrap();
    assert_eq!(fl, OperandNote::MemoryF32 { addr: 0x0012_F044 });
}

#[test]
fn little_endian_reads() {
    let v = vec![0xEF, 0xBE, 0xAD, 0xDE];
    assert_eq!(read_u16_le(&v, 0), 0xBEEF);
    assert_eq!(read_u32_le(&v, 0), 0xDEAD_BEEF);
}

#[test]
fn hex_parsing_and_printing() {
    assert_eq!(parse_hex("401000"), Some(0x401000));
    assert_eq!(parse_hex("1A3f"), Some(0x1A3F));
    assert_eq!(parse_hex(""), None);
    assert_eq!(parse_hex("xyz"), None);
    assert_eq!(hex_string(0), "0");
    assert_eq!(hex_string(0x40ABC), "40ABC");
}

#[test]
fn zero_terminated_arrays_read_as_text() {
    let v = vec![b'k', b'e', b'r', b'n', 0, b'x'];
    assert_eq!(string_from_array_with_zero(&v).unwrap(), "kern");
    let unterminated = vec![b'a', b'b'];
    assert!(string_from_array_with_zero(&unterminated).is_none());
    assert_eq!(string_from_ascii(vec![0x48, 0x69]), "Hi");
}

#[test]
fn capture_boundaries() {
    assert!(utf8_capture_boundary(0));
    assert!(utf8_capture_boundary(31));
    assert!(!utf8_capture_boundary(b'A'));
    assert!(utf8_capture_boundary(127));
    assert!(utf16_capture_done(0, 0));
    assert!(!utf16_capture_done(5, b'A' as u16));
    assert!(utf16_capture_done(1024, b'A' as u16));
}
