//! Parser for 32-bit executable images: DOS header, COFF header,
//! optional header, and the data-directory table, decoded field by field
//! from an in-memory byte buffer with explicit little-endian reads.

use vstd::prelude::*;

use crate::bytes::{ascii_chars, copy_range, read_u16_le, read_u32_le, scan_cstr, spec_cstr_end, spec_le16, spec_le32, string_from_ascii};

verus! {

/// Why a parse was refused.
#[derive(Clone, Copy, Debug, PartialEq, Eq, Structural)]
pub enum ParseError {
    /// A header or table does not fit in the buffer.
    OutOfBounds,
    /// The image signature is not `PE\0\0`.
    WrongSignature,
    /// The machine field names an architecture this parser does not take.
    UnsupportedMachine,
    /// A name is not valid text.
    BadEncoding,
}

/// A file offset stored inside a header.
#[derive(Clone, Copy, Debug, PartialEq, Eq, Structural)]
pub struct ForwardOffset(pub u32);

/// A relative virtual address: an offset from the image's base address.
#[derive(Clone, Copy, Debug, PartialEq, Eq, Structural)]
pub struct RVA(pub u32);

impl RVA {
    /// The absolute address of this offset in an image mapped at `base`.
    pub fn to_va(&self, base: usize) -> (r: usize)
        requires
            base + self.0 <= usize::MAX,
        ensures
            r == base + self.0,
    {
        base + self.0 as usize
    }
}

pub const MACHINE_I386: u16 = 0x014C;

pub const PE_SIGNATURE: u32 = 0x00004550;

#[derive(Clone, Copy, Debug)]
pub struct PeDosHeader {
    pub e_magic: u16,
    pub e_cblp: u16,
    pub e_cp: u16,
    pub e_crlc: u16,
    pub e_cparhdr: u16,
    pub e_minalloc: u16,
    pub e_maxalloc: u16,
    pub e_ss: u16,
    pub e_sp: u16,
    pub e_csum: u16,
    pub e_ip: u16,
    pub e_cs: u16,
    pub e_lfarlc: u16,
    pub e_ovno: u16,
    pub e_oemid: u16,
    pub e_oeminfo: u16,
    pub e_lfanew: ForwardOffset,
}

#[derive(Clone, Copy, Debug, PartialEq, Eq, Structural)]
pub enum ImageFileMachine {
    Unknown,
    TargetHost,
    I386,
    R3000,
    R4000,
    R10000,
    WCEMIPSV2,
    Alpha,
    SH3,
    SH3DSP,
    SH3E,
    SH4,
    SH5,
    ARM,
    Thumb,
    ARMNT,
    AM33,
    PowerPC,
    PowerPCFP,
    IA64,
    MIPS16,
    Alpha64,
    MIPSFPU,
    MIPSFPU16,
    TRICORE,
    CEF,
    EBC,
    AMD64,
    M32R,
    ARM64,
    CEE,
    Other,
}

/// The architecture that a machine id names.
pub open spec fn spec_machine_of(v: int) -> ImageFileMachine {
    if v == 0x0000 {
        ImageFileMachine::Unknown
    } else if v == 0x0001 {
        ImageFileMachine::TargetHost
    } else if v == 0x014C {
        ImageFileMachine::I386
    } else if v == 0x0162 {
        ImageFileMachine::R3000
    } else if v == 0x0166 {
        ImageFileMachine::R4000
    } else if v == 0x0168 {
        ImageFileMachine::R10000
    } else if v == 0x0169 {
        ImageFileMachine::WCEMIPSV2
    } else if v == 0x0184 {
        ImageFileMachine::Alpha
    } else if v == 0x01A2 {
        ImageFileMachine::SH3
    } else if v == 0x01A3 {
        ImageFileMachine::SH3DSP
    } else if v == 0x01A4 {
        ImageFileMachine::SH3E
    } else if v == 0x01A6 {
        ImageFileMachine::SH4
    } else if v == 0x01A8 {
        ImageFileMachine::SH5
    } else if v == 0x01C0 {
        ImageFileMachine::ARM
    } else if v == 0x01C2 {
        ImageFileMachine::Thumb
    } else if v == 0x01C4 {
        ImageFileMachine::ARMNT
    } else if v == 0x01D3 {
        ImageFileMachine::AM33
    } else if v == 0x01F0 {
        ImageFileMachine::PowerPC
    } else if v == 0x01F1 {
        ImageFileMachine::PowerPCFP
    } else if v == 0x0200 {
        ImageFileMachine::IA64
    } else if v == 0x0266 {
        ImageFileMachine::MIPS16
    } else if v == 0x0284 {
        ImageFileMachine::Alpha64
    } else if v == 0x0366 {
        ImageFileMachine::MIPSFPU
    } else if v == 0x0466 {
        ImageFileMachine::MIPSFPU16
    } else if v == 0x0520 {
        ImageFileMachine::TRICORE
    } else if v == 0x0CEF {
        ImageFileMachine::CEF
    } else if v == 0x0EBC {
        ImageFileMachine::EBC
    } else if v == 0x8664 {
        ImageFileMachine::AMD64
    } else if v == 0x9041 {
        ImageFileMachine::M32R
    } else if v == 0xAA64 {
        ImageFileMachine::ARM64
    } else if v == 0xC0EE {
        ImageFileMachine::CEE
    } else {
        ImageFileMachine::Other
    }
}

/// The architecture that a machine id names.
pub fn machine_of(v: u16) -> (r: ImageFileMachine)
    ensures
        r == spec_machine_of(v as int),
{
    if v == 0x0000 {
        ImageFileMachine::Unknown
    } else if v == 0x0001 {
        ImageFileMachine::TargetHost
    } else if v == 0x014C {
        ImageFileMachine::I386
    } else if v == 0x0162 {
        ImageFileMachine::R3000
    } else if v == 0x0166 {
        ImageFileMachine::R4000
    } else if v == 0x0168 {
        ImageFileMachine::R10000
    } else if v == 0x0169 {
        ImageFileMachine::WCEMIPSV2
    } else if v == 0x0184 {
        ImageFileMachine::Alpha
    } else if v == 0x01A2 {
        ImageFileMachine::SH3
    } else if v == 0x01A3 {
        ImageFileMachine::SH3DSP
    } else if v == 0x01A4 {
        ImageFileMachine::SH3E
    } else if v == 0x01A6 {
        ImageFileMachine::SH4
    } else if v == 0x01A8 {
        ImageFileMachine::SH5
    } else if v == 0x01C0 {
        ImageFileMachine::ARM
    } else if v == 0x01C2 {
        ImageFileMachine::Thumb
    } else if v == 0x01C4 {
        ImageFileMachine::ARMNT
    } else if v == 0x01D3 {
        ImageFileMachine::AM33
    } else if v == 0x01F0 {
        ImageFileMachine::PowerPC
    } else if v == 0x01F1 {
        ImageFileMachine::PowerPCFP
    } else if v == 0x0200 {
        ImageFileMachine::IA64
    } else if v == 0x0266 {
        ImageFileMachine::MIPS16
    } else if v == 0x0284 {
        ImageFileMachine::Alpha64
    } else if v == 0x0366 {
        ImageFileMachine::MIPSFPU
    } else if v == 0x0466 {
        ImageFileMachine::MIPSFPU16
    } else if v == 0x0520 {
        ImageFileMachine::TRICORE
    } else if v == 0x0CEF {
        ImageFileMachine::CEF
    } else if v == 0x0EBC {
        ImageFileMachine::EBC
    } else if v == 0x8664 {
        ImageFileMachine::AMD64
    } else if v == 0x9041 {
        ImageFileMachine::M32R
    } else if v == 0xAA64 {
        ImageFileMachine::ARM64
    } else if v == 0xC0EE {
        ImageFileMachine::CEE
    } else {
        ImageFileMachine::Other
    }
}

#[derive(Clone, Copy, Debug)]
pub struct PeCoffHeader {
    pub machine: ImageFileMachine,
    pub number_of_sections: u16,
    pub time_date_stamp: u32,
    pub pointer_to_symbol_table: ForwardOffset,
    pub number_of_symbols: u32,
    pub size_of_optional_header: u16,
    pub characteristics: u16,
}

#[derive(Clone, Copy, Debug, PartialEq, Eq, Structural)]
pub enum OptionalHeader32Magic {
    PE32,
    PE32Plus,
}

#[derive(Clone, Copy, Debug)]
pub struct PeOptionalHeader32 {
    pub magic: OptionalHeader32Magic,
    pub major_linker_version: u8,
    pub minor_linker_version: u8,
    pub size_of_code: u32,
    pub size_of_initialized_data: u32,
    pub size_of_uninitialized_data: u32,
    pub address_of_entry_point: RVA,
    pub base_of_code: RVA,
    pub base_of_data: RVA,
    pub image_base: u32,
    pub section_alignment: u32,
    pub file_alignment: u32,
    pub major_operating_system_version: u16,
    pub minor_operating_system_version: u16,
    pub major_image_version: u16,
    pub minor_image_version: u16,
    pub major_subsystem_version: u16,
    pub minor_subsystem_version: u16,
    pub win32_version_value: u32,
    pub size_of_image: u32,
    pub size_of_headers: u32,
    pub checksum: u32,
    pub subsystem: u16,
    pub dll_characteristics: u16,
    pub size_of_stack_reserve: u32,
    pub size_of_stack_commit: u32,
    pub size_of_heap_reserve: u32,
    pub size_of_heap_commit: u32,
    pub loader_flags: u32,
    pub number_of_rva_and_sizes: u32,
}

#[derive(Clone, Copy, Debug)]
pub struct PeDataDirectory {
    pub virtual_address: RVA,
    pub size: u32,
}

#[derive(Clone, Copy, Debug)]
pub struct PeExportSection {
    pub characteristics: u32,
    pub time_date_stamp: u32,
    pub major_version: u16,
    pub minor_version: u16,
    pub name: RVA,
    pub base: u32,
    pub number_of_functions: u32,
    pub number_of_names: u32,
    pub address_of_functions: RVA,
    pub address_of_names: RVA,
    pub address_of_name_ordinals: RVA,
}

#[derive(Clone, Copy, Debug)]
pub struct PeImportBinary {
    pub original_first_thunk: RVA,
    pub time_date_stamp: u32,
    pub forwarder_chain: u32,
    pub name: RVA,
    pub first_thunk: RVA,
}

#[derive(Clone, Copy, Debug, PartialEq, Eq, Structural)]
pub struct RawImportThunkData {
    pub data: u32,
}

/// How one import-table entry names the routine it wants.
#[derive(Clone, Debug)]
pub enum ThunkData {
    Ordinal(u32),
    ImportedByName { hint: u16, name: String },
}

/// The 32-bit optional-header variants an image can carry.
pub enum PeOptional {
    PE32(PeOptionalHeader32),
}

/// A parsed image: its headers, its data-directory table, and the bytes
/// they were decoded from.
pub struct PE {
    pub dos_header: PeDosHeader,
    pub coff_header: PeCoffHeader,
    pub optional: PeOptional,
    pub data_directory: Vec<PeDataDirectory>,
    pub bytes: Vec<u8>,
}

/// The DOS header's fields are the little-endian values at their fixed
/// offsets (reserved ranges are not constrained).
pub open spec fn dos_header_matches(h: PeDosHeader, s: Seq<u8>) -> bool {
    &&& h.e_magic == spec_le16(s, 0)
    &&& h.e_cblp == spec_le16(s, 2)
    &&& h.e_cp == spec_le16(s, 4)
    &&& h.e_crlc == spec_le16(s, 6)
    &&& h.e_cparhdr == spec_le16(s, 8)
    &&& h.e_minalloc == spec_le16(s, 10)
    &&& h.e_maxalloc == spec_le16(s, 12)
    &&& h.e_ss == spec_le16(s, 14)
    &&& h.e_sp == spec_le16(s, 16)
    &&& h.e_csum == spec_le16(s, 18)
    &&& h.e_ip == spec_le16(s, 20)
    &&& h.e_cs == spec_le16(s, 22)
    &&& h.e_lfarlc == spec_le16(s, 24)
    &&& h.e_ovno == spec_le16(s, 26)
    &&& h.e_oemid == spec_le16(s, 36)
    &&& h.e_oeminfo == spec_le16(s, 38)
    &&& h.e_lfanew.0 == spec_le32(s, 60)
}

pub open spec fn coff_header_matches(h: PeCoffHeader, s: Seq<u8>, off: int) -> bool {
    &&& h.machine == spec_machine_of(spec_le16(s, off))
    &&& h.number_of_sections == spec_le16(s, off + 2)
    &&& h.time_date_stamp == spec_le32(s, off + 4)
    &&& h.pointer_to_symbol_table.0 == spec_le32(s, off + 8)
    &&& h.number_of_symbols == spec_le32(s, off + 12)
    &&& h.size_of_optional_header == spec_le16(s, off + 16)
    &&& h.characteristics == spec_le16(s, off + 18)
}

pub open spec fn opt32_matches(h: PeOptionalHeader32, s: Seq<u8>, off: int) -> bool {
    &&& spec_le16(s, off) == 0x10B ==> h.magic == OptionalHeader32Magic::PE32
    &&& spec_le16(s, off) == 0x20B ==> h.magic == OptionalHeader32Magic::PE32Plus
    &&& h.major_linker_version == s[off + 2]
    &&& h.minor_linker_version == s[off + 3]
    &&& h.size_of_code == spec_le32(s, off + 4)
    &&& h.size_of_initialized_data == spec_le32(s, off + 8)
    &&& h.size_of_uninitialized_data == spec_le32(s, off + 12)
    &&& h.address_of_entry_point.0 == spec_le32(s, off + 16)
    &&& h.base_of_code.0 == spec_le32(s, off + 20)
    &&& h.base_of_data.0 == spec_le32(s, off + 24)
    &&& h.image_base == spec_le32(s, off + 28)
    &&& h.section_alignment == spec_le32(s, off + 32)
    &&& h.file_alignment == spec_le32(s, off + 36)
    &&& h.major_operating_system_version == spec_le16(s, off + 40)
    &&& h.minor_operating_system_version == spec_le16(s, off + 42)
    &&& h.major_image_version == spec_le16(s, off + 44)
    &&& h.minor_image_version == spec_le16(s, off + 46)
    &&& h.major_subsystem_version == spec_le16(s, off + 48)
    &&& h.minor_subsystem_version == spec_le16(s, off + 50)
    &&& h.win32_version_value == spec_le32(s, off + 52)
    &&& h.size_of_image == spec_le32(s, off + 56)
    &&& h.size_of_headers == spec_le32(s, off + 60)
    &&& h.checksum == spec_le32(s, off + 64)
    &&& h.subsystem == spec_le16(s, off + 68)
    &&& h.dll_characteristics == spec_le16(s, off + 70)
    &&& h.size_of_stack_reserve == spec_le32(s, off + 72)
    &&& h.size_of_stack_commit == spec_le32(s, off + 76)
    &&& h.size_of_heap_reserve == spec_le32(s, off + 80)
    &&& h.size_of_heap_commit == spec_le32(s, off + 84)
    &&& h.loader_flags == spec_le32(s, off + 88)
    &&& h.number_of_rva_and_sizes == spec_le32(s, off + 92)
}

pub open spec fn dir_matches(d: PeDataDirectory, s: Seq<u8>, off: int) -> bool {
    &&& d.virtual_address.0 == spec_le32(s, off)
    &&& d.size == spec_le32(s, off + 4)
}

pub open spec fn export_section_matches(e: PeExportSection, s: Seq<u8>, off: int) -> bool {
    &&& e.characteristics == spec_le32(s, off)
    &&& e.time_date_stamp == spec_le32(s, off + 4)
    &&& e.major_version == spec_le16(s, off + 8)
    &&& e.minor_version == spec_le16(s, off + 10)
    &&& e.name.0 == spec_le32(s, off + 12)
    &&& e.base == spec_le32(s, off + 16)
    &&& e.number_of_functions == spec_le32(s, off + 20)
    &&& e.number_of_names == spec_le32(s, off + 24)
    &&& e.address_of_functions.0 == spec_le32(s, off + 28)
    &&& e.address_of_names.0 == spec_le32(s, off + 32)
    &&& e.address_of_name_ordinals.0 == spec_le32(s, off + 36)
}

pub open spec fn import_matches(m: PeImportBinary, s: Seq<u8>, off: int) -> bool {
    &&& m.original_first_thunk.0 == spec_le32(s, off)
    &&& m.time_date_stamp == spec_le32(s, off + 4)
    &&& m.forwarder_chain == spec_le32(s, off + 8)
    &&& m.name.0 == spec_le32(s, off + 12)
    &&& m.first_thunk.0 == spec_le32(s, off + 16)
}

/// The offset of the image signature: the forward offset stored in the
/// DOS header.
pub open spec fn spec_lfanew(s: Seq<u8>) -> int {
    spec_le32(s, 60)
}

/// The machine id of the COFF header.
pub open spec fn spec_machine_id(s: Seq<u8>) -> int {
    spec_le16(s, spec_lfanew(s) + 4)
}

/// How many data-directory entries the optional header declares.
pub open spec fn spec_ndirs(s: Seq<u8>) -> int {
    spec_le32(s, spec_lfanew(s) + 116)
}

/// The error a parse of `s` stops with, in the order the checks run, or
/// `None` when the whole layout fits and is a 32-bit image.
pub open spec fn spec_parse_error(s: Seq<u8>) -> Option<ParseError> {
    if s.len() < 64 {
        Some(ParseError::OutOfBounds)
    } else if spec_lfanew(s) + 4 > s.len() {
        Some(ParseError::OutOfBounds)
    } else if spec_le32(s, spec_lfanew(s)) != PE_SIGNATURE {
        Some(ParseError::WrongSignature)
    } else if spec_lfanew(s) + 24 > s.len() {
        Some(ParseError::OutOfBounds)
    } else if spec_machine_id(s) != MACHINE_I386 {
        Some(ParseError::UnsupportedMachine)
    } else if spec_lfanew(s) + 120 > s.len() {
        Some(ParseError::OutOfBounds)
    } else if spec_lfanew(s) + 120 + 8 * spec_ndirs(s) > s.len() {
        Some(ParseError::OutOfBounds)
    } else {
        None
    }
}

/// Everything `from_vec` promises of a successfully parsed image.
pub open spec fn parsed_from(pe: &PE, s: Seq<u8>) -> bool {
    &&& spec_parse_error(s) is None
    &&& pe.spec_bytes() == s
    &&& dos_header_matches(pe.dos_header, s)
    &&& coff_header_matches(pe.coff_header, s, spec_lfanew(s) + 4)
    &&& pe.optional matches PeOptional::PE32(o) && opt32_matches(o, s, spec_lfanew(s) + 24)
    &&& pe.data_directory@.len() == spec_ndirs(s)
    &&& forall|k: int|
        0 <= k < pe.data_directory@.len() ==> dir_matches(
            #[trigger] pe.data_directory@[k],
            s,
            spec_lfanew(s) + 120 + 8 * k,
        )
}

/// An all-zero import descriptor: every one of its five fields is
/// zero. It ends the import walk.
pub open spec fn spec_import_zero(s: Seq<u8>, off: int) -> bool {
    &&& spec_le32(s, off) == 0
    &&& spec_le32(s, off + 4) == 0
    &&& spec_le32(s, off + 8) == 0
    &&& spec_le32(s, off + 12) == 0
    &&& spec_le32(s, off + 16) == 0
}

/// How many import descriptors stand at `off`, walking 20-byte entries
/// until an all-zero descriptor, or until the buffer ends.
pub open spec fn spec_import_count(s: Seq<u8>, off: int) -> nat
    decreases s.len() - off,
{
    if off < 0 || off + 20 > s.len() {
        0
    } else if spec_import_zero(s, off) {
        0
    } else {
        1 + spec_import_count(s, off + 20)
    }
}

/// How many import thunks stand at `off`, walking 4-byte entries until a
/// zero entry, or until the buffer ends.
pub open spec fn spec_thunk_count(s: Seq<u8>, off: int) -> nat
    decreases s.len() - off,
{
    if off < 0 || off + 4 > s.len() {
        0
    } else if spec_le32(s, off) == 0 {
        0
    } else {
        1 + spec_thunk_count(s, off + 4)
    }
}


/// A byte the heuristic string reader accepts: ASCII alphanumeric,
/// punctuation, or whitespace.
pub open spec fn spec_heuristic_byte_ok(b: u8) -> bool {
    ||| 0x30 <= b <= 0x39
    ||| 0x41 <= b <= 0x5A
    ||| 0x61 <= b <= 0x7A
    ||| 0x21 <= b <= 0x2F
    ||| 0x3A <= b <= 0x40
    ||| 0x5B <= b <= 0x60
    ||| 0x7B <= b <= 0x7E
    ||| b == 0x20
    ||| b == 0x09
    ||| b == 0x0A
    ||| b == 0x0C
    ||| b == 0x0D
}

/// The first position at or after `off` where the heuristic scan stops:
/// a zero byte, a byte it does not accept, or the buffer's end.
pub open spec fn spec_heuristic_end(s: Seq<u8>, off: int) -> int
    decreases s.len() - off,
{
    if off < 0 || off >= s.len() {
        off
    } else if s[off] == 0 || !spec_heuristic_byte_ok(s[off]) {
        off
    } else {
        spec_heuristic_end(s, off + 1)
    }
}

impl PeOptional {
    /// The base address the image asks to be mapped at.
    pub fn get_image_base(&self) -> (r: usize)
        ensures
            self matches PeOptional::PE32(o) && r == o.image_base,
    {
        match self {
            PeOptional::PE32(pe) => pe.image_base as usize,
        }
    }

    /// The offset of the code section.
    pub fn get_code_base(&self) -> (r: RVA)
        ensures
            self matches PeOptional::PE32(o) && r == o.base_of_code,
    {
        match self {
            PeOptional::PE32(pe) => pe.base_of_code,
        }
    }

    /// The offset and length of the code section.
    pub fn get_code(&self) -> (r: (RVA, usize))
        ensures
            self matches PeOptional::PE32(o) && r.0 == o.base_of_code && r.1 == o.size_of_code,
    {
        match self {
            PeOptional::PE32(pe) => (pe.base_of_code, pe.size_of_code as usize),
        }
    }

    /// The offset of the image's entry point.
    pub fn get_address_of_entry_point(&self) -> (r: RVA)
        ensures
            self matches PeOptional::PE32(o) && r == o.address_of_entry_point,
    {
        match self {
            PeOptional::PE32(pe) => pe.address_of_entry_point,
        }
    }
}

impl PE {
    /// The bytes the image was parsed from.
    pub open spec fn spec_bytes(&self) -> Seq<u8> {
        self.bytes@
    }

    /// Parses an image from a byte buffer. Succeeds exactly on buffers
    /// whose DOS header, signature, COFF header, 32-bit optional header
    /// and data-directory table all fit, whose signature is `PE\0\0`,
    /// and whose machine id names a 32-bit x86 image.
    pub fn from_vec(bytes: Vec<u8>) -> (r: Result<PE, ParseError>)
        ensures
            match r {
                Ok(pe) => parsed_from(&pe, bytes@),
                Err(e) => spec_parse_error(bytes@) == Some(e),
            },
    {
        let v = &bytes;
        if v.len() < 64 {
            return Err(ParseError::OutOfBounds);
        }
        let dos_header = PeDosHeader {
            e_magic: read_u16_le(v, 0),
            e_cblp: read_u16_le(v, 2),
            e_cp: read_u16_le(v, 4),
            e_crlc: read_u16_le(v, 6),
            e_cparhdr: read_u16_le(v, 8),
            e_minalloc: read_u16_le(v, 10),
            e_maxalloc: read_u16_le(v, 12),
            e_ss: read_u16_le(v, 14),
            e_sp: read_u16_le(v, 16),
            e_csum: read_u16_le(v, 18),
            e_ip: read_u16_le(v, 20),
            e_cs: read_u16_le(v, 22),
            e_lfarlc: read_u16_le(v, 24),
            e_ovno: read_u16_le(v, 26),
            e_oemid: read_u16_le(v, 36),
            e_oeminfo: read_u16_le(v, 38),
            e_lfanew: ForwardOffset(read_u32_le(v, 60)),
        };
        let lfa = dos_header.e_lfanew.0 as usize;
        if lfa > v.len() || v.len() - lfa < 4 {
            return Err(ParseError::OutOfBounds);
        }
        if read_u32_le(v, lfa) != PE_SIGNATURE {
            return Err(ParseError::WrongSignature);
        }
        if v.len() - lfa < 24 {
            return Err(ParseError::OutOfBounds);
        }
        let coff_off = lfa + 4;
        let coff_header = PeCoffHeader {
            machine: machine_of(read_u16_le(v, coff_off)),
            number_of_sections: read_u16_le(v, coff_off + 2),
            time_date_stamp: read_u32_le(v, coff_off + 4),
            pointer_to_symbol_table: ForwardOffset(read_u32_le(v, coff_off + 8)),
            number_of_symbols: read_u32_le(v, coff_off + 12),
            size_of_optional_header: read_u16_le(v, coff_off + 16),
            characteristics: read_u16_le(v, coff_off + 18),
        };
        if !matches!(coff_header.machine, ImageFileMachine::I386) {
            return Err(ParseError::UnsupportedMachine);
        }
        if v.len() - lfa < 120 {
            return Err(ParseError::OutOfBounds);
        }
        let opt_off = lfa + 24;
        let magic_raw = read_u16_le(v, opt_off);
        let magic = if magic_raw == 0x20B {
            OptionalHeader32Magic::PE32Plus
        } else {
            OptionalHeader32Magic::PE32
        };
        let opt = PeOptionalHeader32 {
            magic,
            major_linker_version: v[opt_off + 2],
            minor_linker_version: v[opt_off + 3],
            size_of_code: read_u32_le(v, opt_off + 4),
            size_of_initialized_data: read_u32_le(v, opt_off + 8),
            size_of_uninitialized_data: read_u32_le(v, opt_off + 12),
            address_of_entry_point: RVA(read_u32_le(v, opt_off + 16)),
            base_of_code: RVA(read_u32_le(v, opt_off + 20)),
            base_of_data: RVA(read_u32_le(v, opt_off + 24)),
            image_base: read_u32_le(v, opt_off + 28),
            section_alignment: read_u32_le(v, opt_off + 32),
            file_alignment: read_u32_le(v, opt_off + 36),
            major_operating_system_version: read_u16_le(v, opt_off + 40),
            minor_operating_system_version: read_u16_le(v, opt_off + 42),
            major_image_version: read_u16_le(v, opt_off + 44),
            minor_image_version: read_u16_le(v, opt_off + 46),
            major_subsystem_version: read_u16_le(v, opt_off + 48),
            minor_subsystem_version: read_u16_le(v, opt_off + 50),
            win32_version_value: read_u32_le(v, opt_off + 52),
            size_of_image: read_u32_le(v, opt_off + 56),
            size_of_headers: read_u32_le(v, opt_off + 60),
            checksum: read_u32_le(v, opt_off + 64),
            subsystem: read_u16_le(v, opt_off + 68),
            dll_characteristics: read_u16_le(v, opt_off + 70),
            size_of_stack_reserve: read_u32_le(v, opt_off + 72),
            size_of_stack_commit: read_u32_le(v, opt_off + 76),
            size_of_heap_reserve: read_u32_le(v, opt_off + 80),
            size_of_heap_commit: read_u32_le(v, opt_off + 84),
            loader_flags: read_u32_le(v, opt_off + 88),
            number_of_rva_and_sizes: read_u32_le(v, opt_off + 92),
        };
        let ndirs = opt.number_of_rva_and_sizes as usize;
        let dirs_off = lfa + 120;
        if ndirs > (v.len() - dirs_off) / 8 {
            return Err(ParseError::OutOfBounds);
        }
        let mut data_directory: Vec<PeDataDirectory> = Vec::new();
        let mut k: usize = 0;
        while k < ndirs
            invariant
                k <= ndirs,
                dirs_off + 8 * ndirs <= v.len(),
                data_directory@.len() == k,
                forall|j: int|
                    0 <= j < k ==> dir_matches(#[trigger] data_directory@[j], v@, dirs_off + 8 * j),
            decreases ndirs - k,
        {
            let off = dirs_off + 8 * k;
            data_directory.push(
                PeDataDirectory {
                    virtual_address: RVA(read_u32_le(v, off)),
                    size: read_u32_le(v, off + 4),
                },
            );
            k += 1;
        }
        Ok(
            PE {
                dos_header,
                coff_header,
                optional: PeOptional::PE32(opt),
                data_directory,
                bytes,
            },
        )
    }
}

impl PE {
    /// The data-directory entry at index `i`, if the table has one.
    pub fn get_data_directory(&self, i: usize) -> (r: Option<PeDataDirectory>)
        ensures
            r == if i < self.data_directory@.len() {
                Some(self.data_directory@[i as int])
            } else {
                None::<PeDataDirectory>
            },
    {
        if i < self.data_directory.len() {
            Some(self.data_directory[i])
        } else {
            None
        }
    }

    /// The export directory read at the offset the first data-directory
    /// entry gives, or nothing when that entry is zero, missing, or does
    /// not fit in the buffer.
    pub fn get_export_section(&self) -> (r: Option<PeExportSection>)
        ensures
            match r {
                Some(e) => {
                    &&& self.data_directory@.len() > 0
                    &&& self.data_directory@[0].virtual_address.0 != 0
                    &&& self.data_directory@[0].virtual_address.0 + 40 <= self.spec_bytes().len()
                    &&& export_section_matches(
                        e,
                        self.spec_bytes(),
                        self.data_directory@[0].virtual_address.0 as int,
                    )
                },
                None => {
                    ||| self.data_directory@.len() == 0
                    ||| self.data_directory@[0].virtual_address.0 == 0
                    ||| self.data_directory@[0].virtual_address.0 + 40 > self.spec_bytes().len()
                },
            },
    {
        if self.data_directory.len() == 0 {
            return None;
        }
        let va = self.data_directory[0].virtual_address.0;
        if va == 0 {
            return None;
        }
        let off = va as usize;
        let v = &self.bytes;
        if off > v.len() || v.len() - off < 40 {
            return None;
        }
        Some(
            PeExportSection {
                characteristics: read_u32_le(v, off),
                time_date_stamp: read_u32_le(v, off + 4),
                major_version: read_u16_le(v, off + 8),
                minor_version: read_u16_le(v, off + 10),
                name: RVA(read_u32_le(v, off + 12)),
                base: read_u32_le(v, off + 16),
                number_of_functions: read_u32_le(v, off + 20),
                number_of_names: read_u32_le(v, off + 24),
                address_of_functions: RVA(read_u32_le(v, off + 28)),
                address_of_names: RVA(read_u32_le(v, off + 32)),
                address_of_name_ordinals: RVA(read_u32_le(v, off + 36)),
            },
        )
    }

    /// The import descriptors that stand at the offset the entry at
    /// `idx` in the data-directory table gives, up to the first
    /// all-zero descriptor.
    fn walk_import_descriptors(&self, idx: usize) -> (r: Vec<PeImportBinary>)
        ensures
            self.data_directory@.len() <= idx ==> r@.len() == 0,
            self.data_directory@.len() > idx && self.data_directory@[
                idx as int
            ].virtual_address.0 == 0 ==> r@.len() == 0,
            self.data_directory@.len() > idx && self.data_directory@[
                idx as int
            ].virtual_address.0 != 0 ==> {
                let off0 = self.data_directory@[idx as int].virtual_address.0 as int;
                &&& r@.len() == spec_import_count(self.spec_bytes(), off0)
                &&& forall|k: int|
                    0 <= k < r@.len() ==> import_matches(
                        #[trigger] r@[k],
                        self.spec_bytes(),
                        off0 + 20 * k,
                    )
            },
    {
        let mut out: Vec<PeImportBinary> = Vec::new();
        if self.data_directory.len() <= idx {
            return out;
        }
        let va = self.data_directory[idx].virtual_address.0;
        if va == 0 {
            return out;
        }
        let off0 = va as usize;
        let v = &self.bytes;
        let ghost s = self.spec_bytes();
        let mut off: usize = off0;
        loop
            invariant
                off == off0 + 20 * out@.len(),
                spec_import_count(s, off0 as int) == out@.len() + spec_import_count(s, off as int),
                forall|k: int|
                    0 <= k < out@.len() ==> import_matches(#[trigger] out@[k], s, off0 + 20 * k),
                v@ == s,
                off >= off0,
            ensures
                spec_import_count(s, off0 as int) == out@.len(),
                forall|k: int|
                    0 <= k < out@.len() ==> import_matches(#[trigger] out@[k], s, off0 + 20 * k),
            decreases s.len() - off,
        {
            if off > v.len() || v.len() - off < 20 {
                break ;
            }
            let entry = PeImportBinary {
                original_first_thunk: RVA(read_u32_le(v, off)),
                time_date_stamp: read_u32_le(v, off + 4),
                forwarder_chain: read_u32_le(v, off + 8),
                name: RVA(read_u32_le(v, off + 12)),
                first_thunk: RVA(read_u32_le(v, off + 16)),
            };
            if entry.original_first_thunk.0 == 0 && entry.time_date_stamp == 0
                && entry.forwarder_chain == 0 && entry.name.0 == 0 && entry.first_thunk.0 == 0 {
                break ;
            }
            out.push(entry);
            off = off + 20;
        }
        out
    }

    /// The import descriptors of the import table: the walk starts at
    /// the second data-directory entry and stops at the first
    /// all-zero descriptor.
    pub fn get_imports(&self) -> (r: Vec<PeImportBinary>)
        ensures
            self.data_directory@.len() <= 1 ==> r@.len() == 0,
            self.data_directory@.len() > 1 && self.data_directory@[1].virtual_address.0 == 0
                ==> r@.len() == 0,
            self.data_directory@.len() > 1 && self.data_directory@[1].virtual_address.0 != 0 ==> {
                let off0 = self.data_directory@[1].virtual_address.0 as int;
                &&& r@.len() == spec_import_count(self.spec_bytes(), off0)
                &&& forall|k: int|
                    0 <= k < r@.len() ==> import_matches(
                        #[trigger] r@[k],
                        self.spec_bytes(),
                        off0 + 20 * k,
                    )
            },
    {
        self.walk_import_descriptors(1)
    }

    /// The import descriptors of the import-address table: the same
    /// walk, started at the thirteenth data-directory entry.
    pub fn get_iat(&self) -> (r: Vec<PeImportBinary>)
        ensures
            self.data_directory@.len() <= 12 ==> r@.len() == 0,
            self.data_directory@.len() > 12 && self.data_directory@[12].virtual_address.0 == 0
                ==> r@.len() == 0,
            self.data_directory@.len() > 12 && self.data_directory@[12].virtual_address.0 != 0
                ==> {
                let off0 = self.data_directory@[12].virtual_address.0 as int;
                &&& r@.len() == spec_import_count(self.spec_bytes(), off0)
                &&& forall|k: int|
                    0 <= k < r@.len() ==> import_matches(
                        #[trigger] r@[k],
                        self.spec_bytes(),
                        off0 + 20 * k,
                    )
            },
    {
        self.walk_import_descriptors(12)
    }

    /// The raw thunks of one import descriptor: 32-bit entries starting
    /// at its original-first-thunk (or first-thunk) offset, up to the
    /// first zero entry.
    pub fn get_raw_import_thunks_of(&self, import: &PeImportBinary, original: bool) -> (r: Vec<
        RawImportThunkData,
    >)
        ensures
            ({
                let off0 = if original {
                    import.original_first_thunk.0 as int
                } else {
                    import.first_thunk.0 as int
                };
                &&& r@.len() == spec_thunk_count(self.spec_bytes(), off0)
                &&& forall|k: int|
                    0 <= k < r@.len() ==> (#[trigger] r@[k]).data == spec_le32(
                        self.spec_bytes(),
                        off0 + 4 * k,
                    )
            }),
    {
        let off0: usize = if original {
            import.original_first_thunk.0 as usize
        } else {
            import.first_thunk.0 as usize
        };
        let v = &self.bytes;
        let ghost s = self.spec_bytes();
        let mut out: Vec<RawImportThunkData> = Vec::new();
        let mut off: usize = off0;
        loop
            invariant
                off == off0 + 4 * out@.len(),
                spec_thunk_count(s, off0 as int) == out@.len() + spec_thunk_count(s, off as int),
                forall|k: int|
                    0 <= k < out@.len() ==> (#[trigger] out@[k]).data == spec_le32(s, off0 + 4 * k),
                v@ == s,
                off >= off0,
            ensures
                spec_thunk_count(s, off0 as int) == out@.len(),
                forall|k: int|
                    0 <= k < out@.len() ==> (#[trigger] out@[k]).data == spec_le32(s, off0 + 4 * k),
            decreases s.len() - off,
        {
            if off > v.len() || v.len() - off < 4 {
                break ;
            }
            let data = read_u32_le(v, off);
            if data == 0 {
                break ;
            }
            out.push(RawImportThunkData { data });
            off = off + 4;
        }
        out
    }

    /// What a raw thunk names: the ordinal in its low 31 bits when its
    /// high bit is set, else the hint and ASCII name read at the offset
    /// in its low 31 bits.
    pub fn get_thunk_from_raw(&self, thunk: &RawImportThunkData) -> (r: Result<
        ThunkData,
        ParseError,
    >)
        ensures
            thunk.data & 0x80000000 != 0 ==> r == Ok::<ThunkData, ParseError>(
                ThunkData::Ordinal(thunk.data & 0x7FFFFFFF),
            ),
            thunk.data & 0x80000000 == 0 ==> {
                let s = self.spec_bytes();
                let off = thunk.data as int;
                let end = spec_cstr_end(s, off + 2);
                if off + 2 > s.len() {
                    r == Err::<ThunkData, ParseError>(ParseError::OutOfBounds)
                } else if exists|i: int| off + 2 <= i < end && s[i] >= 0x80 {
                    r == Err::<ThunkData, ParseError>(ParseError::BadEncoding)
                } else {
                    r matches Ok(t) && t matches ThunkData::ImportedByName { hint, name }
                        && hint == spec_le16(s, off) && name@ == ascii_chars(
                        s.subrange(off + 2, end),
                    )
                }
            },
    {
        if thunk.data & 0x80000000 != 0 {
            return Ok(ThunkData::Ordinal(thunk.data & 0x7FFFFFFF));
        }
        let v = &self.bytes;
        let off = thunk.data as usize;
        if off > v.len() || v.len() - off < 2 {
            return Err(ParseError::OutOfBounds);
        }
        let hint = read_u16_le(v, off);
        let start = off + 2;
        let (end, all_ascii) = scan_cstr(v, start);
        if !all_ascii {
            return Err(ParseError::BadEncoding);
        }
        let name = string_from_ascii(copy_range(v, start, end));
        Ok(ThunkData::ImportedByName { hint, name })
    }

    /// The byte at offset `rva`.
    pub fn read_u8_at(&self, rva: RVA) -> (r: Result<u8, ParseError>)
        ensures
            rva.0 + 1 <= self.spec_bytes().len() ==> r == Ok::<u8, ParseError>(
                self.spec_bytes()[rva.0 as int],
            ),
            rva.0 + 1 > self.spec_bytes().len() ==> r == Err::<u8, ParseError>(
                ParseError::OutOfBounds,
            ),
    {
        if self.bytes.len() < 1 || rva.0 as usize > self.bytes.len() - 1 {
            return Err(ParseError::OutOfBounds);
        }
        Ok(self.bytes[rva.0 as usize])
    }

    /// The 16-bit little-endian value at offset `rva`.
    pub fn read_u16_at(&self, rva: RVA) -> (r: Result<u16, ParseError>)
        ensures
            rva.0 + 2 <= self.spec_bytes().len() ==> r == Ok::<u16, ParseError>(
                spec_le16(self.spec_bytes(), rva.0 as int) as u16,
            ),
            rva.0 + 2 > self.spec_bytes().len() ==> r == Err::<u16, ParseError>(
                ParseError::OutOfBounds,
            ),
    {
        if self.bytes.len() < 2 || rva.0 as usize > self.bytes.len() - 2 {
            return Err(ParseError::OutOfBounds);
        }
        Ok(read_u16_le(&self.bytes, rva.0 as usize))
    }

    /// The 32-bit little-endian value at offset `rva`.
    pub fn read_u32_at(&self, rva: RVA) -> (r: Result<u32, ParseError>)
        ensures
            rva.0 + 4 <= self.spec_bytes().len() ==> r == Ok::<u32, ParseError>(
                spec_le32(self.spec_bytes(), rva.0 as int) as u32,
            ),
            rva.0 + 4 > self.spec_bytes().len() ==> r == Err::<u32, ParseError>(
                ParseError::OutOfBounds,
            ),
    {
        if self.bytes.len() < 4 || rva.0 as usize > self.bytes.len() - 4 {
            return Err(ParseError::OutOfBounds);
        }
        Ok(read_u32_le(&self.bytes, rva.0 as usize))
    }

    /// The ASCII text from offset `rva` up to the first zero byte, or
    /// the buffer's end if no zero follows.
    pub fn read_null_terminated_string_at(&self, rva: RVA) -> (r: Result<String, ParseError>)
        ensures
            ({
                let s = self.spec_bytes();
                let off = rva.0 as int;
                let end = spec_cstr_end(s, off);
                if off > s.len() {
                    r == Err::<String, ParseError>(ParseError::OutOfBounds)
                } else if exists|i: int| off <= i < end && s[i] >= 0x80 {
                    r == Err::<String, ParseError>(ParseError::BadEncoding)
                } else {
                    r matches Ok(t) && t@ == ascii_chars(s.subrange(off, end))
                }
            }),
    {
        let v = &self.bytes;
        let off = rva.0 as usize;
        if off > v.len() {
            return Err(ParseError::OutOfBounds);
        }
        let (end, all_ascii) = scan_cstr(v, off);
        if !all_ascii {
            return Err(ParseError::BadEncoding);
        }
        Ok(string_from_ascii(copy_range(v, off, end)))
    }

    /// The text from offset `rva` up to a zero byte, accepting only
    /// printable ASCII on the way; anything else makes the read fail.
    pub fn read_possible_null_terminated_string_at(&self, rva: RVA) -> (r: Option<String>)
        ensures
            ({
                let s = self.spec_bytes();
                let off = rva.0 as int;
                let end = spec_heuristic_end(s, off);
                if end < s.len() && s[end] == 0 {
                    r matches Some(t) && t@ == ascii_chars(s.subrange(off, end))
                } else {
                    r is None
                }
            }),
    {
        let v = &self.bytes;
        let off = rva.0 as usize;
        if off > v.len() {
            return None;
        }
        let end = scan_heuristic(v, off);
        proof {
            lemma_heuristic_range(v@, off as int);
        }
        if end == v.len() {
            return None;
        }
        if v[end] != 0 {
            return None;
        }
        Some(string_from_ascii(copy_range(v, off, end)))
    }

    /// A copy of the code section's bytes, or nothing when the section
    /// does not fit in the buffer.
    pub fn get_code(&self) -> (r: Option<Vec<u8>>)
        ensures
            ({
                let (base, size) = match self.optional {
                    PeOptional::PE32(o) => (o.base_of_code.0 as int, o.size_of_code as int),
                };
                if base + size <= self.spec_bytes().len() {
                    r matches Some(c) && c@ == self.spec_bytes().subrange(base, base + size)
                } else {
                    r is None
                }
            }),
    {
        let (base_rva, size) = self.optional.get_code();
        let base = base_rva.0 as usize;
        let v = &self.bytes;
        if size > v.len() || base > v.len() - size {
            return None;
        }
        let mut out: Vec<u8> = Vec::new();
        let mut i: usize = 0;
        while i < size
            invariant
                base + size <= v.len(),
                i <= size,
                out@ == v@.subrange(base as int, base + i),
            decreases size - i,
        {
            out.push(v[base + i]);
            proof {
                assert(out@ == v@.subrange(base as int, base + i + 1));
            }
            i += 1;
        }
        Some(out)
    }
}

/// A printable byte for the heuristic reader.
pub fn heuristic_byte_ok(b: u8) -> (r: bool)
    ensures
        r == spec_heuristic_byte_ok(b),
{
    (0x30 <= b && b <= 0x39) || (0x41 <= b && b <= 0x5A) || (0x61 <= b && b <= 0x7A) || (0x21 <= b
        && b <= 0x2F) || (0x3A <= b && b <= 0x40) || (0x5B <= b && b <= 0x60) || (0x7B <= b && b
        <= 0x7E) || b == 0x20 || b == 0x09 || b == 0x0A || b == 0x0C || b == 0x0D
}



/// The end of the printable run at `start`: the first position holding
/// a zero, a byte the heuristic refuses, or the buffer's end.
fn scan_heuristic(v: &Vec<u8>, start: usize) -> (r: usize)
    requires
        start <= v.len(),
    ensures
        r == spec_heuristic_end(v@, start as int),
        start <= r <= v.len(),
{
    let mut i: usize = start;
    while i < v.len() && v[i] != 0 && heuristic_byte_ok(v[i])
        invariant
            start <= i <= v.len(),
            spec_heuristic_end(v@, start as int) == spec_heuristic_end(v@, i as int),
        decreases v.len() - i,
    {
        i += 1;
    }
    proof {
        lemma_heuristic_end_at(v@, i as int);
    }
    i
}


/// Law: a successfully parsed image carries the magic signature at the
/// offset its DOS header gives, and exactly as many data-directory
/// entries as its optional header declares.
pub proof fn lemma_parsed_image_invariants(pe: &PE, s: Seq<u8>)
    requires
        parsed_from(pe, s),
    ensures
        spec_le32(s, pe.dos_header.e_lfanew.0 as int) == PE_SIGNATURE,
        pe.optional matches PeOptional::PE32(o) && pe.data_directory@.len()
            == o.number_of_rva_and_sizes,
{
}

/// Law: each data-directory entry of a parsed image holds, in order,
/// exactly the address and size pair stored at the table's offsets in
/// the image bytes, so re-reading the table gives the same pairs.
pub proof fn lemma_data_directory_round_trip(pe: &PE, s: Seq<u8>, k: int)
    requires
        parsed_from(pe, s),
        0 <= k < pe.data_directory@.len(),
    ensures
        pe.data_directory@[k].virtual_address.0 == spec_le32(s, spec_lfanew(s) + 120 + 8 * k),
        pe.data_directory@[k].size == spec_le32(s, spec_lfanew(s) + 120 + 8 * k + 4),
{
    assert(dir_matches(pe.data_directory@[k], s, spec_lfanew(s) + 120 + 8 * k));
}



/// A heuristic scan that stands at a stopping position ends exactly
/// there.
proof fn lemma_heuristic_end_at(s: Seq<u8>, i: int)
    requires
        0 <= i,
        i >= s.len() || s[i] == 0 || !spec_heuristic_byte_ok(s[i]),
    ensures
        spec_heuristic_end(s, i) == i,
{
}

/// Every byte a heuristic scan walked over is printable and not zero.
proof fn lemma_heuristic_range(s: Seq<u8>, i: int)
    requires
        0 <= i <= s.len(),
    ensures
        i <= spec_heuristic_end(s, i) <= s.len(),
        forall|j: int|
            i <= j < spec_heuristic_end(s, i) ==> s[j] != 0 && spec_heuristic_byte_ok(s[j]),
    decreases s.len() - i,
{
    if i < s.len() && s[i] != 0 && spec_heuristic_byte_ok(s[i]) {
        lemma_heuristic_range(s, i + 1);
    }
}

} // verus!
