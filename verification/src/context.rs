//! Normalized thread context and the pure transforms the breakpoint
//! engine applies to it: reading a register by its decoder code,
//! setting and clearing the trap flag, and arming a hardware watch.

use vstd::prelude::*;

verus! {

// Register codes, numbered as the instruction decoder numbers its
// `Register` values.
pub const REG_NONE: u32 = 0;

pub const REG_AL: u32 = 1;

pub const REG_CL: u32 = 2;

pub const REG_DL: u32 = 3;

pub const REG_BL: u32 = 4;

pub const REG_AH: u32 = 5;

pub const REG_CH: u32 = 6;

pub const REG_DH: u32 = 7;

pub const REG_BH: u32 = 8;

pub const REG_AX: u32 = 21;

pub const REG_CX: u32 = 22;

pub const REG_DX: u32 = 23;

pub const REG_BX: u32 = 24;

pub const REG_SP: u32 = 25;

pub const REG_BP: u32 = 26;

pub const REG_SI: u32 = 27;

pub const REG_DI: u32 = 28;

pub const REG_EAX: u32 = 37;

pub const REG_ECX: u32 = 38;

pub const REG_EDX: u32 = 39;

pub const REG_EBX: u32 = 40;

pub const REG_ESP: u32 = 41;

pub const REG_EBP: u32 = 42;

pub const REG_ESI: u32 = 43;

pub const REG_EDI: u32 = 44;

pub const REG_RAX: u32 = 53;

pub const REG_RCX: u32 = 54;

pub const REG_RDX: u32 = 55;

pub const REG_RBX: u32 = 56;

pub const REG_RSP: u32 = 57;

pub const REG_RBP: u32 = 58;

pub const REG_RSI: u32 = 59;

pub const REG_RDI: u32 = 60;

pub const REG_EIP: u32 = 69;

pub const REG_RIP: u32 = 70;

/// The high byte of the low 16 bits of a register value.
pub fn high_u8(v: u64) -> (r: u8)
    ensures
        r == (v & 0xFF00) >> 8,
{
    proof {
        assert((v & 0xFF00) >> 8 <= 0xFF) by (bit_vector);
    }
    ((v & 0xFF00) >> 8) as u8
}

/// The low byte of a register value.
pub fn low_u8(v: u64) -> (r: u8)
    ensures
        r == v & 0xFF,
{
    proof {
        assert(v & 0xFF <= 0xFF) by (bit_vector);
    }
    (v & 0xFF) as u8
}

/// The low 16 bits of a register value.
pub fn low_u16(v: u64) -> (r: u16)
    ensures
        r == v & 0xFFFF,
{
    proof {
        assert(v & 0xFFFF <= 0xFFFF) by (bit_vector);
    }
    (v & 0xFFFF) as u16
}

/// A thread's registers, widened to one 64-bit form whichever
/// representation they were read from.
#[derive(Clone, Copy, Debug, PartialEq, Eq, Structural)]
pub struct ThreadContext {
    pub ip: u64,
    pub sp: u64,
    pub bp: u64,
    pub ax: u64,
    pub bx: u64,
    pub cx: u64,
    pub dx: u64,
    pub si: u64,
    pub di: u64,
    pub dr6: u64,
}

/// What reading register `code` from `ctx` yields: the backing field
/// for full-width registers, a masked view for the partial ones, zero
/// for the empty register, and nothing for codes not carried here.
pub open spec fn spec_get_reg(ctx: ThreadContext, code: u32) -> Option<u64> {
    if code == REG_EAX || code == REG_RAX {
        Some(ctx.ax)
    } else if code == REG_EBX || code == REG_RBX {
        Some(ctx.bx)
    } else if code == REG_ECX || code == REG_RCX {
        Some(ctx.cx)
    } else if code == REG_EDX || code == REG_RDX {
        Some(ctx.dx)
    } else if code == REG_ESP || code == REG_RSP {
        Some(ctx.sp)
    } else if code == REG_EBP || code == REG_RBP {
        Some(ctx.bp)
    } else if code == REG_ESI || code == REG_RSI {
        Some(ctx.si)
    } else if code == REG_EDI || code == REG_RDI {
        Some(ctx.di)
    } else if code == REG_EIP || code == REG_RIP {
        Some(ctx.ip)
    } else if code == REG_AH {
        Some((ctx.ax & 0xFF00) >> 8)
    } else if code == REG_BH {
        Some((ctx.bx & 0xFF00) >> 8)
    } else if code == REG_CH {
        Some((ctx.cx & 0xFF00) >> 8)
    } else if code == REG_DH {
        Some((ctx.dx & 0xFF00) >> 8)
    } else if code == REG_AL {
        Some(ctx.ax & 0xFF)
    } else if code == REG_BL {
        Some(ctx.bx & 0xFF)
    } else if code == REG_CL {
        Some(ctx.cx & 0xFF)
    } else if code == REG_DL {
        Some(ctx.dx & 0xFF)
    } else if code == REG_AX {
        Some(ctx.ax & 0xFFFF)
    } else if code == REG_BX {
        Some(ctx.bx & 0xFFFF)
    } else if code == REG_CX {
        Some(ctx.cx & 0xFFFF)
    } else if code == REG_DX {
        Some(ctx.dx & 0xFFFF)
    } else if code == REG_SI {
        Some(ctx.si & 0xFFFF)
    } else if code == REG_DI {
        Some(ctx.di & 0xFFFF)
    } else if code == REG_BP {
        Some(ctx.bp & 0xFFFF)
    } else if code == REG_NONE {
        Some(0)
    } else {
        None
    }
}

impl ThreadContext {
    /// The value of the register that `code` names, or nothing when
    /// this context does not carry that register.
    pub fn get(&self, code: u32) -> (r: Option<u64>)
        ensures
            r == spec_get_reg(*self, code),
    {
        if code == REG_EAX || code == REG_RAX {
            Some(self.ax)
        } else if code == REG_EBX || code == REG_RBX {
            Some(self.bx)
        } else if code == REG_ECX || code == REG_RCX {
            Some(self.cx)
        } else if code == REG_EDX || code == REG_RDX {
            Some(self.dx)
        } else if code == REG_ESP || code == REG_RSP {
            Some(self.sp)
        } else if code == REG_EBP || code == REG_RBP {
            Some(self.bp)
        } else if code == REG_ESI || code == REG_RSI {
            Some(self.si)
        } else if code == REG_EDI || code == REG_RDI {
            Some(self.di)
        } else if code == REG_EIP || code == REG_RIP {
            Some(self.ip)
        } else if code == REG_AH {
            Some(high_u8(self.ax) as u64)
        } else if code == REG_BH {
            Some(high_u8(self.bx) as u64)
        } else if code == REG_CH {
            Some(high_u8(self.cx) as u64)
        } else if code == REG_DH {
            Some(high_u8(self.dx) as u64)
        } else if code == REG_AL {
            Some(low_u8(self.ax) as u64)
        } else if code == REG_BL {
            Some(low_u8(self.bx) as u64)
        } else if code == REG_CL {
            Some(low_u8(self.cx) as u64)
        } else if code == REG_DL {
            Some(low_u8(self.dx) as u64)
        } else if code == REG_AX {
            Some(low_u16(self.ax) as u64)
        } else if code == REG_BX {
            Some(low_u16(self.bx) as u64)
        } else if code == REG_CX {
            Some(low_u16(self.cx) as u64)
        } else if code == REG_DX {
            Some(low_u16(self.dx) as u64)
        } else if code == REG_SI {
            Some(low_u16(self.si) as u64)
        } else if code == REG_DI {
            Some(low_u16(self.di) as u64)
        } else if code == REG_BP {
            Some(low_u16(self.bp) as u64)
        } else if code == REG_NONE {
            Some(0u64)
        } else {
            None
        }
    }

    /// The normalized form of a 32-on-64 context: every register
    /// widened unchanged.
    pub fn from_wow64(c: &Wow64Context) -> (r: ThreadContext)
        ensures
            r.ip == c.eip,
            r.sp == c.esp,
            r.bp == c.ebp,
            r.ax == c.eax,
            r.bx == c.ebx,
            r.cx == c.ecx,
            r.dx == c.edx,
            r.si == c.esi,
            r.di == c.edi,
            r.dr6 == c.dr6,
    {
        ThreadContext {
            ip: c.eip as u64,
            sp: c.esp as u64,
            bp: c.ebp as u64,
            ax: c.eax as u64,
            bx: c.ebx as u64,
            cx: c.ecx as u64,
            dx: c.edx as u64,
            si: c.esi as u64,
            di: c.edi as u64,
            dr6: c.dr6 as u64,
        }
    }
}

/// The registers of a 32-bit thread running on a 64-bit system, as the
/// engine reads and writes them.
#[derive(Clone, Copy, Debug, PartialEq, Eq, Structural)]
pub struct Wow64Context {
    pub eip: u32,
    pub esp: u32,
    pub ebp: u32,
    pub eax: u32,
    pub ebx: u32,
    pub ecx: u32,
    pub edx: u32,
    pub esi: u32,
    pub edi: u32,
    pub eflags: u32,
    pub dr0: u32,
    pub dr6: u32,
    pub dr7: u32,
}

/// The trap-flag bit of the flags register.
pub const TRAP_FLAG: u32 = 0x100;

/// The context after turning single-stepping on: the trap flag set,
/// the instruction pointer rewound when a rewind address is given, and
/// every other register untouched.
pub fn set_trap_flag(c: &Wow64Context, rewind_to: Option<u32>) -> (r: Wow64Context)
    ensures
        r.eflags == c.eflags | TRAP_FLAG,
        r.eip == if rewind_to is Some {
            rewind_to->0
        } else {
            c.eip
        },
        r == (Wow64Context { eflags: r.eflags, eip: r.eip, ..*c }),
{
    let mut out = *c;
    if let Some(addr) = rewind_to {
        out.eip = addr;
    }
    out.eflags = out.eflags | TRAP_FLAG;
    out
}

/// The context after turning single-stepping off: the trap flag
/// cleared, the instruction pointer rewound when a rewind address is
/// given, and every other register untouched.
pub fn clear_trap_flag(c: &Wow64Context, rewind_to: Option<u32>) -> (r: Wow64Context)
    ensures
        r.eflags == c.eflags & !TRAP_FLAG,
        r.eip == if rewind_to is Some {
            rewind_to->0
        } else {
            c.eip
        },
        r == (Wow64Context { eflags: r.eflags, eip: r.eip, ..*c }),
{
    let mut out = *c;
    if let Some(addr) = rewind_to {
        out.eip = addr;
    }
    out.eflags = out.eflags & !TRAP_FLAG;
    out
}

/// The context after arming a hardware watch on `location`: the first
/// debug-address register holds the location, the control register is
/// locally enabled with its length-and-type nibble cleared, the status
/// register is cleared, and every other register is untouched.
pub fn watch_dr0(c: &Wow64Context, location: u32) -> (r: Wow64Context)
    ensures
        r.dr0 == location,
        r.dr7 == (c.dr7 | 1) & 0xFFF0FFFF,
        r.dr6 == 0,
        r == (Wow64Context { dr0: r.dr0, dr6: r.dr6, dr7: r.dr7, ..*c }),
{
    let mut out = *c;
    out.dr0 = location;
    out.dr7 = (out.dr7 | 1) & 0xFFF0FFFF;
    out.dr6 = 0;
    out
}

/// Law: a hardware watch stops the loop exactly when the status
/// register reports a hit.
pub fn mem_watch_hit(dr6: u64) -> (r: bool)
    ensures
        r == (dr6 != 0),
{
    dr6 != 0
}

} // verus!
