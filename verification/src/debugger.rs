//! The breakpoint engine: the state machine that consumes debug
//! events and decides what the host must write into the target, when
//! single-stepping turns on and off, when a stop surfaces to the
//! caller, and how pending symbolic breakpoints resolve as modules
//! load.

use std::collections::HashMap;

use vstd::prelude::*;

use crate::known_api::{spec_find_api, KnownApi, KnownApiDatabase, KnownCall};
use crate::modules::{spec_find_function, spec_function_at, FunctionInfo, Modules};

verus! {

broadcast use vstd::std_specs::hash::group_hash_axioms;

pub const EXCEPTION_BREAKPOINT: u32 = 0x80000003;

pub const STATUS_WX86_BREAKPOINT: u32 = 0x4000001F;

pub const EXCEPTION_SINGLE_STEP: u32 = 0x80000004;

pub const STATUS_WX86_SINGLE_STEP: u32 = 0x4000001E;

pub const EXCEPTION_ACCESS_VIOLATION: u32 = 0xC0000005;

/// The single-byte break opcode.
pub const INT3: u8 = 0xCC;

/// A breakpoint record.
#[derive(Debug)]
pub enum Breakpoint {
    /// A software breakpoint: the byte at `location` was replaced by
    /// the break opcode and is kept here. A `once` breakpoint is not
    /// re-armed after its first hit; a `trace` breakpoint prints the
    /// current instruction at a hit; a `go` breakpoint never
    /// surfaces a stop.
    Simple { location: usize, original_byte: u8, once: bool, trace: bool, go: bool },
    /// A software breakpoint that additionally captures a structured
    /// call at each hit.
    KnownApi { location: usize, original_byte: u8, api: KnownApi },
    /// A placeholder for a symbol not yet seen in any loaded module.
    Unresolved,
}

/// A symbolic breakpoint still waiting for its module.
#[derive(Debug)]
pub struct UnresolvedBreakpoint {
    pub symbol: String,
    pub slot: usize,
}

/// One byte the engine asks the host to write into the target.
#[derive(Clone, Copy, Debug, PartialEq, Eq, Structural)]
pub struct MemWrite {
    pub addr: usize,
    pub byte: u8,
}

/// What the host must do after the engine handles an event or
/// records a breakpoint.
#[derive(Clone, Copy, Debug, PartialEq, Eq, Structural)]
pub enum Action {
    /// Write one byte into the target.
    Write(MemWrite),
    /// Set the trap flag on the thread, rewinding its instruction
    /// pointer first when a rewind address is given.
    SetTrap { tid: usize, rewind: Option<usize> },
    /// Clear the trap flag on the thread.
    ClearTrap { tid: usize },
    /// Read the thread's context and the declared argument cells,
    /// then hand the captured call back to the engine.
    CaptureKnownCall { slot: usize },
    /// Print the instruction the target stands at.
    TraceCurrentInstruction,
}

/// How the event loop continues after an event.
#[derive(Clone, Copy, Debug, PartialEq, Eq, Structural)]
pub enum LoopDecision {
    /// Continue the loop without surfacing anything.
    Continue,
    /// Leave the loop and return control to the caller.
    Break,
    /// Stop driving the target altogether.
    Terminate,
}

/// What handling one event yields.
pub struct EventOutcome {
    pub decision: LoopDecision,
    pub actions: Vec<Action>,
}

/// One debug event, carried as plain values; module events carry the
/// mapped image bytes the host read from the target.
pub enum DebugEvent {
    CreateProcess { base: usize, size: usize, name: String, image: Vec<u8> },
    CreateThread,
    Exception { code: u32, addr: usize },
    ExitProcess,
    ExitThread,
    LoadDll { base: usize, size: usize, name: String, image: Vec<u8> },
    UnloadDll,
    OutputDebugString { text: String },
    Rip,
    Unknown,
}

/// The location a breakpoint record is installed at, if any.
pub open spec fn bp_location(b: Breakpoint) -> Option<int> {
    match b {
        Breakpoint::Simple { location, .. } => Some(location as int),
        Breakpoint::KnownApi { location, .. } => Some(location as int),
        Breakpoint::Unresolved => None,
    }
}

/// The original byte an installed breakpoint record keeps.
pub open spec fn bp_original_byte(b: Breakpoint) -> Option<u8> {
    match b {
        Breakpoint::Simple { original_byte, .. } => Some(original_byte),
        Breakpoint::KnownApi { original_byte, .. } => Some(original_byte),
        Breakpoint::Unresolved => None,
    }
}

/// The record a resolution installs at `addr` keeping byte `ob`: a
/// known-API breakpoint carrying the catalogued descriptor exactly
/// when the catalog knows the name of the function covering the
/// address, else a plain breakpoint that re-arms, does not trace and
/// surfaces its hits.
pub open spec fn spec_resolved_breakpoint_ok(
    fs: Seq<FunctionInfo>,
    apis: Seq<KnownApi>,
    bp: Breakpoint,
    addr: usize,
    ob: u8,
) -> bool {
    match spec_function_at(fs, addr as int) {
        Some(f) => match spec_find_api(apis, f.name@) {
            Some(ai) => {
                &&& bp matches Breakpoint::KnownApi { location, original_byte, api }
                &&& location == addr
                &&& original_byte == ob
                &&& api.name == apis[ai].name
                &&& api.args@ == apis[ai].args@
            },
            None => bp == (Breakpoint::Simple {
                location: addr,
                original_byte: ob,
                once: false,
                trace: false,
                go: false,
            }),
        },
        None => bp == (Breakpoint::Simple {
            location: addr,
            original_byte: ob,
            once: false,
            trace: false,
            go: false,
        }),
    }
}

/// Distinct pending entries wait on distinct placeholder slots.
pub open spec fn pending_slots_distinct(ps: Seq<UnresolvedBreakpoint>) -> bool {
    forall|k1: int, k2: int|
        0 <= k1 < k2 < ps.len() ==> (#[trigger] ps[k1]).slot != (#[trigger] ps[k2]).slot
}

/// The address a pending symbol resolves to, when the registry knows
/// the symbol and the address lies inside the just-mapped image.
pub open spec fn spec_resolves_in_image(
    fs: Seq<FunctionInfo>,
    u: UnresolvedBreakpoint,
    base: int,
    len: int,
) -> Option<usize> {
    match spec_find_function(fs, u.symbol@) {
        Some(fi) => {
            let a = fs[fi].addr;
            if base <= a && a - base < len {
                Some(a)
            } else {
                None
            }
        },
        None => None,
    }
}

/// The entries a resolution pass leaves pending: exactly those whose
/// symbol does not resolve inside the image, in their old order.
pub open spec fn spec_still_pending(
    ps: Seq<UnresolvedBreakpoint>,
    fs: Seq<FunctionInfo>,
    base: int,
    len: int,
) -> Seq<UnresolvedBreakpoint>
    decreases ps.len(),
{
    if ps.len() == 0 {
        Seq::empty()
    } else if spec_resolves_in_image(fs, ps.first(), base, len) is Some {
        spec_still_pending(ps.drop_first(), fs, base, len)
    } else {
        seq![ps.first()] + spec_still_pending(ps.drop_first(), fs, base, len)
    }
}

/// What survives a resolution pass: every remaining entry comes from
/// the old list, none of them resolves inside the image, and distinct
/// slots stay distinct.
pub proof fn lemma_still_pending_props(
    ps: Seq<UnresolvedBreakpoint>,
    fs: Seq<FunctionInfo>,
    base: int,
    len: int,
)
    ensures
        ({
            let r = spec_still_pending(ps, fs, base, len);
            &&& forall|j: int| 0 <= j < r.len() ==> #[trigger] ps.contains(r[j])
            &&& forall|j: int|
                0 <= j < r.len() ==> spec_resolves_in_image(fs, #[trigger] r[j], base, len)
                    is None
            &&& (pending_slots_distinct(ps) ==> pending_slots_distinct(r))
        }),
    decreases ps.len(),
{
    if ps.len() > 0 {
        let d = ps.drop_first();
        lemma_still_pending_props(d, fs, base, len);
        let rd = spec_still_pending(d, fs, base, len);
        assert forall|j: int| 0 <= j < rd.len() implies ps.contains(rd[j]) by {
            assert(d.contains(rd[j]));
            let m = choose|m: int| 0 <= m < d.len() && d[m] == rd[j];
            assert(ps[m + 1] == rd[j]);
        }
        if pending_slots_distinct(ps) {
            assert forall|k1: int, k2: int|
                0 <= k1 < k2 < d.len() implies (#[trigger] d[k1]).slot != (
            #[trigger] d[k2]).slot by {
                assert(d[k1] == ps[k1 + 1]);
                assert(d[k2] == ps[k2 + 1]);
            }
            let r = spec_still_pending(ps, fs, base, len);
            if !(spec_resolves_in_image(fs, ps.first(), base, len) is Some) {
                assert forall|k1: int, k2: int|
                    0 <= k1 < k2 < r.len() implies (#[trigger] r[k1]).slot != (
                #[trigger] r[k2]).slot by {
                    if k1 == 0 {
                        assert(r[k2] == rd[k2 - 1]);
                        assert(d.contains(rd[k2 - 1]));
                        let m = choose|m: int| 0 <= m < d.len() && d[m] == rd[k2 - 1];
                        assert(ps[m + 1] == r[k2]);
                        assert(ps[0].slot != ps[m + 1].slot);
                    } else {
                        assert(r[k1] == rd[k1 - 1]);
                        assert(r[k2] == rd[k2 - 1]);
                    }
                }
            }
        }
    }
}

/// The engine's state.
pub struct Debugger {
    pub pid: usize,
    pub current_tid: usize,
    pub modules: Modules,
    pub known_apis: KnownApiDatabase,
    pub breakpoints: Vec<Breakpoint>,
    pub breakpoints_locations: HashMap<usize, usize>,
    pub unresolved_breakpoints: Vec<UnresolvedBreakpoint>,
    pub breakpoint_entrypoint: Option<usize>,
    pub reactivate_breakpoint: Option<usize>,
    pub break_on_next_single_step: bool,
    pub current_known_call: Option<KnownCall>,
}

impl Debugger {
    /// The engine's shape: the registry is well formed, every entry
    /// of the location index names a live breakpoint installed at
    /// that location, and every pending symbol names a live slot.
    pub open spec fn wf(&self) -> bool {
        &&& self.modules.wf()
        &&& forall|loc: usize|
            #[trigger] self.breakpoints_locations@.dom().contains(loc) ==> {
                &&& self.breakpoints_locations@[loc] < self.breakpoints@.len()
                &&& bp_location(self.breakpoints@[self.breakpoints_locations@[loc] as int])
                    == Some(loc as int)
            }
        &&& forall|k: int|
            0 <= k < self.unresolved_breakpoints@.len() ==> (
            #[trigger] self.unresolved_breakpoints@[k]).slot < self.breakpoints@.len()
        &&& pending_slots_distinct(self.unresolved_breakpoints@)
    }

    /// A fresh engine with nothing attached and nothing recorded.
    pub fn new() -> (r: Debugger)
        ensures
            r.wf(),
            r.breakpoints@.len() == 0,
            r.breakpoints_locations@.dom() =~= Set::<usize>::empty(),
            r.unresolved_breakpoints@.len() == 0,
            r.reactivate_breakpoint is None,
            r.break_on_next_single_step == false,
            r.current_known_call is None,
            r.breakpoint_entrypoint is None,
            r.modules.modules@.len() == 0,
            r.modules.functions@.len() == 0,
            r.known_apis.apis@.len() == 0,
    {
        Debugger {
            pid: 0,
            current_tid: 0,
            modules: Modules::new(),
            known_apis: KnownApiDatabase { apis: Vec::new() },
            breakpoints: Vec::new(),
            breakpoints_locations: HashMap::new(),
            unresolved_breakpoints: Vec::new(),
            breakpoint_entrypoint: None,
            reactivate_breakpoint: None,
            break_on_next_single_step: false,
            current_known_call: None,
        }
    }

    /// Installs the catalog the engine decodes known calls with.
    pub fn set_known_apis(&mut self, db: KnownApiDatabase)
        requires
            old(self).wf(),
        ensures
            final(self).wf(),
            *final(self) == (Debugger { known_apis: final(self).known_apis, ..*old(self) }),
    {
        self.known_apis = db;
    }

    /// The call captured at the most recent known-API hit, if any.
    pub fn get_current_known_call(&self) -> (r: Option<&KnownCall>)
        ensures
            match r {
                Some(c) => self.current_known_call matches Some(cc) && *c == cc,
                None => self.current_known_call is None,
            },
    {
        self.current_known_call.as_ref()
    }

    /// Stores the call the host captured for a known-API hit.
    pub fn set_current_known_call(&mut self, call: KnownCall)
        requires
            old(self).wf(),
        ensures
            final(self).wf(),
            final(self).current_known_call == Some(call),
            *final(self) == (Debugger { current_known_call: final(self).current_known_call, ..*old(self) }),
    {
        self.current_known_call = Some(call);
    }

    /// Clears the captured call, as the start of a run does.
    pub fn begin_go(&mut self)
        requires
            old(self).wf(),
        ensures
            final(self).wf(),
            final(self).current_known_call is None,
            *final(self) == (Debugger { current_known_call: final(self).current_known_call, ..*old(self) }),
    {
        self.current_known_call = None;
    }

    /// Records a software breakpoint at `location`, whose original
    /// byte the host has read, and returns its handle together with
    /// the write that installs the break opcode.
    pub fn add_breakpoint_simple(&mut self, location: usize, original_byte: u8, once: bool) -> (r:
        (usize, MemWrite))
        requires
            old(self).wf(),
        ensures
            final(self).wf(),
            r.0 == old(self).breakpoints@.len(),
            r.1 == (MemWrite { addr: location, byte: INT3 }),
            final(self).breakpoints@ == old(self).breakpoints@.push(
                Breakpoint::Simple { location, original_byte, once, trace: false, go: false },
            ),
            final(self).breakpoints_locations@ == old(self).breakpoints_locations@.insert(
                location,
                r.0,
            ),
            final(self).unresolved_breakpoints@ == old(self).unresolved_breakpoints@,
            final(self).modules == old(self).modules,
            final(self).known_apis == old(self).known_apis,
            final(self).reactivate_breakpoint == old(self).reactivate_breakpoint,
            final(self).break_on_next_single_step == old(self).break_on_next_single_step,
            final(self).current_known_call == old(self).current_known_call,
    {
        let slot = self.breakpoints.len();
        self.breakpoints_locations.insert(location, slot);
        self.breakpoints.push(
            Breakpoint::Simple { location, original_byte, once, trace: false, go: false },
        );
        (slot, MemWrite { addr: location, byte: INT3 })
    }

    /// Records a tracing breakpoint: it prints the instruction at
    /// each hit and resumes without surfacing a stop.
    pub fn add_breakpoint_trace(&mut self, location: usize, original_byte: u8, once: bool) -> (r: (
        usize,
        MemWrite,
    ))
        requires
            old(self).wf(),
        ensures
            final(self).wf(),
            r.0 == old(self).breakpoints@.len(),
            r.1 == (MemWrite { addr: location, byte: INT3 }),
            final(self).breakpoints@ == old(self).breakpoints@.push(
                Breakpoint::Simple { location, original_byte, once, trace: true, go: true },
            ),
            final(self).breakpoints_locations@ == old(self).breakpoints_locations@.insert(
                location,
                r.0,
            ),
            final(self).unresolved_breakpoints@ == old(self).unresolved_breakpoints@,
            final(self).modules == old(self).modules,
            final(self).known_apis == old(self).known_apis,
            final(self).reactivate_breakpoint == old(self).reactivate_breakpoint,
            final(self).break_on_next_single_step == old(self).break_on_next_single_step,
            final(self).current_known_call == old(self).current_known_call,
    {
        let slot = self.breakpoints.len();
        self.breakpoints_locations.insert(location, slot);
        self.breakpoints.push(
            Breakpoint::Simple { location, original_byte, once, trace: true, go: true },
        );
        (slot, MemWrite { addr: location, byte: INT3 })
    }

    /// Records a known-API breakpoint carrying the descriptor the
    /// capture decodes arguments with.
    pub fn add_breakpoint_knownapi(&mut self, location: usize, original_byte: u8, api: KnownApi)
        -> (r: (usize, MemWrite))
        requires
            old(self).wf(),
        ensures
            final(self).wf(),
            r.0 == old(self).breakpoints@.len(),
            r.1 == (MemWrite { addr: location, byte: INT3 }),
            final(self).breakpoints@.len() == old(self).breakpoints@.len() + 1,
            final(self).breakpoints@[r.0 as int] matches Breakpoint::KnownApi {
                location: l,
                original_byte: ob,
                api: a,
            } && l == location && ob == original_byte && a.name == api.name && a.args@ == api.args@,
            forall|k: int|
                0 <= k < old(self).breakpoints@.len() ==> final(self).breakpoints@[k] == old(self).breakpoints@[k],
            final(self).breakpoints_locations@ == old(self).breakpoints_locations@.insert(
                location,
                r.0,
            ),
            final(self).unresolved_breakpoints@ == old(self).unresolved_breakpoints@,
            final(self).modules == old(self).modules,
            final(self).known_apis == old(self).known_apis,
    {
        let slot = self.breakpoints.len();
        self.breakpoints_locations.insert(location, slot);
        self.breakpoints.push(Breakpoint::KnownApi { location, original_byte, api });
        (slot, MemWrite { addr: location, byte: INT3 })
    }

    /// The write that undoes a breakpoint's installation: the
    /// original byte back at the location.
    pub fn restore_original(&self, b: &Breakpoint) -> (r: Option<MemWrite>)
        ensures
            r == spec_restore_write(*b),
    {
        match b {
            Breakpoint::Simple { location, original_byte, .. } => Some(
                MemWrite { addr: *location, byte: *original_byte },
            ),
            Breakpoint::KnownApi { location, original_byte, .. } => Some(
                MemWrite { addr: *location, byte: *original_byte },
            ),
            Breakpoint::Unresolved => None,
        }
    }

    /// The write that re-arms a breakpoint after a step-over: the
    /// break opcode back at the location, except for a once-only
    /// breakpoint, which stays disarmed.
    pub fn reactivate_breakpoint(&self, b: &Breakpoint) -> (r: Option<MemWrite>)
        ensures
            r == spec_reactivate_write(*b),
    {
        match b {
            Breakpoint::Simple { location, once, .. } => {
                if *once {
                    None
                } else {
                    Some(MemWrite { addr: *location, byte: INT3 })
                }
            },
            Breakpoint::KnownApi { location, .. } => Some(MemWrite { addr: *location, byte: INT3 }),
            Breakpoint::Unresolved => None,
        }
    }
}

/// An installation the host still owes: read the byte at `addr`,
/// write the break opcode there, and confirm with the byte read.
#[derive(Clone, Copy, Debug, PartialEq, Eq, Structural)]
pub struct ResolveRequest {
    pub slot: usize,
    pub addr: usize,
}

impl Debugger {
    /// An equal copy of a pending entry.
    fn dup_unresolved(u: &UnresolvedBreakpoint) -> (r: UnresolvedBreakpoint)
        ensures
            r == *u,
    {
        UnresolvedBreakpoint { symbol: u.symbol.clone(), slot: u.slot }
    }

    /// Records a symbolic breakpoint. A placeholder takes a slot at
    /// once; when the registry already knows the symbol, the returned
    /// request asks the host to read the byte there and finish with
    /// `install_resolved`; either way the symbol stays pending until
    /// an installation lands.
    pub fn add_breakpoint_symbol(&mut self, _module: &str, symbol: &str) -> (r: (
        usize,
        Option<ResolveRequest>,
    ))
        requires
            old(self).wf(),
        ensures
            final(self).wf(),
            r.0 == old(self).breakpoints@.len(),
            final(self).breakpoints@ == old(self).breakpoints@.push(Breakpoint::Unresolved),
            final(self).unresolved_breakpoints@.len() == old(self).unresolved_breakpoints@.len() + 1,
            forall|k: int|
                0 <= k < old(self).unresolved_breakpoints@.len() ==> final(self).unresolved_breakpoints@[k] == old(self).unresolved_breakpoints@[k],
            final(self).unresolved_breakpoints@.last().symbol@ == symbol@,
            final(self).unresolved_breakpoints@.last().slot == r.0,
            final(self).breakpoints_locations@ == old(self).breakpoints_locations@,
            final(self).modules == old(self).modules,
            final(self).known_apis == old(self).known_apis,
            match spec_find_function(old(self).modules.functions@, symbol@) {
                Some(fi) => r.1 == Some(
                    ResolveRequest {
                        slot: old(self).breakpoints@.len() as usize,
                        addr: old(self).modules.functions@[fi].addr,
                    },
                ),
                None => r.1 is None,
            },
    {
        let slot = self.breakpoints.len();
        self.breakpoints.push(Breakpoint::Unresolved);
        self.unresolved_breakpoints.push(
            UnresolvedBreakpoint { symbol: symbol.to_owned(), slot },
        );
        proof {
            // the fresh slot lies past every slot a pending entry
            // could already hold
            assert forall|k1: int, k2: int|
                0 <= k1 < k2 < self.unresolved_breakpoints@.len() implies (
            #[trigger] self.unresolved_breakpoints@[k1]).slot != (
            #[trigger] self.unresolved_breakpoints@[k2]).slot by {
                if k2 == self.unresolved_breakpoints@.len() - 1 {
                    assert(self.unresolved_breakpoints@[k1] == old(
                        self,
                    ).unresolved_breakpoints@[k1]);
                }
            }
        }
        let request = match self.modules.get_function_addr("", &symbol.to_owned()) {
            Some(addr) => Some(ResolveRequest { slot, addr }),
            None => None,
        };
        (slot, request)
    }

    /// Finishes a resolution: the placeholder in `slot` becomes an
    /// installed breakpoint at `addr` holding the byte the host read
    /// (a known-API breakpoint when the catalog knows the function
    /// there), the location is indexed, pending entries for the slot
    /// are dropped, and the returned write installs the break opcode.
    pub fn install_resolved(&mut self, slot: usize, addr: usize, original_byte: u8) -> (w:
        MemWrite)
        requires
            old(self).wf(),
            slot < old(self).breakpoints@.len(),
            old(self).breakpoints@[slot as int] is Unresolved,
        ensures
            final(self).wf(),
            w == (MemWrite { addr, byte: INT3 }),
            final(self).breakpoints@.len() == old(self).breakpoints@.len(),
            bp_location(final(self).breakpoints@[slot as int]) == Some(addr as int),
            bp_original_byte(final(self).breakpoints@[slot as int]) == Some(original_byte),
            spec_resolved_breakpoint_ok(
                old(self).modules.functions@,
                old(self).known_apis.apis@,
                final(self).breakpoints@[slot as int],
                addr,
                original_byte,
            ),
            forall|k: int|
                0 <= k < old(self).breakpoints@.len() && k != slot ==> final(self).breakpoints@[k] == old(self).breakpoints@[k],
            final(self).breakpoints_locations@ == old(self).breakpoints_locations@.insert(
                addr,
                slot,
            ),
            final(self).modules == old(self).modules,
            final(self).known_apis == old(self).known_apis,
            final(self).current_known_call == old(self).current_known_call,
            final(self).break_on_next_single_step == old(self).break_on_next_single_step,
            final(self).reactivate_breakpoint == old(self).reactivate_breakpoint,
            final(self).current_tid == old(self).current_tid,
            final(self).unresolved_breakpoints@.len() <= old(self).unresolved_breakpoints@.len(),
            forall|k: int|
                0 <= k < final(self).unresolved_breakpoints@.len() ==> (#[trigger] final(self).unresolved_breakpoints@[k]).slot != slot,
    {
        let api_dup: Option<KnownApi> = match self.modules.get_function_at(addr) {
            Some(f) => match self.known_apis.get_by_name(&f.name) {
                Some(api) => Some(api.duplicate()),
                None => None,
            },
            None => None,
        };
        let bp = match api_dup {
            Some(api) => Breakpoint::KnownApi { location: addr, original_byte, api },
            None => Breakpoint::Simple {
                location: addr,
                original_byte,
                once: false,
                trace: false,
                go: false,
            },
        };
        self.breakpoints[slot] = bp;
        self.breakpoints_locations.insert(addr, slot);
        // Distinct pending slots mean at most one entry waits on this
        // slot: find it and drop it.
        let n = self.unresolved_breakpoints.len();
        let mut k: usize = 0;
        let mut found: Option<usize> = None;
        while k < n
            invariant
                0 <= k <= n,
                n == self.unresolved_breakpoints@.len(),
                self.unresolved_breakpoints@ == old(self).unresolved_breakpoints@,
                match found {
                    Some(i) => 0 <= i < n && self.unresolved_breakpoints@[i as int].slot == slot,
                    None => forall|j: int|
                        0 <= j < k ==> (#[trigger] self.unresolved_breakpoints@[j]).slot != slot,
                },
            decreases n - k,
        {
            if self.unresolved_breakpoints[k].slot == slot && found.is_none() {
                found = Some(k);
            }
            k += 1;
        }
        if let Some(i) = found {
            let ghost before = self.unresolved_breakpoints@;
            self.unresolved_breakpoints.remove(i);
            proof {
                let after = self.unresolved_breakpoints@;
                assert forall|j: int| 0 <= j < after.len() implies (#[trigger] after[j]).slot
                    != slot by {
                    if j < i {
                        assert(after[j] == before[j]);
                        assert(before[j].slot != before[i as int].slot);
                    } else {
                        assert(after[j] == before[j + 1]);
                        assert(before[i as int].slot != before[j + 1].slot);
                    }
                }
                assert forall|j: int| 0 <= j < after.len() implies (#[trigger] after[j]).slot
                    < self.breakpoints@.len() by {
                    if j < i {
                        assert(after[j] == before[j]);
                    } else {
                        assert(after[j] == before[j + 1]);
                    }
                }
                assert forall|k1: int, k2: int|
                    0 <= k1 < k2 < after.len() implies (#[trigger] after[k1]).slot != (
                #[trigger] after[k2]).slot by {
                    let m1: int = if k1 < i {
                        k1
                    } else {
                        k1 + 1
                    };
                    let m2: int = if k2 < i {
                        k2
                    } else {
                        k2 + 1
                    };
                    assert(after[k1] == before[m1]);
                    assert(after[k2] == before[m2]);
                    assert(before[m1].slot != before[m2].slot);
                }
            }
        }
        proof {
            assert forall|loc: usize|
                #[trigger] self.breakpoints_locations@.dom().contains(loc) implies {
                &&& self.breakpoints_locations@[loc] < self.breakpoints@.len()
                &&& bp_location(self.breakpoints@[self.breakpoints_locations@[loc] as int])
                    == Some(loc as int)
            } by {
                if loc != addr {
                    assert(old(self).breakpoints_locations@.dom().contains(loc));
                    assert(old(self).breakpoints_locations@[loc] != slot);
                }
            }
        }
        MemWrite { addr, byte: INT3 }
    }

    /// Arms a hardware watch: the returned context holds the watched
    /// location in the first debug-address register; the handle is
    /// not recorded (hardware watches are not indexed).
    pub fn add_breakpoint_memory(&mut self, location: u32, ctx: &crate::context::Wow64Context)
        -> (r: (usize, crate::context::Wow64Context))
        requires
            old(self).wf(),
        ensures
            final(self).wf(),
            *final(self) == *old(self),
            r.0 == 0,
            r.1.dr0 == location,
            r.1.dr7 == (ctx.dr7 | 1) & 0xFFF0FFFF,
            r.1.dr6 == 0,
            r.1 == (crate::context::Wow64Context { dr0: r.1.dr0, dr6: r.1.dr6, dr7: r.1.dr7, ..*ctx
            }),
    {
        (0, crate::context::watch_dr0(ctx, location))
    }

    /// Asks for one user-visible single step: the next single-step
    /// event surfaces, and the returned action sets the trap flag.
    pub fn step(&mut self) -> (a: Action)
        requires
            old(self).wf(),
        ensures
            final(self).wf(),
            a == (Action::SetTrap { tid: old(self).current_tid, rewind: None::<usize> }),
            final(self).break_on_next_single_step == true,
            *final(self) == (Debugger {
                break_on_next_single_step: true,
                ..*old(self)
            }),
    {
        self.break_on_next_single_step = true;
        Action::SetTrap { tid: self.current_tid, rewind: None }
    }

    /// The places where trace breakpoints go for the function whose
    /// cached run covers `addr`: the run's start, then one location
    /// after each instruction, by its length.
    pub fn trace_function_at(&self, addr: usize) -> (r: Option<Vec<usize>>)
        requires
            self.wf(),
        ensures
            match crate::modules::spec_batch_index(self.modules.opcodes@, addr as int) {
                Some(bi) => r matches Some(locs) && {
                    let key = self.modules.opcodes@[bi].0;
                    let entries = self.modules.opcodes@[bi].1;
                    &&& locs@.len() == entries@.len()
                    &&& forall|j: int|
                        0 <= j < locs@.len() ==> #[trigger] locs@[j] == key
                            + crate::instr::spec_total_len(entries@.take(j))
                },
                None => r is None,
            },
    {
        let batch = match self.modules.get_instructions_at(addr) {
            Some(b) => b,
            None => {
                return None;
            },
        };
        let key = batch.0;
        let entries = &batch.1;
        let ghost bidx = crate::modules::spec_batch_index(self.modules.opcodes@, addr as int)->0;
        proof {
            crate::modules::lemma_pred_index_props(
                crate::modules::opcode_keys(self.modules.opcodes@),
                addr as int,
            );
            crate::instr::lemma_total_len_nonneg(entries@);
        }
        let mut locs: Vec<usize> = Vec::new();
        let mut pos: usize = key;
        let mut j: usize = 0;
        while j < entries.len()
            invariant
                0 <= j <= entries@.len(),
                crate::modules::spec_batch_index(self.modules.opcodes@, addr as int) == Some(bidx),
                0 <= bidx < self.modules.opcodes@.len(),
                self.modules.opcodes@[bidx].0 == key,
                self.modules.opcodes@[bidx].1 == *entries,
                key + crate::instr::spec_total_len(entries@) <= usize::MAX,
                pos == key + crate::instr::spec_total_len(entries@.take(j as int)),
                locs@.len() == j,
                forall|m: int|
                    0 <= m < j ==> #[trigger] locs@[m] == key + crate::instr::spec_total_len(
                        entries@.take(m),
                    ),
            decreases entries@.len() - j,
        {
            locs.push(pos);
            proof {
                crate::instr::lemma_total_len_take_succ(entries@, j as int);
                crate::instr::lemma_total_len_take_le(entries@, j + 1);
            }
            pos = pos + entries[j].len;
            j += 1;
        }
        Some(locs)
    }

    /// The shape of the function covering `addr`: its name, and the
    /// catalogued descriptor when the catalog knows the name.
    pub fn get_function_at(&self, addr: usize) -> (r: Option<(String, Option<KnownApi>)>)
        requires
            self.wf(),
        ensures
            match crate::modules::spec_function_at(self.modules.functions@, addr as int) {
                Some(f) => r matches Some(p) && p.0@ == f.name@ && (
                match crate::known_api::spec_find_api(self.known_apis.apis@, f.name@) {
                    Some(ai) => p.1 matches Some(a) && a.name == self.known_apis.apis@[ai].name
                        && a.args@ == self.known_apis.apis@[ai].args@,
                    None => p.1 is None,
                }),
                None => r is None,
            },
    {
        let f = match self.modules.get_function_at(addr) {
            Some(f) => f,
            None => {
                return None;
            },
        };
        let api = match self.known_apis.get_by_name(&f.name) {
            Some(a) => Some(a.duplicate()),
            None => None,
        };
        Some((f.name.clone(), api))
    }
}

/// The width a memory-read command asks for.
#[derive(Clone, Copy, Debug, PartialEq, Eq, Structural)]
pub enum ReadKind {
    U8,
    U16,
    U32,
    F32,
}

/// The width a read-command's type name stands for.
pub open spec fn spec_read_kind(s: Seq<char>) -> Option<ReadKind> {
    if s == "u8"@ || s == "U8"@ {
        Some(ReadKind::U8)
    } else if s == "u16"@ || s == "U16"@ {
        Some(ReadKind::U16)
    } else if s == "u32"@ || s == "U32"@ {
        Some(ReadKind::U32)
    } else if s == "f32"@ || s == "F32"@ {
        Some(ReadKind::F32)
    } else {
        None
    }
}

/// The width a read-command's type name stands for.
pub fn parse_read_kind(s: &str) -> (r: Option<ReadKind>)
    ensures
        r == spec_read_kind(s@),
{
    if crate::bytes::str_eq(s, "u8") || crate::bytes::str_eq(s, "U8") {
        Some(ReadKind::U8)
    } else if crate::bytes::str_eq(s, "u16") || crate::bytes::str_eq(s, "U16") {
        Some(ReadKind::U16)
    } else if crate::bytes::str_eq(s, "u32") || crate::bytes::str_eq(s, "U32") {
        Some(ReadKind::U32)
    } else if crate::bytes::str_eq(s, "f32") || crate::bytes::str_eq(s, "F32") {
        Some(ReadKind::F32)
    } else {
        None
    }
}

/// The breakpoint code and its 32-on-64 alias.
pub open spec fn spec_is_breakpoint_code(code: u32) -> bool {
    code == EXCEPTION_BREAKPOINT || code == STATUS_WX86_BREAKPOINT
}

/// The single-step code and its 32-on-64 alias.
pub open spec fn spec_is_single_step_code(code: u32) -> bool {
    code == EXCEPTION_SINGLE_STEP || code == STATUS_WX86_SINGLE_STEP
}

/// The actions a recognized hit produces: restore the original byte,
/// re-execute under the trap flag, and capture or trace as the
/// breakpoint's kind asks.
pub open spec fn spec_hit_actions(b: Breakpoint, tid: usize, addr: usize, slot: usize) -> Seq<
    Action,
> {
    match b {
        Breakpoint::Simple { original_byte, trace, .. } => seq![
            Action::Write(MemWrite { addr, byte: original_byte }),
            Action::SetTrap { tid, rewind: Some(addr) },
        ] + if trace {
            seq![Action::TraceCurrentInstruction]
        } else {
            Seq::empty()
        },
        Breakpoint::KnownApi { original_byte, .. } => seq![
            Action::Write(MemWrite { addr, byte: original_byte }),
            Action::SetTrap { tid, rewind: Some(addr) },
            Action::CaptureKnownCall { slot },
        ],
        Breakpoint::Unresolved => Seq::empty(),
    }
}

/// Whether a recognized hit surfaces: a breakpoint marked to keep
/// going never does.
pub open spec fn spec_hit_decision(b: Breakpoint) -> LoopDecision {
    match b {
        Breakpoint::Simple { go, .. } => if go {
            LoopDecision::Continue
        } else {
            LoopDecision::Break
        },
        Breakpoint::KnownApi { .. } => LoopDecision::Break,
        Breakpoint::Unresolved => LoopDecision::Continue,
    }
}

/// Whether a single-step event surfaces: never after a step-over for
/// a keep-going breakpoint, else exactly when a user step was asked.
pub open spec fn spec_single_step_decision(d: Debugger) -> LoopDecision {
    if (match d.reactivate_breakpoint {
        Some(i) => i < d.breakpoints@.len() && (d.breakpoints@[i as int] matches Breakpoint::Simple {
            go: true,
            ..
        }),
        None => false,
    }) {
        LoopDecision::Continue
    } else if d.break_on_next_single_step {
        LoopDecision::Break
    } else {
        LoopDecision::Continue
    }
}

/// The re-arm writes a single-step event produces: the pending
/// breakpoint's re-arm write, when one is pending and re-armed.
pub open spec fn spec_single_step_reinstall(d: Debugger) -> Seq<Action> {
    match d.reactivate_breakpoint {
        Some(i) => if i < d.breakpoints@.len() {
            match spec_reactivate_write(d.breakpoints@[i as int]) {
                Some(w) => seq![Action::Write(w)],
                None => Seq::empty(),
            }
        } else {
            Seq::empty()
        },
        None => Seq::empty(),
    }
}

/// Everything but the flags and tables an event may touch is the
/// same.
pub open spec fn spec_same_core(a: Debugger, b: Debugger) -> bool {
    &&& a.modules == b.modules
    &&& a.known_apis == b.known_apis
    &&& a.breakpoints == b.breakpoints
    &&& a.breakpoints_locations == b.breakpoints_locations
    &&& a.unresolved_breakpoints == b.unresolved_breakpoints
    &&& a.current_known_call == b.current_known_call
}

impl Debugger {
    /// Retries every pending symbol against the registry: a symbol
    /// found at an address inside the just-mapped image is installed
    /// in its slot (with the original byte taken from the image) and
    /// leaves the pending list; the rest stay pending. The returned
    /// actions install the break opcodes.
    fn try_resolve_breakpoints(&mut self, base: usize, image: &Vec<u8>) -> (acts: Vec<Action>)
        requires
            old(self).wf(),
        ensures
            final(self).wf(),
            final(self).modules == old(self).modules,
            final(self).known_apis == old(self).known_apis,
            final(self).current_known_call == old(self).current_known_call,
            final(self).break_on_next_single_step == old(self).break_on_next_single_step,
            final(self).reactivate_breakpoint == old(self).reactivate_breakpoint,
            final(self).current_tid == old(self).current_tid,
            final(self).breakpoints@.len() == old(self).breakpoints@.len(),
            final(self).unresolved_breakpoints@ == spec_still_pending(
                old(self).unresolved_breakpoints@,
                old(self).modules.functions@,
                base as int,
                image@.len() as int,
            ),
            forall|m: int|
                0 <= m < old(self).unresolved_breakpoints@.len() ==> {
                    let u = #[trigger] old(self).unresolved_breakpoints@[m];
                    match spec_resolves_in_image(
                        old(self).modules.functions@,
                        u,
                        base as int,
                        image@.len() as int,
                    ) {
                        Some(a) => old(self).breakpoints@[u.slot as int] is Unresolved ==> {
                            &&& bp_location(final(self).breakpoints@[u.slot as int]) == Some(
                                a as int,
                            )
                            &&& bp_original_byte(final(self).breakpoints@[u.slot as int]) == Some(
                                image@[a - base],
                            )
                            &&& spec_resolved_breakpoint_ok(
                                old(self).modules.functions@,
                                old(self).known_apis.apis@,
                                final(self).breakpoints@[u.slot as int],
                                a,
                                image@[a - base],
                            )
                            &&& final(self).breakpoints_locations@.dom().contains(a)
                            &&& acts@.contains(
                                Action::Write(MemWrite { addr: a, byte: INT3 }),
                            )
                        },
                        None => true,
                    }
                },
    {
        let ghost n0 = self.breakpoints@.len();
        let ghost old_bps = self.breakpoints@;
        let ghost fs = self.modules.functions@;
        let ghost apis = self.known_apis.apis@;
        let mut still: Vec<UnresolvedBreakpoint> = Vec::new();
        let mut pending: Vec<UnresolvedBreakpoint> = Vec::new();
        core::mem::swap(&mut pending, &mut self.unresolved_breakpoints);
        let mut acts: Vec<Action> = Vec::new();
        proof {
            assert(image@.len() == image.len());
            assert(pending@.skip(0) =~= pending@);
            assert(still@ + spec_still_pending(
                pending@.skip(0),
                fs,
                base as int,
                image@.len() as int,
            ) =~= spec_still_pending(pending@, fs, base as int, image@.len() as int));
        }
        let mut k: usize = 0;
        while k < pending.len()
            invariant
                self.wf(),
                0 <= k <= pending@.len(),
                self.unresolved_breakpoints@.len() == 0,
                pending@ == old(self).unresolved_breakpoints@,
                self.modules == old(self).modules,
                fs == self.modules.functions@,
                apis == self.known_apis.apis@,
                old_bps == old(self).breakpoints@,
                self.known_apis == old(self).known_apis,
                self.current_known_call == old(self).current_known_call,
                self.break_on_next_single_step == old(self).break_on_next_single_step,
                self.reactivate_breakpoint == old(self).reactivate_breakpoint,
                self.current_tid == old(self).current_tid,
                self.breakpoints@.len() == n0,
                n0 == old_bps.len(),
                image@.len() == image.len(),
                forall|j: int|
                    0 <= j < pending@.len() ==> (#[trigger] pending@[j]).slot < n0,
                pending_slots_distinct(pending@),
                forall|m2: int|
                    k <= m2 < pending@.len() ==> self.breakpoints@[(
                    #[trigger] pending@[m2]).slot as int] == old_bps[pending@[m2].slot as int],
                still@ + spec_still_pending(
                    pending@.skip(k as int),
                    fs,
                    base as int,
                    image@.len() as int,
                ) == spec_still_pending(pending@, fs, base as int, image@.len() as int),
                // a slot not yet installed in this pass still holds
                // what it held before
                forall|s: int|
                    0 <= s < n0 && old_bps[s] is Unresolved && !(self.breakpoints@[s]
                        is Unresolved) ==> bp_location(#[trigger] self.breakpoints@[s]) is Some,
                forall|m: int|
                    0 <= m < k ==> {
                        let u = #[trigger] pending@[m];
                        match spec_resolves_in_image(fs, u, base as int, image@.len() as int) {
                            Some(a) => old_bps[u.slot as int] is Unresolved ==> {
                                &&& bp_location(self.breakpoints@[u.slot as int]) == Some(
                                    a as int,
                                )
                                &&& bp_original_byte(self.breakpoints@[u.slot as int]) == Some(
                                    image@[a - base],
                                )
                                &&& spec_resolved_breakpoint_ok(
                                    fs,
                                    apis,
                                    self.breakpoints@[u.slot as int],
                                    a,
                                    image@[a - base],
                                )
                                &&& self.breakpoints_locations@.dom().contains(a)
                                &&& acts@.contains(
                                    Action::Write(MemWrite { addr: a, byte: INT3 }),
                                )
                            },
                            None => true,
                        }
                    },
            decreases pending@.len() - k,
        {
            proof {
                assert(pending@.skip(k as int).first() == pending@[k as int]);
                assert(pending@.skip(k as int).drop_first() =~= pending@.skip(k + 1));
            }
            let u = &pending[k];
            let mut resolved = false;
            match self.modules.get_function_addr("", &u.symbol) {
                Some(a) => {
                    if base <= a && a - base < image.len() {
                        let slot = u.slot;
                        proof {
                            assert(pending@[k as int].slot < n0);
                        }
                        let still_placeholder = match &self.breakpoints[slot] {
                            Breakpoint::Unresolved => true,
                            _ => false,
                        };
                        if still_placeholder {
                            let ob = image[a - base];
                            let ghost acts_before = acts@;
                            let w = self.install_resolved(slot, a, ob);
                            acts.push(Action::Write(w));
                            proof {
                                assert(acts@.len() == acts_before.len() + 1);
                                assert(acts@[acts_before.len() as int] == Action::Write(
                                    MemWrite { addr: a, byte: INT3 },
                                ));
                                assert forall|x: Action| acts_before.contains(x) implies acts@
                                    .contains(x) by {
                                    let i = choose|i: int|
                                        0 <= i < acts_before.len() && acts_before[i] == x;
                                    assert(acts@[i] == x);
                                }
                                assert(acts@.contains(
                                    Action::Write(MemWrite { addr: a, byte: INT3 }),
                                ));
                            }
                        }
                        resolved = true;
                    }
                },
                None => {},
            }
            if !resolved {
                still.push(Self::dup_unresolved(&pending[k]));
                proof {
                    assert(still@ + spec_still_pending(
                        pending@.skip(k + 1),
                        fs,
                        base as int,
                        image@.len() as int,
                    ) =~= spec_still_pending(pending@, fs, base as int, image@.len() as int));
                }
            }
            k += 1;
        }
        proof {
            assert(pending@.skip(k as int) =~= Seq::empty());
            assert(still@ =~= spec_still_pending(
                pending@,
                fs,
                base as int,
                image@.len() as int,
            ));
            lemma_still_pending_props(pending@, fs, base as int, image@.len() as int);
            assert forall|j: int| 0 <= j < still@.len() implies (#[trigger] still@[j]).slot
                < n0 by {
                assert(pending@.contains(still@[j]));
                let m = choose|m: int| 0 <= m < pending@.len() && pending@[m] == still@[j];
            }
        }
        self.unresolved_breakpoints = still;
        acts
    }

    /// Consumes one debug event and decides how the loop goes on:
    /// module events feed the registry and retry pending symbols; a
    /// recognized breakpoint hit restores the original byte, arms a
    /// step-over, and surfaces unless the breakpoint keeps going; a
    /// single-step clears the trap flag, re-arms the stepped-over
    /// breakpoint unless it was once-only, and surfaces exactly when
    /// a user step was pending; process exit leaves the loop; an
    /// access violation stops driving the target; everything else
    /// continues silently.
    pub fn handle_event(&mut self, tid: usize, e: DebugEvent) -> (r: EventOutcome)
        requires
            old(self).wf(),
        ensures
            final(self).wf(),
            final(self).current_tid == tid,
            match e {
                DebugEvent::CreateThread
                | DebugEvent::UnloadDll
                | DebugEvent::ExitThread
                | DebugEvent::Rip
                | DebugEvent::Unknown
                | DebugEvent::OutputDebugString { .. } => {
                    &&& r.decision == LoopDecision::Continue
                    &&& r.actions@.len() == 0
                    &&& spec_same_core(*old(self), *final(self))
                },
                DebugEvent::ExitProcess => {
                    &&& r.decision == LoopDecision::Break
                    &&& r.actions@.len() == 0
                    &&& spec_same_core(*old(self), *final(self))
                },
                DebugEvent::CreateProcess { base, size, name, image }
                | DebugEvent::LoadDll { base, size, name, image } => {
                    &&& r.decision == LoopDecision::Continue
                    &&& final(self).known_apis == old(self).known_apis
                    &&& final(self).current_known_call == old(self).current_known_call
                    &&& final(self).break_on_next_single_step == old(self).break_on_next_single_step
                    &&& final(self).reactivate_breakpoint == old(self).reactivate_breakpoint
                    &&& (base + image@.len() <= usize::MAX && crate::modules::spec_load_error(
                        image@,
                    ) is None ==> {
                        &&& exists|m: crate::modules::ModuleInfo|
                            m.name@ == name@ && m.addr == base && m.size == size && final(self).modules.modules@.to_multiset() == #[trigger] old(self).modules.modules@.to_multiset().insert(m)
                        &&& exists|added: Seq<crate::modules::FunctionInfo>|
                            #[trigger] crate::modules::fn_views(added)
                                == crate::modules::spec_module_functions(
                                image@,
                                base as int,
                                size as int,
                            ) && final(self).modules.functions@.to_multiset() == old(self).modules.functions@.to_multiset().add(added.to_multiset())
                    })
                    &&& final(self).unresolved_breakpoints@ == spec_still_pending(
                        old(self).unresolved_breakpoints@,
                        final(self).modules.functions@,
                        base as int,
                        image@.len() as int,
                    )
                    &&& forall|k: int|
                        0 <= k < final(self).unresolved_breakpoints@.len()
                            ==> spec_resolves_in_image(
                            final(self).modules.functions@,
                            #[trigger] final(self).unresolved_breakpoints@[k],
                            base as int,
                            image@.len() as int,
                        ) is None
                    &&& forall|m: int|
                        0 <= m < old(self).unresolved_breakpoints@.len() ==> {
                            let u = #[trigger] old(self).unresolved_breakpoints@[m];
                            match spec_resolves_in_image(
                                final(self).modules.functions@,
                                u,
                                base as int,
                                image@.len() as int,
                            ) {
                                Some(a) => old(self).breakpoints@[u.slot as int] is Unresolved
                                    ==> {
                                    &&& bp_location(final(self).breakpoints@[u.slot as int])
                                        == Some(a as int)
                                    &&& bp_original_byte(
                                        final(self).breakpoints@[u.slot as int],
                                    ) == Some(image@[a - base])
                                    &&& spec_resolved_breakpoint_ok(
                                        final(self).modules.functions@,
                                        old(self).known_apis.apis@,
                                        final(self).breakpoints@[u.slot as int],
                                        a,
                                        image@[a - base],
                                    )
                                    &&& final(self).breakpoints_locations@.dom().contains(a)
                                    &&& r.actions@.contains(
                                        Action::Write(MemWrite { addr: a, byte: INT3 }),
                                    )
                                },
                                None => true,
                            }
                        }
                },
                DebugEvent::Exception { code, addr } => {
                    if spec_is_breakpoint_code(code) {
                        if old(self).breakpoints_locations@.dom().contains(addr) {
                            let i = old(self).breakpoints_locations@[addr];
                            let b = old(self).breakpoints@[i as int];
                            &&& r.actions@ == spec_hit_actions(b, tid, addr, i)
                            &&& r.decision == spec_hit_decision(b)
                            &&& final(self).reactivate_breakpoint == Some(i)
                            &&& final(self).breakpoints == old(self).breakpoints
                            &&& final(self).breakpoints_locations == old(self).breakpoints_locations
                            &&& final(self).modules == old(self).modules
                            &&& final(self).known_apis == old(self).known_apis
                            &&& final(self).unresolved_breakpoints == old(self).unresolved_breakpoints
                            &&& final(self).break_on_next_single_step == old(self).break_on_next_single_step
                        } else {
                            &&& r.decision == LoopDecision::Continue
                            &&& r.actions@.len() == 0
                            &&& spec_same_core(*old(self), *final(self))
                        }
                    } else if spec_is_single_step_code(code) {
                        &&& r.actions@ == seq![Action::ClearTrap { tid }]
                            + spec_single_step_reinstall(*old(self))
                        &&& r.decision == spec_single_step_decision(*old(self))
                        &&& final(self).reactivate_breakpoint is None
                        &&& final(self).break_on_next_single_step == false
                        &&& spec_same_core(*old(self), *final(self))
                    } else if code == EXCEPTION_ACCESS_VIOLATION {
                        &&& r.decision == LoopDecision::Terminate
                        &&& r.actions@.len() == 0
                        &&& spec_same_core(*old(self), *final(self))
                    } else {
                        &&& r.decision == LoopDecision::Continue
                        &&& r.actions@.len() == 0
                        &&& spec_same_core(*old(self), *final(self))
                    }
                },
            },
    {
        self.current_tid = tid;
        match e {
            DebugEvent::CreateProcess { base, size, name, image }
            | DebugEvent::LoadDll { base, size, name, image } => {
                if base <= usize::MAX - image.len() {
                    let _ = self.modules.load_module(base, size, name.as_str(), &image);
                }
                let acts = self.try_resolve_breakpoints(base, &image);
                proof {
                    lemma_still_pending_props(
                        old(self).unresolved_breakpoints@,
                        self.modules.functions@,
                        base as int,
                        image@.len() as int,
                    );
                }
                EventOutcome { decision: LoopDecision::Continue, actions: acts }
            },
            DebugEvent::Exception { code, addr } => {
                if code == EXCEPTION_BREAKPOINT || code == STATUS_WX86_BREAKPOINT {
                    let slot_opt: Option<usize> = match self.breakpoints_locations.get(&addr) {
                        Some(i) => Some(*i),
                        None => None,
                    };
                    match slot_opt {
                        Some(i) => {
                            proof {
                                assert(self.breakpoints_locations@.dom().contains(addr));
                            }
                            let mut actions: Vec<Action> = Vec::new();
                            let decision: LoopDecision;
                            match &self.breakpoints[i] {
                                Breakpoint::Simple { original_byte, trace, go, .. } => {
                                    actions.push(
                                        Action::Write(MemWrite { addr, byte: *original_byte }),
                                    );
                                    actions.push(Action::SetTrap { tid, rewind: Some(addr) });
                                    if *trace {
                                        actions.push(Action::TraceCurrentInstruction);
                                    }
                                    decision = if *go {
                                        LoopDecision::Continue
                                    } else {
                                        LoopDecision::Break
                                    };
                                },
                                Breakpoint::KnownApi { original_byte, .. } => {
                                    actions.push(
                                        Action::Write(MemWrite { addr, byte: *original_byte }),
                                    );
                                    actions.push(Action::SetTrap { tid, rewind: Some(addr) });
                                    actions.push(Action::CaptureKnownCall { slot: i });
                                    decision = LoopDecision::Break;
                                },
                                Breakpoint::Unresolved => {
                                    proof {
                                        assert(false);
                                    }
                                    decision = LoopDecision::Continue;
                                },
                            }
                            proof {
                                assert(actions@ =~= spec_hit_actions(
                                    self.breakpoints@[i as int],
                                    tid,
                                    addr,
                                    i,
                                ));
                            }
                            self.reactivate_breakpoint = Some(i);
                            EventOutcome { decision, actions }
                        },
                        None => EventOutcome {
                            decision: LoopDecision::Continue,
                            actions: Vec::new(),
                        },
                    }
                } else if code == EXCEPTION_SINGLE_STEP || code == STATUS_WX86_SINGLE_STEP {
                    let mut actions: Vec<Action> = Vec::new();
                    actions.push(Action::ClearTrap { tid });
                    let mut go_breakpoint = false;
                    match self.reactivate_breakpoint {
                        Some(i) => {
                            if i < self.breakpoints.len() {
                                let b = &self.breakpoints[i];
                                match self.reactivate_breakpoint(b) {
                                    Some(w) => {
                                        actions.push(Action::Write(w));
                                    },
                                    None => {},
                                }
                                match b {
                                    Breakpoint::Simple { go, .. } => {
                                        go_breakpoint = *go;
                                    },
                                    _ => {},
                                }
                            }
                        },
                        None => {},
                    }
                    self.reactivate_breakpoint = None;
                    let decision = if go_breakpoint {
                        LoopDecision::Continue
                    } else if self.break_on_next_single_step {
                        LoopDecision::Break
                    } else {
                        LoopDecision::Continue
                    };
                    self.break_on_next_single_step = false;
                    EventOutcome { decision, actions }
                } else if code == EXCEPTION_ACCESS_VIOLATION {
                    EventOutcome { decision: LoopDecision::Terminate, actions: Vec::new() }
                } else {
                    EventOutcome { decision: LoopDecision::Continue, actions: Vec::new() }
                }
            },
            DebugEvent::ExitProcess => EventOutcome {
                decision: LoopDecision::Break,
                actions: Vec::new(),
            },
            _ => EventOutcome { decision: LoopDecision::Continue, actions: Vec::new() },
        }
    }
}

/// The write that restores a breakpoint's original byte.
pub open spec fn spec_restore_write(b: Breakpoint) -> Option<MemWrite> {
    match b {
        Breakpoint::Simple { location, original_byte, .. } => Some(
            MemWrite { addr: location, byte: original_byte },
        ),
        Breakpoint::KnownApi { location, original_byte, .. } => Some(
            MemWrite { addr: location, byte: original_byte },
        ),
        Breakpoint::Unresolved => None,
    }
}

/// The write that re-arms a breakpoint, if it is re-armed at all.
pub open spec fn spec_reactivate_write(b: Breakpoint) -> Option<MemWrite> {
    match b {
        Breakpoint::Simple { location, once, .. } => if once {
            None
        } else {
            Some(MemWrite { addr: location, byte: INT3 })
        },
        Breakpoint::KnownApi { location, .. } => Some(MemWrite { addr: location, byte: INT3 }),
        Breakpoint::Unresolved => None,
    }
}

/// Target memory after one byte write.
pub open spec fn spec_apply_write(mem: Map<int, u8>, w: MemWrite) -> Map<int, u8> {
    mem.insert(w.addr as int, w.byte)
}

/// Target memory after an optional byte write.
pub open spec fn spec_apply_opt_write(mem: Map<int, u8>, w: Option<MemWrite>) -> Map<int, u8> {
    match w {
        Some(ww) => spec_apply_write(mem, ww),
        None => mem,
    }
}

/// Law: when a breakpoint is recorded with the byte the target held
/// and the returned write is applied, the target holds the break
/// opcode at the location and the record keeps the original byte.
pub proof fn lemma_breakpoint_install(
    mem: Map<int, u8>,
    bps1: Seq<Breakpoint>,
    bps2: Seq<Breakpoint>,
    loc: usize,
    once: bool,
    h: int,
    w: MemWrite,
)
    requires
        bps2 == bps1.push(
            Breakpoint::Simple {
                location: loc,
                original_byte: mem[loc as int],
                once,
                trace: false,
                go: false,
            },
        ),
        h == bps1.len(),
        w == (MemWrite { addr: loc, byte: INT3 }),
    ensures
        spec_apply_write(mem, w)[loc as int] == INT3,
        bps2[h] matches Breakpoint::Simple { original_byte, .. } && original_byte == mem[
            loc as int
        ],
{
}

/// Law: over a hit and step-over cycle, the restore write puts the
/// original byte back; afterwards a once-only breakpoint leaves the
/// original byte in place, while any other breakpoint holds the
/// break opcode again.
pub proof fn lemma_step_over_cycle(
    mem: Map<int, u8>,
    loc: usize,
    orig: u8,
    once: bool,
    trace: bool,
    go: bool,
)
    ensures
        ({
            let b = Breakpoint::Simple { location: loc, original_byte: orig, once, trace, go };
            let after_hit = spec_apply_opt_write(mem, spec_restore_write(b));
            let after_step = spec_apply_opt_write(after_hit, spec_reactivate_write(b));
            &&& after_hit[loc as int] == orig
            &&& once ==> after_step[loc as int] == orig
            &&& !once ==> after_step[loc as int] == INT3
        }),
{
}

/// Law: the location index pairs each installed location with
/// exactly one handle; a handle reached from two locations stands at
/// both, so the locations are one.
pub proof fn lemma_breakpoint_locations_unique(d: &Debugger, l1: usize, l2: usize)
    requires
        d.wf(),
        d.breakpoints_locations@.dom().contains(l1),
        d.breakpoints_locations@.dom().contains(l2),
        d.breakpoints_locations@[l1] == d.breakpoints_locations@[l2],
    ensures
        l1 == l2,
{
}

} // verus!
