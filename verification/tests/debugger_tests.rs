use milkdbg::context::mem_watch_hit;
use milkdbg::debugger::{
    Action, Breakpoint, DebugEvent, Debugger, LoopDecision, MemWrite, ReadKind, parse_read_kind,
    EXCEPTION_BREAKPOINT, EXCEPTION_SINGLE_STEP,
};

fn put16(v: &mut Vec<u8>, off: usize, x: u16) {
    v[off..off + 2].copy_from_slice(&x.to_le_bytes());
}

fn put32(v: &mut Vec<u8>, off: usize, x: u32) {
    v[off..off + 4].copy_from_slice(&x.to_le_bytes());
}

fn build_module_with_exports(exports: &[(&str, u32)]) -> Vec<u8> {
    let mut v = vec![0u8; 2048];
    put32(&mut v, 60, 64);
    put32(&mut v, 64, 0x0000_4550);
    put16(&mut v, 68, 0x014C);
    put32(&mut v, 184, 320);
    put32(&mut v, 188, 80);
    let n = exports.len() as u32;
    put32(&mut v, 320 + 20, n);
    put32(&mut v, 320 + 24, n);
    put32(&mut v, 320 + 28, 360);
    put32(&mut v, 320 + 32, 600);
    put32(&mut v, 320 + 36, 700);
    let mut name_off = 800u32;
    for (i, (name, rva)) in exports.iter().enumerate() {
        put32(&mut v, 360 + 4 * i, *rva);
        put32(&mut v, 600 + 4 * i, name_off);
        put16(&mut v, 700 + 2 * i, i as u16);
        let b = name.as_bytes();
        v[name_off as usize..name_off as usize + b.len()].copy_from_slice(b);
        name_off += b.len() as u32 + 1;
    }
    v
}

#[test]
fn breakpoint_install_records_original_byte() {
    let mut dbg = Debugger::new();
    let (h, w) = dbg.add_breakpoint_simple(0x0040_1000, 0xB8, false);
    assert_eq!(h, 0);
    assert_eq!(w, MemWrite { addr: 0x0040_1000, byte: 0xCC });
    match &dbg.breakpoints[h] {
        Breakpoint::Simple { location, original_byte, once, .. } => {
            assert_eq!(*location, 0x0040_1000);
            assert_eq!(*original_byte, 0xB8);
            assert!(!*once);
        },
        _ => panic!("expected a simple breakpoint"),
    }
}

#[test]
fn entry_to_exit_run() {
    // A single run drives the target from process creation to normal
    // termination; only the exit event leaves the loop.
    let mut dbg = Debugger::new();
    dbg.begin_go();
    let image = build_module_with_exports(&[("Init", 0x500)]);
    let len = image.len();
    let out = dbg.handle_event(
        7,
        DebugEvent::CreateProcess { base: 0x0040_0000, size: len, name: String::from("a.exe"), image },
    );
    assert_eq!(out.decision, LoopDecision::Continue);
    assert_eq!(dbg.current_tid, 7);
    let out = dbg.handle_event(7, DebugEvent::CreateThread);
    assert_eq!(out.decision, LoopDecision::Continue);
    let out = dbg.handle_event(7, DebugEvent::ExitProcess);
    assert_eq!(out.decision, LoopDecision::Break);
    assert!(out.actions.is_empty());
}

#[test]
fn symbolic_breakpoint_resolves_on_dll_load() {
    let mut dbg = Debugger::new();
    let (slot, request) = dbg.add_breakpoint_symbol("", "MessageBoxA");
    assert!(request.is_none()); // nothing loaded yet
    assert!(matches!(dbg.breakpoints[slot], Breakpoint::Unresolved));
    assert_eq!(dbg.unresolved_breakpoints.len(), 1);

    let mut image = build_module_with_exports(&[("Other", 0x400), ("MessageBoxA", 0x500)]);
    image[0x500] = 0xB8; // the byte the breakpoint must keep
    let len = image.len();
    let out = dbg.handle_event(
        3,
        DebugEvent::LoadDll { base: 0x7700_0000, size: len, name: String::from("user32.dll"), image },
    );
    assert_eq!(out.decision, LoopDecision::Continue);
    let addr = 0x7700_0500;
    assert!(out.actions.contains(&Action::Write(MemWrite { addr, byte: 0xCC })));
    assert!(dbg.unresolved_breakpoints.is_empty());
    match &dbg.breakpoints[slot] {
        Breakpoint::Simple { location, original_byte, once, .. } => {
            assert_eq!(*location, addr);
            assert_eq!(*original_byte, 0xB8);
            assert!(!*once);
        },
        _ => panic!("placeholder was not replaced"),
    }

    // A later call of that address raises a breakpoint the engine
    // recognizes.
    let out = dbg.handle_event(3, DebugEvent::Exception { code: EXCEPTION_BREAKPOINT, addr });
    assert_eq!(out.decision, LoopDecision::Break);
    assert_eq!(out.actions[0], Action::Write(MemWrite { addr, byte: 0xB8 }));
    assert_eq!(out.actions[1], Action::SetTrap { tid: 3, rewind: Some(addr) });
}

#[test]
fn symbol_with_descriptor_resolves_to_known_api() {
    let mut dbg = Debugger::new();
    let db = milkdbg::known_api::KnownApiDatabase::from_descriptor_texts(&vec![String::from(
        "{\"Functions\": [{\"Name\": \"MessageBoxA\", \"Params\": [\
           {\"Name\": \"hWnd\", \"Type\": {\"Name\": \"u32\"}},\
           {\"Name\": \"lpText\", \"Type\": {\"Name\": \"PSTR\"}}]}]}",
    )]);
    dbg.set_known_apis(db);
    let (slot, _) = dbg.add_breakpoint_symbol("", "MessageBoxA");
    let mut image = build_module_with_exports(&[("Other", 0x400), ("MessageBoxA", 0x500)]);
    image[0x500] = 0xB8;
    let len = image.len();
    let out = dbg.handle_event(
        3,
        DebugEvent::LoadDll { base: 0x7700_0000, size: len, name: String::from("user32.dll"), image },
    );
    let addr = 0x7700_0500;
    assert!(out.actions.contains(&Action::Write(MemWrite { addr, byte: 0xCC })));
    match &dbg.breakpoints[slot] {
        Breakpoint::KnownApi { location, original_byte, api } => {
            assert_eq!(*location, addr);
            assert_eq!(*original_byte, 0xB8);
            assert_eq!(api.name, "MessageBoxA");
            assert_eq!(api.args.len(), 2);
        },
        _ => panic!("expected a known-API breakpoint"),
    }

    // A hit asks for a capture; once the host hands the call back,
    // the engine surfaces it.
    let out = dbg.handle_event(3, DebugEvent::Exception { code: EXCEPTION_BREAKPOINT, addr });
    assert_eq!(out.decision, LoopDecision::Break);
    assert!(out.actions.contains(&Action::CaptureKnownCall { slot }));
    let api = match &dbg.breakpoints[slot] {
        Breakpoint::KnownApi { api, .. } => api.duplicate(),
        _ => unreachable!(),
    };
    let call = milkdbg::known_api::build_known_call(
        &api,
        vec![
            milkdbg::known_api::Value::U32(0),
            milkdbg::known_api::Value::String(String::from("hello")),
        ],
    );
    dbg.set_current_known_call(call);
    let got = dbg.get_current_known_call().unwrap();
    assert_eq!(got.name, "MessageBoxA");
    assert_eq!(got.args[1].0, "lpText");
}

#[test]
fn once_breakpoint_is_not_rearmed() {
    let mut dbg = Debugger::new();
    let addr = 0x0040_2000;
    let (_h, w) = dbg.add_breakpoint_simple(addr, 0x90, true);
    assert_eq!(w.byte, 0xCC);

    // First execution: the hit surfaces and restores the byte.
    let out = dbg.handle_event(5, DebugEvent::Exception { code: EXCEPTION_BREAKPOINT, addr });
    assert_eq!(out.decision, LoopDecision::Break);
    assert_eq!(out.actions[0], Action::Write(MemWrite { addr, byte: 0x90 }));
    assert_eq!(out.actions[1], Action::SetTrap { tid: 5, rewind: Some(addr) });

    // The step-over completes: the trap flag clears, and a once-only
    // breakpoint is not re-armed, so the original byte stays.
    let out = dbg.handle_event(5, DebugEvent::Exception { code: EXCEPTION_SINGLE_STEP, addr: addr + 1 });
    assert_eq!(out.actions, vec![Action::ClearTrap { tid: 5 }]);
    assert_eq!(out.decision, LoopDecision::Continue);

    // The second execution raises nothing: the target runs through.
    // (No event arrives; the engine's pending state is clear.)
    assert!(dbg.reactivate_breakpoint.is_none());
}

#[test]
fn ordinary_breakpoint_is_rearmed() {
    let mut dbg = Debugger::new();
    let addr = 0x0040_3000;
    dbg.add_breakpoint_simple(addr, 0x90, false);
    let out = dbg.handle_event(5, DebugEvent::Exception { code: EXCEPTION_BREAKPOINT, addr });
    assert_eq!(out.decision, LoopDecision::Break);
    let out = dbg.handle_event(5, DebugEvent::Exception { code: EXCEPTION_SINGLE_STEP, addr: addr + 1 });
    assert_eq!(
        out.actions,
        vec![Action::ClearTrap { tid: 5 }, Action::Write(MemWrite { addr, byte: 0xCC })]
    );
}

#[test]
fn user_step_surfaces_one_single_step() {
    let mut dbg = Debugger::new();
    let a = dbg.step();
    assert_eq!(a, Action::SetTrap { tid: 0, rewind: None });
    let out = dbg.handle_event(0, DebugEvent::Exception { code: EXCEPTION_SINGLE_STEP, addr: 1 });
    assert_eq!(out.decision, LoopDecision::Break);
    assert!(!dbg.break_on_next_single_step);
    // The next single step without a pending request continues.
    let out = dbg.handle_event(0, DebugEvent::Exception { code: EXCEPTION_SINGLE_STEP, addr: 2 });
    assert_eq!(out.decision, LoopDecision::Continue);
}

#[test]
fn foreign_int3_continues_silently() {
    let mut dbg = Debugger::new();
    let out = dbg.handle_event(1, DebugEvent::Exception { code: EXCEPTION_BREAKPOINT, addr: 0x1234 });
    assert_eq!(out.decision, LoopDecision::Continue);
    assert!(out.actions.is_empty());
}

#[test]
fn trace_breakpoints_keep_going() {
    let mut dbg = Debugger::new();
    let addr = 0x0040_4000;
    dbg.add_breakpoint_trace(addr, 0x55, false);
    let out = dbg.handle_event(2, DebugEvent::Exception { code: EXCEPTION_BREAKPOINT, addr });
    // The hit prints and does not surface.
    assert_eq!(out.decision, LoopDecision::Continue);
    assert!(out.actions.contains(&Action::TraceCurrentInstruction));
    // The step-over also resumes silently and re-arms.
    let out = dbg.handle_event(2, DebugEvent::Exception { code: EXCEPTION_SINGLE_STEP, addr: addr + 1 });
    assert_eq!(out.decision, LoopDecision::Continue);
    assert!(out.actions.contains(&Action::Write(MemWrite { addr, byte: 0xCC })));
}

#[test]
fn hardware_watch_loop_stops_on_status() {
    // The watch loop keeps going until the debug-status register
    // reports a hit.
    let mut statuses = vec![0u64, 0, 0x0000_0001];
    let mut stops = 0;
    while let Some(dr6) = statuses.pop() {
        if mem_watch_hit(dr6) {
            stops += 1;
        }
    }
    assert_eq!(stops, 1);
}

#[test]
fn trace_plan_follows_instruction_lengths() {
    let mut image = vec![0u8; 1024];
    put32(&mut image, 60, 64);
    put32(&mut image, 64, 0x0000_4550);
    put16(&mut image, 68, 0x014C);
    image[512] = 0x55; // push ebp
    image[513] = 0x89;
    image[514] = 0xE5; // mov ebp, esp
    image[515] = 0xC3; // ret
    let mut dbg = Debugger::new();
    let len = image.len();
    let _ = dbg.handle_event(
        1,
        DebugEvent::CreateProcess { base: 0x0040_0000, size: len, name: String::from("a.exe"), image: image.clone() },
    );
    dbg.modules.add_functions(
        vec![(String::from("early"), 0x0040_0000), (String::from("traced"), 0x0040_0200)],
        0x0040_0000,
        &image,
    );
    let f = 0x0040_0200;
    let locs = dbg.trace_function_at(f).unwrap();
    assert_eq!(locs[0], f);
    assert_eq!(locs[1], f + 1);
    assert_eq!(locs[2], f + 3);
}

#[test]
fn exception_codes_drive_the_loop() {
    let mut dbg = Debugger::new();
    let out = dbg.handle_event(1, DebugEvent::Exception { code: 0xC000_0005, addr: 0 });
    assert_eq!(out.decision, LoopDecision::Terminate);
    let out = dbg.handle_event(1, DebugEvent::Exception { code: 0xC000_008E, addr: 0 });
    assert_eq!(out.decision, LoopDecision::Continue);
}

#[test]
fn read_kinds_parse_as_named() {
    assert_eq!(parse_read_kind("u8"), Some(ReadKind::U8));
    assert_eq!(parse_read_kind("U16"), Some(ReadKind::U16));
    assert_eq!(parse_read_kind("u32"), Some(ReadKind::U32));
    assert_eq!(parse_read_kind("F32"), Some(ReadKind::F32));
    assert_eq!(parse_read_kind("i64"), None);
}
