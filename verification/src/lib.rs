//! Core of a scriptable user-mode debugger for x86 executable images:
//! an image-format parser, a module and function registry, a breakpoint
//! engine driven by debug events, and a catalog of known API call shapes.

pub mod bytes;
pub mod context;
pub mod debugger;
pub mod instr;
pub mod known_api;
pub mod modules;
pub mod pe;
