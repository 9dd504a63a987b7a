[package]
name = "milkdbg"
version = "0.1.0"
edition = "2021"
publish = false

[dependencies]
iced-x86 = { version = "1", default-features = false, features = ["std", "decoder", "nasm"] }
json = "0.12"
winapi = { version = "0.3", features = ["debugapi", "memoryapi", "processthreadsapi", "winbase", "winnt", "minwinbase", "errhandlingapi", "fileapi", "wow64apiset", "handleapi", "tlhelp32", "ntstatus", "winerror"] }
