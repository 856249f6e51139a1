[package]
name = "hdr-auto"
version = "0.1.0"
edition = "2021"
publish = false

[dependencies]
winapi = { version = "0.3", features = ["errhandlingapi", "handleapi", "libloaderapi", "minwindef", "ntdef", "processthreadsapi", "shellapi", "synchapi", "tlhelp32", "unknwnbase", "winbase", "windef", "winerror", "wingdi", "winnt", "winreg", "winuser"] }
