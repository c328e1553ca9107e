[package]
name = "elev"
version = "0.1.0"
edition = "2021"
publish = false

[dependencies]
sha2 = "*"
hex = "*"
scopeguard = "*"
termcolor = "*"
clap = "*"
winapi = { version = "0.3", features = ["combaseapi", "objbase", "processthreadsapi", "shellapi", "synchapi", "winbase", "wincon", "winuser", "winerror", "minwindef", "ntdef"] }
