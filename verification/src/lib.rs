//! A system summary with a striped logo: the parsers for what the machine
//! says of itself, the report that is made of it, and the picture that sets
//! a coloured logo beside the report.
//!
//! Nothing here reads a file or runs a command. Callers hand in the content
//! of `/etc/os-release`, `/etc/passwd`, `/proc/meminfo` and `/proc/cpuinfo`
//! and the output of the package manager, and get back the lines to print.

pub mod cpuinfo;
pub mod distro;
pub mod info;
pub mod meminfo;
pub mod number;
pub mod os_release;
pub mod packages;
pub mod palette;
pub mod passwd;
pub mod render;
pub mod size;
pub mod style;
pub mod table;
pub mod text;
