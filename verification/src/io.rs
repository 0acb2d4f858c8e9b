//! Input/output facilities: the text-mode display writer.

pub mod vga;
