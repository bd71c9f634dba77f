//! `MB_*` flags of `MessageBox`'s `uType`.
use vstd::prelude::*;

verus! {

/// The button-set selector, the low nibble.
pub const TYPE_MASK: u32 = 0x0000_000F;

pub const OK: u32 = 0x0000_0000;

pub const OKCANCEL: u32 = 0x0000_0001;

pub const ABORTRETRYIGNORE: u32 = 0x0000_0002;

pub const YESNOCANCEL: u32 = 0x0000_0003;

pub const YESNO: u32 = 0x0000_0004;

pub const RETRYCANCEL: u32 = 0x0000_0005;

/// `MB_ICON*`, the next nibble up.
pub const ICON_MASK: u32 = 0x0000_00F0;

pub const ICONSTOP: u32 = 0x0000_0010;

pub const ICONQUESTION: u32 = 0x0000_0020;

pub const ICONEXCLAMATION: u32 = 0x0000_0030;

pub const ICONINFORMATION: u32 = 0x0000_0040;

/// `MB_DEFBUTTON*` — which button `VK_RETURN` activates.
pub const DEFMASK: u32 = 0x0000_0F00;

pub const DEFBUTTON2: u32 = 0x0000_0100;

pub const DEFBUTTON3: u32 = 0x0000_0200;

} // verus!
