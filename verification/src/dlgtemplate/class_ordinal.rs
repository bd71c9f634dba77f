//! The predefined class ordinals a `DLGITEMTEMPLATE` may name instead
//! of spelling the class out.
use vstd::prelude::*;

verus! {

pub const BUTTON: u16 = 0x0080;

pub const EDIT: u16 = 0x0081;

pub const STATIC: u16 = 0x0082;

pub const LISTBOX: u16 = 0x0083;

pub const SCROLLBAR: u16 = 0x0084;

pub const COMBOBOX: u16 = 0x0085;

} // verus!
