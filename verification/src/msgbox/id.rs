//! The `ID*` values a `MessageBox` can return.
use vstd::prelude::*;

verus! {

pub const OK: u32 = 1;

pub const CANCEL: u32 = 2;

pub const ABORT: u32 = 3;

pub const RETRY: u32 = 4;

pub const IGNORE: u32 = 5;

pub const YES: u32 = 6;

pub const NO: u32 = 7;

} // verus!
