use vstd::prelude::*;

pub mod gl;
pub mod texture;
pub mod text;
pub mod controls;
pub mod font;
pub mod msgbox;
pub mod dlgtemplate;
pub mod tracker;
pub mod save_data;
pub mod matrix;
pub mod gdi;
pub mod dispatch;
pub mod ws2;
pub mod hss;
pub mod ordinals;

verus! {

} // verus!
