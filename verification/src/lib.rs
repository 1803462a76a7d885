//! A terminal for laser engravers that speak the GRBL dialect: the protocol, the
//! state of the program and what it shows.
use vstd::prelude::*;

pub mod actions;
pub mod app;
pub mod binary64;
pub mod connect_pane;
pub mod control_pane;
pub mod converter;
pub mod events;
pub mod frame_pane;
pub mod gcode_pane;
pub mod grbl;
pub mod input;
pub mod keys;
pub mod layers;
pub mod message;
pub mod pages;
pub mod program;
pub mod raster;
pub mod serial;
pub mod settings;
pub mod settings_pane;
pub mod svg;
pub mod talk;
pub mod text;
pub mod trace;
pub mod turtle;
pub mod view;
pub mod visitor;
pub mod window;

verus! {

} // verus!
