use vstd::prelude::*;

pub mod text;
pub mod xml;
pub mod binary;
pub mod request;
pub mod preset;
pub mod paths;
pub mod plist;
pub mod packager;
pub mod host;
pub mod scanner;
pub mod au;
pub mod gui;
pub mod gui_test;
pub mod messages;
pub mod cli;
pub mod interactive;

verus! {

} // verus!
