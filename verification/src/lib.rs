//! A terminal JSON viewer's core: a colorizing, indenting renderer that turns
//! a parsed JSON document into a sequence of draw commands, and the key-chord
//! interpreter that drives the viewer's scroll/quit loop.
//!
//! The host owns all I/O: it parses the document, hands the renderer a
//! [`json::Json`] value, writes the produced [`display::Cmd`] commands to the
//! terminal, and feeds each key event through [`input::handle_key`].

pub mod display;
pub mod input;
pub mod json;
