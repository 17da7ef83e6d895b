//! Renders a directory listing as a bordered text table.
//!
//! The library is pure: it turns the plain values that a directory scan
//! produced into path records, puts them into the order asked for, plans
//! the column widths of the table and draws it as one string. Reading the
//! file system and writing the result are left to the caller.
//!
//! - [`path_handler`] and [`files_logic`]: from a scan to records and names.
//! - [`record`]: the records.
//! - [`order`]: the order in which they are shown.
//! - [`printer`]: the display configuration and the drawing.
//! - [`layout`]: what the table is, as mathematics; [`laws`]: what holds
//!   of every table.
//! - [`color`], [`symbols`], [`number`], [`clock`], [`chars`], [`text`]:
//!   colors, glyphs, and numbers, dates and text as characters.

pub mod chars;
pub mod clock;
pub mod color;
pub mod files_logic;
pub mod laws;
pub mod layout;
pub mod number;
pub mod order;
pub mod path_handler;
pub mod printer;
pub mod record;
pub mod symbols;
pub mod text;
