//! A terminal viewer for a small set of text documents: the loading rules,
//! the cursor with its wraparound navigation, the reaction to key presses and
//! the layout of each screen, all verified.

pub mod text;
pub mod viewer;
pub mod screen;
