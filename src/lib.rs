//! Keypad scanning, debouncing and on-screen rendering logic for a handheld
//! 3x4 keypad with a colour display.

pub mod debounce;
pub mod display;
pub mod kbd;
pub mod ui;
