//! The verified core of an e-paper watch: button debouncing, the menu state
//! machine, the clock arithmetic and texts, the refresh schedule of the
//! e-paper panel, and the decisions of the main event loop.

pub mod buttons;
pub mod text;
pub mod clock;
pub mod menu;
pub mod display;
pub mod status;
