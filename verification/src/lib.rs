//! Terminal fractal explorer: the verified core.
//!
//! The library holds everything of the explorer that is exact: the braille
//! sub-pixel encoding, the colour palettes and their gradient tables, the
//! key and mouse bindings and the interaction state they drive, the
//! autopilot's state machine and the sampling grid it scores. Floating-point
//! geometry and escape-time iteration live with the terminal front end.


pub mod render;
pub mod fractal;
pub mod autopilot;
pub mod app;
