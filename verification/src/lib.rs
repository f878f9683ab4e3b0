//! Verified core of a pen-plotter drawing toolkit: EBB stepper commands and
//! motion slicing, servo timing, plotter protocol text, colours and stroke
//! font parsing.
pub mod decimal;
pub mod color;
pub mod text;
pub mod sm_command;
pub mod sm_move;
pub mod lm_command;
pub mod servo;
pub mod motion;
pub mod ebb;
pub mod font;
pub mod hershey;
pub mod plot_session;
pub mod stats;
pub mod svg;
pub mod layout;
pub mod font_registry;
pub mod svg_export;
