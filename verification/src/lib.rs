//! The scene and interaction core of a domino arranging tool: the scene of
//! dominoes, the camera's movement decisions, picking by a click, and what is
//! submitted to the graphics layer each frame.

pub mod main_window;
pub mod rounding;
pub mod scalar;
pub mod simulator;
pub mod ui_3d;
