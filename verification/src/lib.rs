//! Verified control logic for a small free-fly demo scene: a keyboard/mouse
//! camera controller, a skybox cubemap cycler with hardware-format selection,
//! and a wireframe debug panel.
//!
//! The host game engine owns rendering, asset loading, windowing and input
//! polling. This library holds the per-frame decisions those systems make —
//! which cubemap to load next, how far the camera moves and turns, which
//! debug colors to show — as verified functions over plain values. A thin
//! driver converts between engine values (clocks, input state, image
//! metadata) and the integer-valued models used here.

pub mod camera_control;
pub mod skybox;
pub mod wireframe;
