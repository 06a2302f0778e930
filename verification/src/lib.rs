//! Verified integer core of a sphere-tracing renderer: frame geometry,
//! march control, the frame loop's decisions and the pixel encoding.
//!
//! The renderer's arithmetic on distances and directions is floating point
//! and lives with the program. What it decides on whole numbers lives here:
//! which pixel a buffer slot holds and where that pixel lies on the screen,
//! when a march is over, what a frame does, and which colour word a light
//! level becomes.

pub mod color;
pub mod frame;
pub mod march;
pub mod session;
