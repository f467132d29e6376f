// Decoding of a chunked binary skeletal-mesh format and the skeleton and animation
// logic around it. Floating-point values are carried as their IEEE-754 bit patterns.

pub mod animation;
pub mod bits;
pub mod bone;
pub mod color;
pub mod geometry;
pub mod hierarchy;
pub mod mesh;
pub mod mouse;
pub mod number;
pub mod random;
pub mod reader;
pub mod skeleton;
pub mod text;
