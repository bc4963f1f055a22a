//! A 2D light renderer over signed-distance fields.
//!
//! Shapes are circles, half-planes, capsules, rectangles and triangles,
//! combined by boolean operators into a tree. A scene sphere-traces
//! stochastic rays through the tree and averages the light each pixel
//! receives into a greyscale byte buffer.
//!
//! All geometry is carried in fixed-point units: one pixel is `SCALE`
//! units, so a coordinate of `3 * SCALE / 2` means one and a half pixels.
pub mod fixed;
pub mod scene;
pub mod shape;

