//! Layout engine for a camera-metadata strip: given resolved display strings
//! for a fixed set of metadata fields, it computes exact horizontal pixel
//! positions for each field's icon and text label, split into a left-aligned
//! group and a right-aligned group.

pub mod framer;
pub mod positions;
pub mod resolution;
pub mod text_values;
