//! Landmark-driven square crops: turning facial landmark annotations into
//! padded square crop regions, and deciding how a batch of images is indexed.

pub mod annotation;
pub mod batch;
pub mod geometry;
pub mod text;
