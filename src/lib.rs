//! Head-region cutout and face transplant engine.
//!
//! The library plans the working regions around a detected face, turns the
//! label map of a foreground/background segmentation into a clean opacity
//! mask, fuses colour and mask into a transparent image, and matches and
//! blends one face into another photograph.
pub mod error;
pub mod geometry;
pub mod image;
pub mod segment;
pub mod composite;
pub mod color;
pub mod blend;
pub mod transport;
pub mod pipeline;
