//! Image loading with aspect-preserving scaling into a target rectangle, and a
//! cache that renders each path at most once.

pub mod error;
pub mod image;
pub mod resource_loader;
pub mod scaling;

pub use error::ImageError;
pub use image::{Image, ImageView};
pub use resource_loader::{ImageSource, ResourceLoader};
pub use scaling::{Filter, Fraction, Layout, Scaling, Size};
