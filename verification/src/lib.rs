//! Line geometry of the pages of a document.
//!
//! The operator streams of the pages and of the forms they invoke are
//! interpreted into line segments (`interpreter`), curves are flattened
//! (`curve`), pages are laid out side by side (`layout`), and the segments
//! are scaled for a drawing (`drawing`). The raster images among the stream
//! objects are picked out for writing (`raster`).
//!
//! The numbers are those of a `scalar::Scalar`: the geometry is computed by
//! the operations of the scalar, in an order that the contracts state, and
//! holds no arithmetic of its own. `lattice::Lattice` is the scalar of whole
//! numbers, in which the arithmetic is exact.

pub mod content;
pub mod curve;
pub mod document;
pub mod drawing;
pub mod geometry;
pub mod interpreter;
pub mod lattice;
pub mod layout;
pub mod raster;
pub mod scalar;
