//! Core of a document-panel pipeline: a compiled markup document is fitted
//! to a host viewport under a contain-fit policy, and labeled interactive
//! regions are extracted from its layout tree.
//!
//! The crate owns the verifiable logic only: geometry as exact integer
//! fractions, the fit computation, the layout-tree walk that pairs markers
//! with the groups that follow them, the resource cache with lazy text
//! decoding, the orientation choice, and the recompute bookkeeping that
//! retains the last good output. Compilation, rasterization and display are
//! outside collaborators; they hand this crate plain values and take plain
//! values back.

pub mod document;
pub mod extract;
pub mod fit;
pub mod geometry;
pub mod layout;
pub mod orientation;
pub mod overlay;
pub mod popup;
pub mod resolver;
pub mod session;
