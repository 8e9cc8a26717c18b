//! The core of an ant colony simulation: a decaying scent field that ants
//! lay and follow, the steering that takes an ant to its target, the drift
//! that keeps ants apart, and what ants of each line of work decide to do.
//!
//! Everything is computed in whole numbers. Positions, lengths, speeds,
//! angles, times and scent strengths are thousandths of their unit; the
//! scent field lives on a grid whose cells are one length unit wide. What
//! needs trigonometry or chance is measured or drawn by the host and handed
//! in.

pub mod behavior;
pub mod colony;
pub mod drift;
pub mod fixed;
pub mod food;
pub mod forager;
pub mod gametimer;
pub mod grid;
pub mod index;
pub mod misc_utility;
pub mod scent;
pub mod scentmap;
pub mod steering;
pub mod table;
pub mod totals;
