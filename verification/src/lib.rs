//! Drafting of sewing-pattern blocks from body measurements.
//!
//! A bodice block and a set-in sleeve block are constructed from a set of
//! body measurements by the rules of French pattern drafting: landmarks
//! placed by ruler and compass constructions, curves through them as cubic
//! Bezier arcs, a one-time allowance for fabric that stretches, and
//! drawings of the result.
//!
//! All lengths are centimetres held in decimal fixed point (see
//! [`fixed`]), so that every construction is integer arithmetic with a
//! stated rounding, and every function is total: what leaves the range
//! saturates. Each function states what it returns over the mathematical
//! view of its arguments.
//!
//! * [`fixed`] and [`decimal`]: the numbers and how they are written out.
//! * [`math`]: plane vectors, a bisection root finder and the natural
//!   cubic spline through a sequence of points.
//! * [`smoothness`]: how well the pieces of that spline fit together where
//!   they meet.
//! * [`measurements`]: the full set of body measurements, the table of
//!   standard sizes and the measurements of known individuals.
//! * [`store`]: values kept under text labels.
//! * [`patterns`]: the two blocks, their drawings and the stretch
//!   allowance.
//! * [`drawing`] and [`renderers`]: what a drawing is made of, and how it
//!   is written out as SVG.
//! * [`schemas`], [`shop`] and [`commands`]: requests and answers, the
//!   catalog of garments, and what an application asks of the library.

pub mod commands;
pub mod decimal;
pub mod drawing;
pub mod fixed;
pub mod math;
pub mod measurements;
pub mod patterns;
pub mod renderers;
pub mod schemas;
pub mod shop;
pub mod smoothness;
pub mod store;
