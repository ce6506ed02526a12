//! Smooth piecewise cubic Bezier curves through a sequence of anchor points.
//!
//! The fit has two halves. Everything that decides *which* numbers are
//! combined — the coefficient matrix of the linear system, the weights of
//! its right-hand side, the rules that close each segment, and the grouping
//! of points into segments — is integer and index work; it lives here and
//! is proved. The arithmetic on the coordinates themselves is left to the
//! caller, who picks the scalar type: every point this crate has to derive
//! is handed out as a [`blend::Blend`], two operands with integer weights.

pub mod blend;
pub mod control;
pub mod error;
pub mod matrix;
pub mod segment;
pub mod smoothness;
pub mod system;
