//! Adapters for a hierarchical catalog of optical materials.
//!
//! The catalog is flattened into a key-value [`Store`] whose items carry
//! normalized dispersion data, and each dispersion entry can be turned into
//! the closed-form expression of the refractive index at a wavelength.
//!
//! Numbers are IEEE-754 doubles. The library never computes with them: it
//! carries each one as its bit pattern ([`Number`]), orders bit patterns
//! where a rule needs an order, and states every formula as an [`Expr`] that
//! the caller evaluates.
pub mod cli;
pub mod database;
pub mod dispersion;
pub mod expr;
pub mod number;
pub mod store;
pub mod text;

pub use dispersion::{DataType, DispersionData, EvalError, Kind};
pub use expr::Expr;
pub use number::Number;
pub use store::{Material, Store};
