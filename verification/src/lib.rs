//! Arithmetic in a prime field and in its quadratic extension, polynomial
//! evaluation over such rings, brute-force enumeration of the solutions of
//! y^2 = x^3 + a*x + b over the extension field, and the elliptic-curve
//! group law on the rational points of such a curve.

pub mod algebra;
pub mod complexification;
pub mod modint;
pub mod primality;
pub mod polynomial;
pub mod rational_point;
pub mod solution_set;
