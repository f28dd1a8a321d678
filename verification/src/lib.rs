//! Recovery of Diffie–Hellman private exponents in a group of smooth order.
//!
//! The solver factors the group order, solves one small discrete logarithm per
//! prime power with baby-step/giant-step, and recombines the residues with the
//! Chinese Remainder Theorem (the Pohlig–Hellman method).

pub mod big;
pub mod bsgs;
pub mod complete;
pub mod crt;
pub mod exponent;
pub mod factor;
pub mod generator;
pub mod group;
pub mod hexcode;
pub mod key;
pub mod modular;
pub mod numbers;
pub mod pohlig;

pub use bsgs::{baby_step_giant_step, isqrt_ceil};
pub use crt::{chinese_remainder_theorem, mod_inverse_big};
pub use factor::factor_order;
pub use key::{crack_dh, dh_exchange, dh_secret, DhCrackError, DhKey, GENERATOR, MODULUS};
pub use pohlig::{int_pow, pohlig_hellman};
pub use modular::{mod_inverse, mod_mul, mod_pow, MAX_MODULUS};
