//! The fixed demonstration group: the modulus `2^64 - 59` with the generator
//! five.
//!
//! That five has the full order `p - 1` is shown from the factorisation
//!
//! ```text
//! p - 1 = 2^2 * 11 * 137 * 547 * 5594472617641
//! ```
//!
//! and from the powers of five to `(p - 1) / q` for each prime `q` in it. The
//! largest of these primes is shown to be prime in the same way, with the
//! witness 13 and
//!
//! ```text
//! 5594472617640 = 2^3 * 3 * 5 * 1427 * 2131 * 15331
//! ```
//!
//! The smaller primes are shown to be prime by trial division. Each power is
//! followed through binary exponentiation one squaring at a time, as a list
//! of steps on given numbers.

pub mod large_prime;
pub mod order;
pub mod powers;
pub mod small_primes;
