//! Differential evolution optimizer with self-adapting control parameters.
//!
//! Differential evolution is a global optimization algorithm that tries to
//! iteratively improve candidate solutions with regards to a user-defined
//! cost function. The population evaluates one candidate per call of
//! [`Population::eval`]; once a generation is evaluated in full it updates
//! every slot's personal best and breeds the next generation from them.
//!
//! All reals are held in fixed point, see [`fixed::ONE`], so that every step
//! is exact integer arithmetic with a proved contract. Randomness comes from
//! a [`Sampler`]; the xorshift generator of `rand` is one.

pub mod breeding;
pub mod donors;
pub mod fixed;
pub mod laws;
pub mod model;
pub mod population;
pub mod random;
pub mod settings;

pub use population::self_adaptive_de;
pub use population::PopIter;
pub use population::Population;
pub use random::Sampler;
pub use settings::Settings;
