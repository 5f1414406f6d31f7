//! A validated, immutable tabular Markov decision process.
//!
//! The model stores transition probabilities, rewards and the discount
//! factor as the bit patterns of single-precision values, so that the
//! structural and numerical validation performed at construction time can
//! be stated and proved exactly.

pub mod mdp;
pub mod simple_mdp;
pub mod tolerance;
