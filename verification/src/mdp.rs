//! The capability interface of a tabular Markov decision process: state
//! and action counts, the discount factor, and point queries for rewards
//! and transition probabilities.  Algorithms written against this trait
//! work with any conforming model, dense or otherwise.

use vstd::prelude::*;

verus! {

/// Read-only contract of a tabular Markov decision process.  All numeric
/// values are carried as the bit patterns of single-precision floats.
///
/// `inv` is the implementation's well-formedness condition; the indexed
/// queries demand it together with in-bounds indices, and in exchange
/// promise the exact table entry and freedom from panics.
pub trait MDP {
    /// Well-formedness of the model, established at construction.
    spec fn inv(&self) -> bool;

    /// Declared number of states; valid state indices are below it.
    spec fn spec_nb_states(&self) -> int;

    /// Declared number of actions; valid action indices are below it.
    spec fn spec_nb_actions(&self) -> int;

    /// The stored discount factor, as a bit pattern.
    spec fn spec_discount(&self) -> u32;

    /// The stored reward entry for `(s1, a, s2)`, as a bit pattern.
    spec fn spec_reward(&self, s1: int, a: int, s2: int) -> u32;

    /// The stored transition-probability entry for `(s1, a, s2)`, as a
    /// bit pattern.
    spec fn spec_transition(&self, s1: int, a: int, s2: int) -> u32;

    /// Total number of distinct states.
    fn get_nb_states(&self) -> (r: usize)
        ensures
            r == self.spec_nb_states(),
    ;

    /// Total number of distinct actions.
    fn get_nb_actions(&self) -> (r: usize)
        ensures
            r == self.spec_nb_actions(),
    ;

    /// The discount factor, returned verbatim as stored.
    fn get_discount_factor(&self) -> (r: u32)
        ensures
            r == self.spec_discount(),
    ;

    /// Immediate reward for taking action `a` in state `s1` and landing
    /// in state `s2`.
    fn get_reward(&self, s1: usize, a: usize, s2: usize) -> (r: u32)
        requires
            self.inv(),
            s1 < self.spec_nb_states(),
            a < self.spec_nb_actions(),
            s2 < self.spec_nb_states(),
        ensures
            r == self.spec_reward(s1 as int, a as int, s2 as int),
    ;

    /// Probability mass of landing in `s2` given `(s1, a)`.
    fn get_transition_probabilitiy(&self, s1: usize, a: usize, s2: usize) -> (r: u32)
        requires
            self.inv(),
            s1 < self.spec_nb_states(),
            a < self.spec_nb_actions(),
            s2 < self.spec_nb_states(),
        ensures
            r == self.spec_transition(s1 as int, a as int, s2 as int),
    ;
}

} // verus!
