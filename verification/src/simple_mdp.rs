//! The dense, validated implementation of the model interface.
//!
//! Construction validates exhaustively — every level of both tables has
//! the declared length and every probability row was accumulated to a sum
//! within four ULPs of 1.0 — and freezes the tables, so that every later
//! query is a plain lookup that needs no defensive check.

use vstd::prelude::*;
use crate::mdp::MDP;
use crate::tolerance::sum_is_normalized;
use crate::tolerance::ulps_from_one;
use crate::tolerance::within_four_ulps_of_one;

verus! {

/// Which of the two tables a dimension error refers to.
#[derive(Clone, Copy, Debug, PartialEq, Eq, Structural)]
pub enum TableKind {
    Transitions,
    Reward,
}

/// Which nesting level of a table had the wrong length: the outer state
/// level, the action level, or the inner destination-state level.
#[derive(Clone, Copy, Debug, PartialEq, Eq, Structural)]
pub enum DimKind {
    States,
    Actions,
    NextStates,
}

/// Why a construction attempt was refused.
#[derive(Clone, Copy, Debug, PartialEq, Eq, Structural)]
pub enum MdpError {
    /// A table level held `actual` entries where `expected` were declared.
    DimensionMismatch { table: TableKind, dim: DimKind, expected: usize, actual: usize },
    /// The probabilities for `(s1, a)` accumulate to `sum_bits`, which is
    /// not within four ULPs of 1.0.
    NotNormalized { s1: usize, a: usize, sum_bits: u32 },
}

/// The mathematical contents of a two-level table.
pub open spec fn grid_view(t: Vec<Vec<u32>>) -> Seq<Seq<u32>> {
    t@.map_values(|row: Vec<u32>| row@)
}

/// The mathematical contents of a three-level table.
pub open spec fn cube_view(t: Vec<Vec<Vec<u32>>>) -> Seq<Seq<Seq<u32>>> {
    t@.map_values(|g: Vec<Vec<u32>>| grid_view(g))
}

/// Every level of a three-level table has its declared length.
pub open spec fn dims_ok(t: Seq<Seq<Seq<u32>>>, outer: int, middle: int, inner: int) -> bool {
    &&& t.len() == outer
    &&& forall|i: int| 0 <= i < t.len() ==> (#[trigger] t[i]).len() == middle
    &&& forall|i: int, j: int|
        0 <= i < t.len() && 0 <= j < t[i].len() ==> (#[trigger] t[i][j]).len() == inner
}

/// Every entry of a grid of row sums passes the normalization test.
pub open spec fn sums_normalized(sums: Seq<Seq<u32>>) -> bool {
    forall|i: int, j: int|
        0 <= i < sums.len() && 0 <= j < sums[i].len() ==> sum_is_normalized(
            #[trigger] sums[i][j],
        )
}

/// A grid has exactly one entry for each row of a three-level table.
pub open spec fn grid_matches_cube(sums: Seq<Seq<u32>>, t: Seq<Seq<Seq<u32>>>) -> bool {
    &&& sums.len() == t.len()
    &&& forall|i: int| 0 <= i < t.len() ==> (#[trigger] sums[i]).len() == t[i].len()
}

/// First fault in the probability rows of one state, scanning actions
/// upward from `a`: a wrong inner length is reported before a sum off 1.0,
/// and earlier actions before later ones.
pub open spec fn trans_rows_fault(
    nb_states: usize,
    rows: Seq<Seq<u32>>,
    sums: Seq<u32>,
    s1: usize,
    a: int,
) -> Option<MdpError>
    decreases rows.len() - a,
{
    if a < 0 || a >= rows.len() {
        None
    } else if rows[a].len() != nb_states {
        Some(
            MdpError::DimensionMismatch {
                table: TableKind::Transitions,
                dim: DimKind::NextStates,
                expected: nb_states,
                actual: rows[a].len() as usize,
            },
        )
    } else if !sum_is_normalized(sums[a]) {
        Some(MdpError::NotNormalized { s1, a: a as usize, sum_bits: sums[a] })
    } else {
        trans_rows_fault(nb_states, rows, sums, s1, a + 1)
    }
}

/// First fault in the transition table, scanning states upward from `s1`.
pub open spec fn trans_fault_from(
    nb_states: usize,
    nb_actions: usize,
    t: Seq<Seq<Seq<u32>>>,
    sums: Seq<Seq<u32>>,
    s1: int,
) -> Option<MdpError>
    decreases t.len() - s1,
{
    if s1 < 0 || s1 >= t.len() {
        None
    } else if t[s1].len() != nb_actions {
        Some(
            MdpError::DimensionMismatch {
                table: TableKind::Transitions,
                dim: DimKind::Actions,
                expected: nb_actions,
                actual: t[s1].len() as usize,
            },
        )
    } else {
        match trans_rows_fault(nb_states, t[s1], sums[s1], s1 as usize, 0) {
            Some(e) => Some(e),
            None => trans_fault_from(nb_states, nb_actions, t, sums, s1 + 1),
        }
    }
}

/// First fault in the whole transition table, in checking order.
pub open spec fn trans_fault(
    nb_states: usize,
    nb_actions: usize,
    t: Seq<Seq<Seq<u32>>>,
    sums: Seq<Seq<u32>>,
) -> Option<MdpError> {
    if t.len() != nb_states {
        Some(
            MdpError::DimensionMismatch {
                table: TableKind::Transitions,
                dim: DimKind::States,
                expected: nb_states,
                actual: t.len() as usize,
            },
        )
    } else {
        trans_fault_from(nb_states, nb_actions, t, sums, 0)
    }
}

/// First fault in the reward rows of one state, scanning actions upward
/// from `a`.  Rewards are unconstrained reals, so only lengths are checked.
pub open spec fn reward_rows_fault(nb_states: usize, rows: Seq<Seq<u32>>, a: int) -> Option<
    MdpError,
>
    decreases rows.len() - a,
{
    if a < 0 || a >= rows.len() {
        None
    } else if rows[a].len() != nb_states {
        Some(
            MdpError::DimensionMismatch {
                table: TableKind::Reward,
                dim: DimKind::NextStates,
                expected: nb_states,
                actual: rows[a].len() as usize,
            },
        )
    } else {
        reward_rows_fault(nb_states, rows, a + 1)
    }
}

/// First fault in the reward table, scanning states upward from `s1`.
pub open spec fn reward_fault_from(
    nb_states: usize,
    nb_actions: usize,
    r: Seq<Seq<Seq<u32>>>,
    s1: int,
) -> Option<MdpError>
    decreases r.len() - s1,
{
    if s1 < 0 || s1 >= r.len() {
        None
    } else if r[s1].len() != nb_actions {
        Some(
            MdpError::DimensionMismatch {
                table: TableKind::Reward,
                dim: DimKind::Actions,
                expected: nb_actions,
                actual: r[s1].len() as usize,
            },
        )
    } else {
        match reward_rows_fault(nb_states, r[s1], 0) {
            Some(e) => Some(e),
            None => reward_fault_from(nb_states, nb_actions, r, s1 + 1),
        }
    }
}

/// First fault in the whole reward table, in checking order.
pub open spec fn reward_fault(
    nb_states: usize,
    nb_actions: usize,
    r: Seq<Seq<Seq<u32>>>,
) -> Option<MdpError> {
    if r.len() != nb_states {
        Some(
            MdpError::DimensionMismatch {
                table: TableKind::Reward,
                dim: DimKind::States,
                expected: nb_states,
                actual: r.len() as usize,
            },
        )
    } else {
        reward_fault_from(nb_states, nb_actions, r, 0)
    }
}

/// The first fault construction finds, in checking order: the transition
/// table in full — each state's action count, then for each `(s1, a)` the
/// row length and the row sum — and then the reward table's three levels.
pub open spec fn construction_fault(
    nb_states: usize,
    nb_actions: usize,
    t: Seq<Seq<Seq<u32>>>,
    sums: Seq<Seq<u32>>,
    r: Seq<Seq<Seq<u32>>>,
) -> Option<MdpError> {
    match trans_fault(nb_states, nb_actions, t, sums) {
        Some(e) => Some(e),
        None => reward_fault(nb_states, nb_actions, r),
    }
}

/// A validated, immutable, densely stored tabular Markov decision
/// process.  All float-valued entries are carried as single-precision bit
/// patterns.  `new` is the one intended constructor: it alone establishes
/// the shape guarantee `wf`, which every indexed query demands, so a
/// model assembled any other way cannot be queried in verified code
/// without a proof of `wf`.
pub struct SimpleMDP {
    pub states: usize,
    pub actions: usize,
    pub transitions: Vec<Vec<Vec<u32>>>,
    pub reward: Vec<Vec<Vec<u32>>>,
    pub discount: u32,
}

impl SimpleMDP {
    /// Shape guarantee established at construction: both tables are
    /// indexed `[s1][a][s2]` with exactly `states` outer entries,
    /// `actions` middle entries, and `states` inner entries.
    pub open spec fn wf(&self) -> bool {
        &&& dims_ok(
            cube_view(self.transitions),
            self.states as int,
            self.actions as int,
            self.states as int,
        )
        &&& dims_ok(
            cube_view(self.reward),
            self.states as int,
            self.actions as int,
            self.states as int,
        )
    }
}

/// What a successful construction promises: the declared counts and the
/// discount factor stored verbatim, both tables equal entry for entry to
/// the supplied ones, and the shape guarantee.
pub open spec fn constructed(
    m: SimpleMDP,
    nb_states: usize,
    nb_actions: usize,
    t: Seq<Seq<Seq<u32>>>,
    r: Seq<Seq<Seq<u32>>>,
    discount: u32,
) -> bool {
    &&& m.states == nb_states
    &&& m.actions == nb_actions
    &&& m.discount == discount
    &&& cube_view(m.transitions) == t
    &&& cube_view(m.reward) == r
    &&& m.wf()
}

impl SimpleMDP {
    /// Validates the supplied tables exhaustively and freezes them into a
    /// model, or reports the first fault found, in checking order.
    ///
    /// Floating-point accumulation cannot run inside verified code, so
    /// the caller hands in `row_sums`: for each `(s1, a)` the bit pattern
    /// of the left-to-right accumulated sum of the probability row
    /// `transitions[s1][a]`, one entry per row actually supplied.
    #[verifier::loop_isolation(false)]
    pub fn new(
        nb_states: usize,
        nb_actions: usize,
        transitions: Vec<Vec<Vec<u32>>>,
        reward: Vec<Vec<Vec<u32>>>,
        discount: u32,
        row_sums: Vec<Vec<u32>>,
    ) -> (result: Result<SimpleMDP, MdpError>)
        requires
            grid_matches_cube(grid_view(row_sums), cube_view(transitions)),
        ensures
            (match result {
                Ok(m) => constructed(
                    m,
                    nb_states,
                    nb_actions,
                    cube_view(transitions),
                    cube_view(reward),
                    discount,
                ) && construction_fault(
                    nb_states,
                    nb_actions,
                    cube_view(transitions),
                    grid_view(row_sums),
                    cube_view(reward),
                ) is None,
                Err(e) => construction_fault(
                    nb_states,
                    nb_actions,
                    cube_view(transitions),
                    grid_view(row_sums),
                    cube_view(reward),
                ) == Some(e),
            }),
    {
        let ghost t = cube_view(transitions);
        let ghost sums = grid_view(row_sums);
        let ghost r = cube_view(reward);

        if transitions.len() != nb_states {
            return Err(
                MdpError::DimensionMismatch {
                    table: TableKind::Transitions,
                    dim: DimKind::States,
                    expected: nb_states,
                    actual: transitions.len(),
                },
            );
        }
        let mut s1: usize = 0;
        while s1 < transitions.len()
            invariant
                s1 <= transitions.len(),
                trans_fault_from(nb_states, nb_actions, t, sums, 0) == trans_fault_from(
                    nb_states,
                    nb_actions,
                    t,
                    sums,
                    s1 as int,
                ),
            decreases transitions.len() - s1,
        {
            assert(t[s1 as int] == grid_view(transitions@[s1 as int]));
            assert(sums[s1 as int] == row_sums@[s1 as int]@);
            if transitions[s1].len() != nb_actions {
                return Err(
                    MdpError::DimensionMismatch {
                        table: TableKind::Transitions,
                        dim: DimKind::Actions,
                        expected: nb_actions,
                        actual: transitions[s1].len(),
                    },
                );
            }
            let mut a: usize = 0;
            while a < transitions[s1].len()
                invariant
                    s1 < transitions.len(),
                    a <= transitions@[s1 as int]@.len(),
                    trans_rows_fault(nb_states, t[s1 as int], sums[s1 as int], s1, 0)
                        == trans_rows_fault(nb_states, t[s1 as int], sums[s1 as int], s1, a as int),
                decreases transitions@[s1 as int]@.len() - a,
            {
                assert(t[s1 as int][a as int] == transitions@[s1 as int]@[a as int]@);
                if transitions[s1][a].len() != nb_states {
                    return Err(
                        MdpError::DimensionMismatch {
                            table: TableKind::Transitions,
                            dim: DimKind::NextStates,
                            expected: nb_states,
                            actual: transitions[s1][a].len(),
                        },
                    );
                }
                let sum_bits: u32 = row_sums[s1][a];
                if !within_four_ulps_of_one(sum_bits) {
                    return Err(MdpError::NotNormalized { s1, a, sum_bits });
                }
                a = a + 1;
            }
            s1 = s1 + 1;
        }

        if reward.len() != nb_states {
            return Err(
                MdpError::DimensionMismatch {
                    table: TableKind::Reward,
                    dim: DimKind::States,
                    expected: nb_states,
                    actual: reward.len(),
                },
            );
        }
        let mut s1: usize = 0;
        while s1 < reward.len()
            invariant
                s1 <= reward.len(),
                reward_fault_from(nb_states, nb_actions, r, 0) == reward_fault_from(
                    nb_states,
                    nb_actions,
                    r,
                    s1 as int,
                ),
            decreases reward.len() - s1,
        {
            assert(r[s1 as int] == grid_view(reward@[s1 as int]));
            if reward[s1].len() != nb_actions {
                return Err(
                    MdpError::DimensionMismatch {
                        table: TableKind::Reward,
                        dim: DimKind::Actions,
                        expected: nb_actions,
                        actual: reward[s1].len(),
                    },
                );
            }
            let mut a: usize = 0;
            while a < reward[s1].len()
                invariant
                    s1 < reward.len(),
                    a <= reward@[s1 as int]@.len(),
                    reward_rows_fault(nb_states, r[s1 as int], 0) == reward_rows_fault(
                        nb_states,
                        r[s1 as int],
                        a as int,
                    ),
                decreases reward@[s1 as int]@.len() - a,
            {
                assert(r[s1 as int][a as int] == reward@[s1 as int]@[a as int]@);
                if reward[s1][a].len() != nb_states {
                    return Err(
                        MdpError::DimensionMismatch {
                            table: TableKind::Reward,
                            dim: DimKind::NextStates,
                            expected: nb_states,
                            actual: reward[s1][a].len(),
                        },
                    );
                }
                a = a + 1;
            }
            s1 = s1 + 1;
        }

        proof {
            lemma_accepted_iff_valid(nb_states, nb_actions, t, sums, r);
        }
        Ok(
            SimpleMDP {
                states: nb_states,
                actions: nb_actions,
                transitions,
                reward,
                discount,
            },
        )
    }
}

impl MDP for SimpleMDP {
    open spec fn inv(&self) -> bool {
        self.wf()
    }

    open spec fn spec_nb_states(&self) -> int {
        self.states as int
    }

    open spec fn spec_nb_actions(&self) -> int {
        self.actions as int
    }

    open spec fn spec_discount(&self) -> u32 {
        self.discount
    }

    open spec fn spec_reward(&self, s1: int, a: int, s2: int) -> u32 {
        cube_view(self.reward)[s1][a][s2]
    }

    open spec fn spec_transition(&self, s1: int, a: int, s2: int) -> u32 {
        cube_view(self.transitions)[s1][a][s2]
    }

    fn get_nb_states(&self) -> (r: usize) {
        self.states
    }

    fn get_nb_actions(&self) -> (r: usize) {
        self.actions
    }

    fn get_discount_factor(&self) -> (r: u32) {
        self.discount
    }

    fn get_reward(&self, s1: usize, a: usize, s2: usize) -> (r: u32) {
        proof {
            assert(cube_view(self.reward)[s1 as int] == grid_view(self.reward@[s1 as int]));
            assert(cube_view(self.reward)[s1 as int][a as int] == self.reward@[s1 as int]@[a
                as int]@);
        }
        self.reward[s1][a][s2]
    }

    fn get_transition_probabilitiy(&self, s1: usize, a: usize, s2: usize) -> (r: u32) {
        proof {
            assert(cube_view(self.transitions)[s1 as int] == grid_view(
                self.transitions@[s1 as int],
            ));
            assert(cube_view(self.transitions)[s1 as int][a as int] == self.transitions@[s1
                as int]@[a as int]@);
        }
        self.transitions[s1][a][s2]
    }
}

/// Copy fidelity: a model accepted by `new` answers every in-bounds point
/// query with exactly the entry supplied for it at construction, and
/// reports the declared counts and discount factor verbatim.
pub proof fn lemma_round_trip(
    m: SimpleMDP,
    nb_states: usize,
    nb_actions: usize,
    t: Seq<Seq<Seq<u32>>>,
    r: Seq<Seq<Seq<u32>>>,
    discount: u32,
    s1: int,
    a: int,
    s2: int,
)
    requires
        constructed(m, nb_states, nb_actions, t, r, discount),
        0 <= s1 < nb_states,
        0 <= a < nb_actions,
        0 <= s2 < nb_states,
    ensures
        m.spec_transition(s1, a, s2) == t[s1][a][s2],
        m.spec_reward(s1, a, s2) == r[s1][a][s2],
        m.spec_nb_states() == nb_states,
        m.spec_nb_actions() == nb_actions,
        m.spec_discount() == discount,
{
}

/// Normalization invariant: every accepted construction had each of its
/// accumulated probability-row sums within four ULPs of 1.0.
pub proof fn lemma_accepted_rows_normalized(
    nb_states: usize,
    nb_actions: usize,
    t: Seq<Seq<Seq<u32>>>,
    sums: Seq<Seq<u32>>,
    r: Seq<Seq<Seq<u32>>>,
)
    requires
        grid_matches_cube(sums, t),
        construction_fault(nb_states, nb_actions, t, sums, r) is None,
    ensures
        forall|i: int, j: int|
            0 <= i < sums.len() && 0 <= j < sums[i].len() ==> ulps_from_one(
                #[trigger] sums[i][j],
            ) <= 4,
{
    lemma_accepted_iff_valid(nb_states, nb_actions, t, sums, r);
}

/// Faults in the probability rows of one state, from `a` on, are absent
/// exactly when every remaining row has the declared length and a sum
/// within tolerance.
proof fn lemma_trans_rows_fault_none(
    nb_states: usize,
    rows: Seq<Seq<u32>>,
    sums: Seq<u32>,
    s1: usize,
    a: int,
)
    requires
        0 <= a <= rows.len(),
    ensures
        trans_rows_fault(nb_states, rows, sums, s1, a) is None <==> (forall|j: int|
            a <= j < rows.len() ==> (#[trigger] rows[j]).len() == nb_states && sum_is_normalized(
                sums[j],
            )),
    decreases rows.len() - a,
{
    if a < rows.len() {
        lemma_trans_rows_fault_none(nb_states, rows, sums, s1, a + 1);
        if trans_rows_fault(nb_states, rows, sums, s1, a) is None {
            assert(rows[a].len() == nb_states);
            assert(sum_is_normalized(sums[a]));
            assert(trans_rows_fault(nb_states, rows, sums, s1, a + 1) is None);
            assert forall|j: int|
                a <= j < rows.len() implies (#[trigger] rows[j]).len() == nb_states
                && sum_is_normalized(sums[j]) by {
                if j != a {
                    assert(a + 1 <= j < rows.len());
                }
            }
        }
    }
}

/// Faults in the reward rows of one state, from `a` on, are absent
/// exactly when every remaining row has the declared length.
proof fn lemma_reward_rows_fault_none(nb_states: usize, rows: Seq<Seq<u32>>, a: int)
    requires
        0 <= a <= rows.len(),
    ensures
        reward_rows_fault(nb_states, rows, a) is None <==> (forall|j: int|
            a <= j < rows.len() ==> (#[trigger] rows[j]).len() == nb_states),
    decreases rows.len() - a,
{
    if a < rows.len() {
        lemma_reward_rows_fault_none(nb_states, rows, a + 1);
    }
}

/// Transition faults from `s1` on are absent exactly when every remaining
/// state has the declared action count and fault-free rows.
proof fn lemma_trans_fault_from_none(
    nb_states: usize,
    nb_actions: usize,
    t: Seq<Seq<Seq<u32>>>,
    sums: Seq<Seq<u32>>,
    s1: int,
)
    requires
        0 <= s1 <= t.len(),
    ensures
        trans_fault_from(nb_states, nb_actions, t, sums, s1) is None <==> (forall|i: int|
            s1 <= i < t.len() ==> (#[trigger] t[i]).len() == nb_actions && trans_rows_fault(
                nb_states,
                t[i],
                sums[i],
                i as usize,
                0,
            ) is None),
    decreases t.len() - s1,
{
    if s1 < t.len() {
        lemma_trans_fault_from_none(nb_states, nb_actions, t, sums, s1 + 1);
    }
}

/// Reward faults from `s1` on are absent exactly when every remaining
/// state has the declared action count and rows of the declared length.
proof fn lemma_reward_fault_from_none(
    nb_states: usize,
    nb_actions: usize,
    r: Seq<Seq<Seq<u32>>>,
    s1: int,
)
    requires
        0 <= s1 <= r.len(),
    ensures
        reward_fault_from(nb_states, nb_actions, r, s1) is None <==> (forall|i: int|
            s1 <= i < r.len() ==> (#[trigger] r[i]).len() == nb_actions && reward_rows_fault(
                nb_states,
                r[i],
                0,
            ) is None),
    decreases r.len() - s1,
{
    if s1 < r.len() {
        lemma_reward_fault_from_none(nb_states, nb_actions, r, s1 + 1);
    }
}

/// The whole transition check passes exactly when the table has the
/// declared shape and every row sum passes the tolerance test.
pub proof fn lemma_trans_fault_characterization(
    nb_states: usize,
    nb_actions: usize,
    t: Seq<Seq<Seq<u32>>>,
    sums: Seq<Seq<u32>>,
)
    requires
        grid_matches_cube(sums, t),
    ensures
        trans_fault(nb_states, nb_actions, t, sums) is None <==> (dims_ok(
            t,
            nb_states as int,
            nb_actions as int,
            nb_states as int,
        ) && sums_normalized(sums)),
{
    if t.len() == nb_states {
        lemma_trans_fault_from_none(nb_states, nb_actions, t, sums, 0);
        if trans_fault_from(nb_states, nb_actions, t, sums, 0) is None {
            assert forall|i: int, j: int|
                0 <= i < t.len() && 0 <= j < t[i].len() implies (#[trigger] t[i][j]).len()
                == nb_states by {
                lemma_trans_rows_fault_none(nb_states, t[i], sums[i], i as usize, 0);
            }
            assert forall|i: int, j: int|
                0 <= i < sums.len() && 0 <= j < sums[i].len() implies sum_is_normalized(
                #[trigger] sums[i][j],
            ) by {
                lemma_trans_rows_fault_none(nb_states, t[i], sums[i], i as usize, 0);
                assert(sums[i].len() == t[i].len());
                assert(t[i][j].len() == nb_states);
            }
        }
        if dims_ok(t, nb_states as int, nb_actions as int, nb_states as int) && sums_normalized(
            sums,
        ) {
            assert forall|i: int|
                0 <= i < t.len() implies (#[trigger] t[i]).len() == nb_actions
                && trans_rows_fault(nb_states, t[i], sums[i], i as usize, 0) is None by {
                lemma_trans_rows_fault_none(nb_states, t[i], sums[i], i as usize, 0);
            }
        }
    }
}

/// The whole reward check passes exactly when the table has the declared
/// shape.
pub proof fn lemma_reward_fault_characterization(
    nb_states: usize,
    nb_actions: usize,
    r: Seq<Seq<Seq<u32>>>,
)
    ensures
        reward_fault(nb_states, nb_actions, r) is None <==> dims_ok(
            r,
            nb_states as int,
            nb_actions as int,
            nb_states as int,
        ),
{
    if r.len() == nb_states {
        lemma_reward_fault_from_none(nb_states, nb_actions, r, 0);
        if reward_fault_from(nb_states, nb_actions, r, 0) is None {
            assert forall|i: int, j: int|
                0 <= i < r.len() && 0 <= j < r[i].len() implies (#[trigger] r[i][j]).len()
                == nb_states by {
                lemma_reward_rows_fault_none(nb_states, r[i], 0);
            }
        }
        if dims_ok(r, nb_states as int, nb_actions as int, nb_states as int) {
            assert forall|i: int|
                0 <= i < r.len() implies (#[trigger] r[i]).len() == nb_actions
                && reward_rows_fault(nb_states, r[i], 0) is None by {
                lemma_reward_rows_fault_none(nb_states, r[i], 0);
            }
        }
    }
}

/// A construction attempt is accepted exactly when both tables have the
/// declared `(states, actions, states)` shape and every probability row
/// sum lies within four ULPs of 1.0.
pub proof fn lemma_accepted_iff_valid(
    nb_states: usize,
    nb_actions: usize,
    t: Seq<Seq<Seq<u32>>>,
    sums: Seq<Seq<u32>>,
    r: Seq<Seq<Seq<u32>>>,
)
    requires
        grid_matches_cube(sums, t),
    ensures
        construction_fault(nb_states, nb_actions, t, sums, r) is None <==> (dims_ok(
            t,
            nb_states as int,
            nb_actions as int,
            nb_states as int,
        ) && sums_normalized(sums) && dims_ok(
            r,
            nb_states as int,
            nb_actions as int,
            nb_states as int,
        )),
{
    lemma_trans_fault_characterization(nb_states, nb_actions, t, sums);
    lemma_reward_fault_characterization(nb_states, nb_actions, r);
}

} // verus!
