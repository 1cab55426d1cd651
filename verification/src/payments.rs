//! What a payment run yields before any floating point: the terms of the
//! normalization factor, and the two mechanisms of every ordered pair of agents.

use crate::combinatorics::{
    factorial, lemma_factorial_positive, lemma_ratio_at_the_ends, ratio_of_factorials,
};
use crate::error::DMIError;
use crate::matrix::{Matrix, Table};
use crate::mechanism::{checked_mechanism, is_category, pair_in_scope, paired_len};
use vstd::prelude::*;

verus! {

/// The normalization factor as its three integer terms. Their product, taken
/// in floating point, is what the running sums are divided by.
#[derive(Debug, Clone, Copy, PartialEq, Eq, Structural)]
pub struct NormFactor {
    /// `(agent_n - 1) * (choice_n!)^2`.
    pub base: usize,
    /// The ways to choose `choice_n` of the tasks of the first half.
    pub first_half: usize,
    /// The ways to choose `choice_n` of the tasks of the second half.
    pub second_half: usize,
}

/// The two mechanisms of one ordered pair of agents, one for each half of the
/// tasks. The product of their determinants, without its sign, is the pair's
/// mutual information.
pub struct PairMechanisms {
    /// The mechanism on the first half of the tasks.
    pub first_half: Matrix,
    /// The mechanism on the second half of the tasks.
    pub second_half: Matrix,
}

/// What a [`PairMechanisms`] holds.
pub struct PairTables {
    /// The mechanism on the first half of the tasks.
    pub first_half: Table,
    /// The mechanism on the second half of the tasks.
    pub second_half: Table,
}

impl View for PairMechanisms {
    type V = PairTables;

    open spec fn view(&self) -> PairTables {
        PairTables { first_half: self.first_half@, second_half: self.second_half@ }
    }
}

/// The outcome with the pair replaced by what it holds.
pub open spec fn pair_outcome(r: Result<PairMechanisms, DMIError>) -> Result<PairTables, DMIError> {
    match r {
        Ok(pair) => Ok(pair@),
        Err(e) => Err(e),
    }
}

/// All that the payments are computed from.
///
/// `runs` has one run for each agent, in order, and the run of agent `i` has
/// one entry for each other agent `j`, in order. A payment is due for each
/// entry: within a run, the sum so far is increased by the entry's mutual
/// information and then divided by the normalization factor, and the outcome
/// is both the payment and the sum that the next entry starts from.
pub struct PaymentPlan {
    /// The terms of the normalization factor.
    pub norm: NormFactor,
    /// For each agent, the mechanisms with each other agent.
    pub runs: Vec<Vec<PairMechanisms>>,
}

/// What a [`PaymentPlan`] holds.
pub struct PlanTables {
    /// The terms of the normalization factor.
    pub norm: NormFactor,
    /// For each agent, the mechanisms with each other agent.
    pub runs: Seq<Seq<PairTables>>,
}

impl View for PaymentPlan {
    type V = PlanTables;

    open spec fn view(&self) -> PlanTables {
        PlanTables {
            norm: self.norm,
            runs: Seq::new(
                self.runs@.len(),
                |i: int| Seq::new(self.runs@[i]@.len(), |s: int| self.runs@[i]@[s]@),
            ),
        }
    }
}

/// The outcome with the plan replaced by what it holds.
pub open spec fn plan_outcome(r: Result<PaymentPlan, DMIError>) -> Result<PlanTables, DMIError> {
    match r {
        Ok(plan) => Ok(plan@),
        Err(e) => Err(e),
    }
}

/// The terms of the normalization factor for `agents` agents, `c` categories
/// and halves of `tasks1` and `tasks2` tasks, or the error of the first step
/// that does not fit in `usize`.
pub open spec fn norm_factor(agents: nat, c: nat, tasks1: nat, tasks2: nat) -> Result<
    NormFactor,
    DMIError,
> {
    if agents == 0 {
        Err(DMIError::TooFewAgentsForPaymentCalc)
    } else if factorial(c) > usize::MAX {
        Err(DMIError::PaymentFactorialCalc)
    } else if factorial(c) * factorial(c) > usize::MAX {
        Err(DMIError::Exponentiate)
    } else if (agents - 1) * (factorial(c) * factorial(c)) > usize::MAX {
        Err(DMIError::Arithmetic)
    } else {
        match ratio_of_factorials(tasks1, c) {
            Err(e) => Err(e),
            Ok(first_half) => match ratio_of_factorials(tasks2, c) {
                Err(e) => Err(e),
                Ok(second_half) => Ok(
                    NormFactor {
                        base: ((agents - 1) * (factorial(c) * factorial(c))) as usize,
                        first_half,
                        second_half,
                    },
                ),
            },
        }
    }
}

/// The two mechanisms of a pair of agents that answered `a1` and `b1` on the
/// first half and `a2` and `b2` on the second. The error of the first half's
/// mechanism, or else of the second half's, is handed on as it is.
pub open spec fn pair_mechanisms(
    a1: Seq<usize>,
    b1: Seq<usize>,
    a2: Seq<usize>,
    b2: Seq<usize>,
    c: nat,
) -> Result<PairTables, DMIError> {
    match checked_mechanism(a1, b1, c) {
        Err(e) => Err(e),
        Ok(first_half) => match checked_mechanism(a2, b2, c) {
            Err(e) => Err(e),
            Ok(second_half) => Ok(PairTables { first_half, second_half }),
        },
    }
}

/// The agent that stands at place `s` in the run of agent `i`: the agents
/// before `i` keep their place, those after it move one place down.
pub open spec fn partner(i: int, s: int) -> int {
    if s < i {
        s
    } else {
        s + 1
    }
}

/// The mechanisms of agent `i` with agent `j`, the rows of `t1` and `t2` being
/// the agents' answers on the first and on the second half.
pub open spec fn pair_of(t1: Table, t2: Table, i: int, j: int, c: nat) -> Result<
    PairTables,
    DMIError,
> {
    pair_mechanisms(t1.rows[i], t1.rows[j], t2.rows[i], t2.rows[j], c)
}

/// Every pair of two different agents among the first `agents` has its
/// mechanisms.
pub open spec fn pairs_in_scope(agents: nat, c: nat, t1: Table, t2: Table) -> bool {
    forall|i: int, j: int|
        0 <= i < agents && 0 <= j < agents && i != j ==> (#[trigger] pair_of(
            t1,
            t2,
            i,
            j,
            c,
        )) is Ok
}

/// The runs of `agents` agents: for each agent the mechanisms with each other
/// agent, in order.
pub open spec fn runs_of(agents: nat, c: nat, t1: Table, t2: Table) -> Seq<Seq<PairTables>> {
    Seq::new(
        agents,
        |i: int|
            Seq::new((agents - 1) as nat, |s: int| pair_of(t1, t2, i, partner(i, s), c).unwrap()),
    )
}

/// What the payments of `agents` agents over `c` categories are computed
/// from, the rows of `t1` and `t2` being the agents' answers on the first and
/// on the second half of the tasks.
///
/// The normalization factor comes first, with its errors; then every ordered
/// pair of different agents, with `AnswerValsOutOfScope` where one of their
/// answers is not a category.
pub open spec fn plan_of_halves(agents: nat, c: nat, t1: Table, t2: Table) -> Result<
    PlanTables,
    DMIError,
> {
    match norm_factor(agents, c, t1.width, t2.width) {
        Err(e) => Err(e),
        Ok(norm) => if pairs_in_scope(agents, c, t1, t2) {
            Ok(PlanTables { norm, runs: runs_of(agents, c, t1, t2) })
        } else {
            Err(DMIError::AnswerValsOutOfScope)
        },
    }
}

/// What the payments for a table of answers, a row for each agent and a
/// column for each task, are computed from.
///
/// There must be at least twice as many tasks as categories, and more than one
/// agent. The tasks are split in the middle, the second half taking the odd
/// one.
pub open spec fn payment_plan(answers: Table, c: nat) -> Result<PlanTables, DMIError> {
    let half = answers.width as int / 2;
    if answers.width < 2 * c {
        Err(DMIError::TooFewTasks)
    } else if answers.rows.len() <= 1 {
        Err(DMIError::TooFewAgents)
    } else {
        plan_of_halves(
            answers.rows.len(),
            c,
            answers.columns(0, half),
            answers.columns(half, answers.width as int),
        )
    }
}

/// Every answer of the table is one of the `c` categories.
pub open spec fn answers_valid(answers: Table, c: nat) -> bool {
    forall|i: int, k: int|
        0 <= i < answers.rows.len() && 0 <= k < answers.width ==> is_category(
            #[trigger] answers.rows[i][k],
            c,
        )
}

/// The pair with its two halves exchanged.
pub open spec fn exchanged(r: Result<PairTables, DMIError>) -> Result<PairTables, DMIError> {
    match r {
        Ok(pair) => Ok(PairTables { first_half: pair.second_half, second_half: pair.first_half }),
        Err(e) => Err(e),
    }
}

/// Exchanging the two halves of the tasks, for both agents, exchanges the two
/// mechanisms and changes nothing else; an error stays the same error. The
/// product of the two determinants is therefore taken of the same two tables.
pub proof fn lemma_exchanged_halves(
    a1: Seq<usize>,
    b1: Seq<usize>,
    a2: Seq<usize>,
    b2: Seq<usize>,
    c: nat,
)
    ensures
        pair_mechanisms(a2, b2, a1, b1, c) == exchanged(pair_mechanisms(a1, b1, a2, b2, c)),
{
}

/// With two agents or more, every pair of agents has its mechanisms on both
/// halves exactly where every answer of the table is a category.
pub proof fn lemma_pairs_in_scope_is_validity(answers: Table, c: nat)
    requires
        answers.rectangular(),
        answers.rows.len() >= 2,
    ensures
        pairs_in_scope(
            answers.rows.len(),
            c,
            answers.columns(0, answers.width as int / 2),
            answers.columns(answers.width as int / 2, answers.width as int),
        ) <==> answers_valid(answers, c),
{
    let n = answers.rows.len();
    let half = answers.width as int / 2;
    let t1 = answers.columns(0, half);
    let t2 = answers.columns(half, answers.width as int);
    if answers_valid(answers, c) {
        assert forall|i: int, j: int| 0 <= i < n && 0 <= j < n && i != j implies (
        #[trigger] pair_of(t1, t2, i, j, c)) is Ok by {
            let (a1, b1) = (t1.rows[i], t1.rows[j]);
            let (a2, b2) = (t2.rows[i], t2.rows[j]);
            assert forall|k: int| 0 <= k < paired_len(a1, b1) implies #[trigger] pair_in_scope(
                a1,
                b1,
                c,
                k,
            ) by {}
            assert forall|k: int| 0 <= k < paired_len(a2, b2) implies #[trigger] pair_in_scope(
                a2,
                b2,
                c,
                k,
            ) by {}
        }
    }
    if pairs_in_scope(n, c, t1, t2) {
        assert forall|i: int, k: int| 0 <= i < n && 0 <= k < answers.width implies is_category(
            #[trigger] answers.rows[i][k],
            c,
        ) by {
            let j: int = if i == 0 {
                1
            } else {
                0
            };
            assert(pair_of(t1, t2, i, j, c) is Ok);
            if k < half {
                assert(pair_in_scope(t1.rows[i], t1.rows[j], c, k));
            } else {
                assert(pair_in_scope(t2.rows[i], t2.rows[j], c, k - half));
            }
        }
    }
}

/// A plan is made exactly where there are at least twice as many tasks as
/// categories and at least two agents, the normalization factor fits, and
/// every answer is a category. It then has a run for each agent, and each run
/// an entry for each other agent: `agents * (agents - 1)` entries in all.
pub proof fn lemma_plan_is_made(answers: Table, c: nat)
    requires
        answers.rectangular(),
    ensures
        payment_plan(answers, c) is Ok <==> {
            &&& answers.width >= 2 * c
            &&& answers.rows.len() >= 2
            &&& norm_factor(
                answers.rows.len(),
                c,
                (answers.width / 2) as nat,
                (answers.width - answers.width / 2) as nat,
            ) is Ok
            &&& answers_valid(answers, c)
        },
        payment_plan(answers, c) matches Ok(plan) ==> {
            &&& plan.runs.len() == answers.rows.len()
            &&& forall|i: int|
                0 <= i < plan.runs.len() ==> (#[trigger] plan.runs[i]).len() == answers.rows.len()
                    - 1
        },
{
    if answers.rows.len() >= 2 {
        lemma_pairs_in_scope_is_validity(answers, c);
    }
}

/// One task short of twice the categories is too few, whatever the answers.
pub proof fn lemma_one_task_short(answers: Table, c: nat)
    requires
        answers.width + 1 == 2 * c,
    ensures
        payment_plan(answers, c) == Err::<PlanTables, DMIError>(DMIError::TooFewTasks),
{
}

/// Twice as many tasks as categories are enough: with two agents or more,
/// answers that are all categories, and `(agents - 1) * (c!)^2` within `usize`,
/// a plan is made.
pub proof fn lemma_twice_the_categories_suffice(answers: Table, c: nat)
    requires
        answers.rectangular(),
        answers.width == 2 * c,
        answers.rows.len() >= 2,
        answers_valid(answers, c),
        (answers.rows.len() - 1) * (factorial(c) * factorial(c)) <= usize::MAX,
    ensures
        payment_plan(answers, c) is Ok,
{
    let n = answers.rows.len();
    let f = factorial(c);
    lemma_factorial_positive(c);
    assert(f <= f * f <= (n - 1) * (f * f)) by (nonlinear_arith)
        requires
            f >= 1,
            n >= 2,
    ;
    lemma_ratio_at_the_ends(c);
    lemma_plan_is_made(answers, c);
}

/// The plan depends on the answers and the number of categories alone: two
/// outcomes that each meet the contract of a run, on tables that hold the
/// same, hold the same.
pub proof fn lemma_same_answers_same_plan(
    first: Table,
    second: Table,
    c: nat,
    r1: Result<PaymentPlan, DMIError>,
    r2: Result<PaymentPlan, DMIError>,
)
    requires
        first == second,
        plan_outcome(r1) == payment_plan(first, c),
        plan_outcome(r2) == payment_plan(second, c),
    ensures
        plan_outcome(r1) == plan_outcome(r2),
{
}

} // verus!
