//! The operations of the mechanism, gathered in one trait.

use crate::combinatorics::{
    checked_factorial, lemma_factorial_beyond_usize, lemma_factorial_monotone,
    lemma_factorial_product_bound, ratio_of_factorials, MAX_FACTORIAL_ARG,
};
use crate::error::DMIError;
use crate::matrix::Matrix;
use crate::mechanism::{
    checked_mechanism, co_occurrences, is_category, lemma_co_occurrences_bound, mechanism,
    pair_in_scope, paired_len, table_outcome,
};
use crate::payments::{
    norm_factor, pair_mechanisms, pair_of, pair_outcome, partner, payment_plan, plan_of_halves,
    plan_outcome, runs_of, NormFactor, PairMechanisms, PaymentPlan,
};
use vstd::prelude::*;

verus! {

/// The operations of the Determinant Mutual Information mechanism. None of
/// them reads any state: a type takes them all by an empty `impl`.
pub trait DMI {
    /// `n! / (m! * (n - m)!)`, each factorial and the denominator computed
    /// exactly in `usize`.
    fn calculate_factorials(n: &usize, m: &usize) -> (r: Result<usize, DMIError>)
        ensures
            r == ratio_of_factorials(*n as nat, *m as nat),
    {
        let factorial_n = checked_factorial(*n).ok_or(DMIError::FactorialCalc)?;
        let factorial_m = checked_factorial(*m).ok_or(DMIError::FactorialCalc)?;
        let n_minus_m = n.checked_sub(*m).ok_or(DMIError::NLessThanM)?;
        proof {
            lemma_factorial_monotone(n_minus_m as nat, *n as nat);
            lemma_factorial_product_bound(*m as nat, n_minus_m as nat);
        }
        let factorial_n_minus_m = checked_factorial(n_minus_m).ok_or(DMIError::FactorialCalc)?;
        let denominator = factorial_m.checked_mul(factorial_n_minus_m).ok_or(
            DMIError::FactorialMulCalc,
        )?;
        let ratio = factorial_n.checked_div(denominator).ok_or(DMIError::Arithmetic)?;
        Ok(ratio)
    }

    /// Whether `x` is one of the `c` categories.
    fn check_answers(x: &usize, c: &usize) -> (r: bool)
        ensures
            r == is_category(*x, *c as nat),
    {
        *x < *c
    }

    /// The mechanism of two answer lists over `c` categories.
    ///
    /// An answer without a partner, where one list is longer, is left out.
    /// Fails, with no table, where an answer that has a partner or that partner
    /// is not a category.
    fn get_mechanism(a: &[usize], b: &[usize], c: &usize) -> (r: Result<Matrix, DMIError>)
        requires
            *c * *c * 8 <= isize::MAX,
        ensures
            table_outcome(r) == checked_mechanism(a@, b@, *c as nat),
    {
        let mut counts = Matrix::zeroed(*c);
        let len: usize = if a.len() <= b.len() {
            a.len()
        } else {
            b.len()
        };
        let mut k: usize = 0;
        while k < len
            invariant
                k <= len,
                len == paired_len(a@, b@),
                counts@.width == *c,
                counts@.rows.len() == *c,
                counts@.rectangular(),
                forall|t: int| 0 <= t < k ==> #[trigger] pair_in_scope(a@, b@, *c as nat, t),
                forall|x: int, y: int|
                    0 <= x < *c && 0 <= y < *c ==> #[trigger] counts@.rows[x][y] == co_occurrences(
                        a@,
                        b@,
                        x as nat,
                        y as nat,
                        k as nat,
                    ),
            decreases len - k,
        {
            let x = a[k];
            let y = b[k];
            if Self::check_answers(&x, c) && Self::check_answers(&y, c) {
                proof {
                    lemma_co_occurrences_bound(a@, b@, x as nat, y as nat, k as nat);
                }
                counts.increment(x, y);
            } else {
                assert(!pair_in_scope(a@, b@, *c as nat, k as int));
                return Err(DMIError::AnswerValsOutOfScope);
            }
            k += 1;
        }
        assert(counts@.rows =~~= mechanism(a@, b@, *c as nat).rows);
        Ok(counts)
    }

    /// The two mechanisms of a pair of agents, from their answers on the first
    /// half of the tasks (`a1`, `b1`) and on the second (`a2`, `b2`). The
    /// product of the two determinants, without its sign, is the mutual
    /// information of the pair.
    ///
    /// An error of either mechanism is handed on as it is.
    fn get_mutual_information(
        a1: &[usize],
        b1: &[usize],
        a2: &[usize],
        b2: &[usize],
        c: &usize,
    ) -> (r: Result<PairMechanisms, DMIError>)
        requires
            *c * *c * 8 <= isize::MAX,
        ensures
            pair_outcome(r) == pair_mechanisms(a1@, b1@, a2@, b2@, *c as nat),
    {
        let first_half = Self::get_mechanism(a1, b1, c)?;
        let second_half = Self::get_mechanism(a2, b2, c)?;
        Ok(PairMechanisms { first_half, second_half })
    }

    /// Splits the tasks in the middle and plans the payments of every agent.
    ///
    /// The caller is to have shuffled the tasks: the split takes them as they
    /// come, the odd one to the second half.
    fn do_dmi(answers: Matrix, choice_n: usize) -> (r: Result<PaymentPlan, DMIError>)
        ensures
            plan_outcome(r) == payment_plan(answers@, choice_n as nat),
    {
        let agent_n = answers.nrows();
        let task_n = answers.ncols();
        let half = task_n / 2;
        if half < choice_n {
            return Err(DMIError::TooFewTasks);
        }
        if agent_n <= 1 {
            return Err(DMIError::TooFewAgents);
        }
        let (first_half_answers, second_half_answers) = answers.split_at_column(half);
        Self::calculate_payments(&agent_n, &choice_n, &first_half_answers, &second_half_answers)
    }

    /// Plans the payments of the first `agent_n` agents of two tables of
    /// answers, one for each half of the tasks, with a row for each agent.
    ///
    /// The normalization factor is computed first. Then, for each agent in
    /// turn, the mechanisms with every other agent are built; the first answer
    /// that is not a category ends the whole computation.
    fn calculate_payments(agent_n: &usize, choice_n: &usize, t1: &Matrix, t2: &Matrix) -> (r:
        Result<PaymentPlan, DMIError>)
        requires
            *agent_n <= t1@.rows.len(),
            *agent_n <= t2@.rows.len(),
        ensures
            plan_outcome(r) == plan_of_halves(*agent_n as nat, *choice_n as nat, t1@, t2@),
    {
        let prelim_agents = agent_n.checked_sub(1).ok_or(DMIError::TooFewAgentsForPaymentCalc)?;
        let fact = checked_factorial(*choice_n).ok_or(DMIError::PaymentFactorialCalc)?;
        let raised = fact.checked_mul(fact).ok_or(DMIError::Exponentiate)?;
        let base = prelim_agents.checked_mul(raised).ok_or(DMIError::Arithmetic)?;
        let first_half = Self::calculate_factorials(&t1.ncols(), choice_n)?;
        let second_half = Self::calculate_factorials(&t2.ncols(), choice_n)?;
        let norm = NormFactor { base, first_half, second_half };
        assert(norm_factor(*agent_n as nat, *choice_n as nat, t1@.width, t2@.width) == Ok::<
            NormFactor,
            DMIError,
        >(norm));
        proof {
            if *choice_n > MAX_FACTORIAL_ARG {
                lemma_factorial_beyond_usize(*choice_n as nat);
            }
            assert(*choice_n * *choice_n * 8 <= isize::MAX) by (nonlinear_arith)
                requires
                    *choice_n <= 20,
                    isize::MAX >= 0x7fff_ffff,
            ;
        }
        let ghost agents = *agent_n as nat;
        let ghost c = *choice_n as nat;
        let mut runs: Vec<Vec<PairMechanisms>> = Vec::new();
        let mut i: usize = 0;
        while i < *agent_n
            invariant
                i <= *agent_n,
                agents == *agent_n,
                c == *choice_n,
                *agent_n <= t1@.rows.len(),
                *agent_n <= t2@.rows.len(),
                *choice_n * *choice_n * 8 <= isize::MAX,
                norm_factor(agents, c, t1@.width, t2@.width) is Ok,
                runs@.len() == i,
                forall|p: int, q: int|
                    0 <= p < i && 0 <= q < agents && p != q ==> (#[trigger] pair_of(
                        t1@,
                        t2@,
                        p,
                        q,
                        c,
                    )) is Ok,
                forall|p: int| 0 <= p < i ==> (#[trigger] runs@[p])@.len() == agents - 1,
                forall|p: int, s: int|
                    0 <= p < i && 0 <= s < agents - 1 ==> (#[trigger] runs@[p]@[s])@ == pair_of(
                        t1@,
                        t2@,
                        p,
                        partner(p, s),
                        c,
                    ).unwrap(),
            decreases *agent_n - i,
        {
            let a1 = t1.row(i);
            let a2 = t2.row(i);
            let mut run: Vec<PairMechanisms> = Vec::new();
            let mut j: usize = 0;
            while j < *agent_n
                invariant
                    j <= *agent_n,
                    i < *agent_n,
                    agents == *agent_n,
                    c == *choice_n,
                    *agent_n <= t1@.rows.len(),
                    *agent_n <= t2@.rows.len(),
                    *choice_n * *choice_n * 8 <= isize::MAX,
                    norm_factor(agents, c, t1@.width, t2@.width) is Ok,
                    a1@ == t1@.rows[i as int],
                    a2@ == t2@.rows[i as int],
                    run@.len() == (if j <= i {
                        j as int
                    } else {
                        j - 1
                    }),
                    forall|q: int|
                        0 <= q < j && q != i ==> (#[trigger] pair_of(
                            t1@,
                            t2@,
                            i as int,
                            q,
                            c,
                        )) is Ok,
                    forall|s: int|
                        0 <= s < run@.len() ==> (#[trigger] run@[s])@ == pair_of(
                            t1@,
                            t2@,
                            i as int,
                            partner(i as int, s),
                            c,
                        ).unwrap(),
                decreases *agent_n - j,
            {
                if i != j {
                    let b1 = t1.row(j);
                    let b2 = t2.row(j);
                    match Self::get_mutual_information(
                        a1.as_slice(),
                        b1.as_slice(),
                        a2.as_slice(),
                        b2.as_slice(),
                        choice_n,
                    ) {
                        Ok(pair) => {
                            run.push(pair);
                        },
                        Err(e) => {
                            assert(pair_of(t1@, t2@, i as int, j as int, c) is Err);
                            return Err(e);
                        },
                    }
                }
                j += 1;
            }
            runs.push(run);
            i += 1;
        }
        let plan = PaymentPlan { norm, runs };
        assert(plan@.runs =~~= runs_of(agents, c, t1@, t2@));
        Ok(plan)
    }
}

/// The mechanism with every operation as the trait defines it.
#[derive(Debug, Clone, Copy)]
pub struct Engine;

impl DMI for Engine {

}

} // verus!
