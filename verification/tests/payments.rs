use dmi::payments::{NormFactor, PairMechanisms, PaymentPlan};
use dmi::{DMIError, Engine, Matrix, DMI};
use ndarray_linalg::error::LinalgError;

fn table(rows: &[&[usize]]) -> Matrix {
    let width = rows.first().map_or(0, |r| r.len());
    let cells: Vec<usize> = rows.iter().flat_map(|r| r.iter().copied()).collect();
    Matrix::from_shape_vec(rows.len(), width, cells).unwrap()
}

fn rows(m: &Matrix) -> Vec<Vec<usize>> {
    (0..m.nrows()).map(|i| m.row(i)).collect()
}

fn error_of(r: Result<PaymentPlan, DMIError>) -> DMIError {
    match r {
        Ok(_) => panic!("a plan was made"),
        Err(e) => e,
    }
}

fn det2(m: &Matrix) -> f32 {
    assert_eq!((m.nrows(), m.ncols()), (2, 2));
    let at = |i, j| m.get(i, j).unwrap() as f32;
    at(0, 0) * at(1, 1) - at(0, 1) * at(1, 0)
}

fn score2(pair: &PairMechanisms) -> f32 {
    (det2(&pair.first_half) * det2(&pair.second_half)).abs()
}

fn payments2(plan: &PaymentPlan) -> Vec<f32> {
    let mut norm = plan.norm.base as f32;
    norm *= plan.norm.first_half as f32 * plan.norm.second_half as f32;
    let mut out = vec![];
    for run in &plan.runs {
        let mut p = 0_f32;
        for pair in run {
            p += score2(pair);
            p /= norm;
            out.push(p);
        }
    }
    out
}

#[test]
fn one_task_short_is_too_few() {
    for c in 1..6usize {
        let answers = Matrix::from_shape_vec(3, 2 * c - 1, vec![0; 3 * (2 * c - 1)]).unwrap();
        assert_eq!(error_of(Engine::do_dmi(answers, c)), DMIError::TooFewTasks);
    }
}

#[test]
fn twice_the_categories_are_enough() {
    for c in 0..6usize {
        let answers = Matrix::from_shape_vec(3, 2 * c, vec![0; 3 * 2 * c]).unwrap();
        let plan = Engine::do_dmi(answers, c).unwrap();
        assert_eq!(plan.norm.first_half, 1);
        assert_eq!(plan.norm.second_half, 1);
    }
}

#[test]
fn too_few_tasks_is_found_before_too_few_agents() {
    let answers = Matrix::from_shape_vec(0, 3, vec![]).unwrap();
    assert_eq!(error_of(Engine::do_dmi(answers, 2)), DMIError::TooFewTasks);
    let answers = table(&[&[0, 1, 0]]);
    assert_eq!(error_of(Engine::do_dmi(answers, 2)), DMIError::TooFewTasks);
}

#[test]
fn one_agent_or_none_is_too_few() {
    let answers = Matrix::from_shape_vec(0, 4, vec![]).unwrap();
    assert_eq!(error_of(Engine::do_dmi(answers, 2)), DMIError::TooFewAgents);
    let answers = table(&[&[0, 1, 0, 1]]);
    assert_eq!(error_of(Engine::do_dmi(answers, 2)), DMIError::TooFewAgents);
}

#[test]
fn an_answer_that_is_no_category_ends_the_run() {
    let answers = table(&[&[0, 1, 0, 1], &[0, 1, 0, 1], &[1, 0, 1, 2]]);
    assert_eq!(error_of(Engine::do_dmi(answers, 2)), DMIError::AnswerValsOutOfScope);
    let answers = table(&[&[2, 1, 0, 1], &[0, 1, 0, 1]]);
    assert_eq!(error_of(Engine::do_dmi(answers, 2)), DMIError::AnswerValsOutOfScope);
}

#[test]
fn three_agents_four_tasks() {
    let answers = table(&[&[0, 1, 0, 1], &[0, 1, 0, 1], &[1, 0, 1, 0]]);
    let plan = Engine::do_dmi(answers, 2).unwrap();
    assert_eq!(plan.norm, NormFactor { base: 8, first_half: 1, second_half: 1 });
    assert_eq!(plan.runs.len(), 3);
    assert!(plan.runs.iter().all(|run| run.len() == 2));

    let same = vec![vec![1, 0], vec![0, 1]];
    let opposite = vec![vec![0, 1], vec![1, 0]];
    let expected = [[&same, &opposite], [&same, &opposite], [&opposite, &opposite]];
    for (run, expected) in plan.runs.iter().zip(expected) {
        for (pair, expected) in run.iter().zip(expected) {
            assert_eq!(&rows(&pair.first_half), expected);
            assert_eq!(&rows(&pair.second_half), expected);
        }
    }

    let payments = payments2(&plan);
    assert_eq!(payments.len(), 3 * 2);
    assert!(payments.iter().all(|p| *p > 0.0));
    assert_eq!(payments, vec![0.125, 0.140625, 0.125, 0.140625, 0.125, 0.140625]);
}

#[test]
fn agents_that_agree_score_above_agents_that_do_not() {
    let answers =
        table(&[&[0, 1, 0, 1, 0, 1, 0, 1], &[0, 1, 0, 1, 0, 1, 0, 1], &[0, 0, 1, 1, 0, 0, 1, 1]]);
    let plan = Engine::do_dmi(answers, 2).unwrap();
    assert_eq!(plan.norm, NormFactor { base: 8, first_half: 6, second_half: 6 });
    let with_agreeing = score2(&plan.runs[0][0]);
    let with_unrelated = score2(&plan.runs[0][1]);
    assert_eq!(with_agreeing, 16.0);
    assert_eq!(with_unrelated, 0.0);
    assert!(with_agreeing > with_unrelated);
    let payments = payments2(&plan);
    assert_eq!(payments[0], 16.0 / 288.0);
    assert_eq!(payments[1], 16.0 / 288.0 / 288.0);
}

#[test]
fn a_half_with_fewer_tasks_than_categories() {
    let t1 = table(&[&[0], &[1], &[2], &[3]]);
    let t2 = table(&[&[3], &[2], &[1], &[0]]);
    let plan = Engine::calculate_payments(&4, &4, &t1, &t2);
    assert_eq!(error_of(plan), DMIError::NLessThanM);
    let plan = Engine::calculate_payments(&4, &1, &t1, &t2);
    assert_eq!(error_of(plan), DMIError::AnswerValsOutOfScope);
}

#[test]
fn each_run_lists_the_other_agents_in_order() {
    let wide = |k: usize| vec![k, k, k, k];
    let t1 = Matrix::from_shape_vec(4, 4, (0..4).flat_map(wide).collect()).unwrap();
    let t2 = Matrix::from_shape_vec(4, 4, (0..4).rev().flat_map(wide).collect()).unwrap();
    let plan = Engine::calculate_payments(&4, &4, &t1, &t2).unwrap();
    assert_eq!(plan.norm, NormFactor { base: 3 * 24 * 24, first_half: 1, second_half: 1 });
    assert_eq!(plan.runs.len(), 4);
    for (i, run) in plan.runs.iter().enumerate() {
        let others: Vec<usize> = (0..4).filter(|j| *j != i).collect();
        assert_eq!(run.len(), others.len());
        for (pair, j) in run.iter().zip(others) {
            assert_eq!(pair.first_half.get(i, j), Some(4));
            assert_eq!(pair.second_half.get(3 - i, 3 - j), Some(4));
            let total: usize = rows(&pair.first_half).iter().flatten().sum();
            assert_eq!(total, 4);
        }
    }
}

#[test]
fn the_odd_task_goes_to_the_second_half() {
    let answers = table(&[&[0, 1, 1, 0, 1], &[1, 0, 1, 1, 0]]);
    let plan = Engine::do_dmi(answers, 2).unwrap();
    assert_eq!(plan.norm, NormFactor { base: 4, first_half: 1, second_half: 3 });
    let pair = &plan.runs[0][0];
    assert_eq!(rows(&pair.first_half), vec![vec![0, 1], vec![1, 0]]);
    assert_eq!(rows(&pair.second_half), vec![vec![0, 1], vec![1, 1]]);
    let pair = &plan.runs[1][0];
    assert_eq!(rows(&pair.first_half), vec![vec![0, 1], vec![1, 0]]);
    assert_eq!(rows(&pair.second_half), vec![vec![0, 1], vec![1, 1]]);
}

#[test]
fn normalization_factor_has_exact_terms() {
    let answers = Matrix::from_shape_vec(4, 9, vec![0; 36]).unwrap();
    let plan = Engine::do_dmi(answers, 3).unwrap();
    assert_eq!(plan.norm, NormFactor { base: 3 * 36, first_half: 4, second_half: 10 });

    let answers = Matrix::from_shape_vec(2, 40, vec![0; 80]).unwrap();
    let plan = Engine::do_dmi(answers, 5).unwrap();
    assert_eq!(plan.norm, NormFactor { base: 14400, first_half: 15504, second_half: 15504 });
}

#[test]
fn the_same_answers_give_the_same_plan() {
    let cells = vec![0, 1, 2, 1, 0, 2, 2, 2, 1, 0, 1, 0, 1, 2, 0, 0, 1, 1];
    let first = Engine::do_dmi(Matrix::from_shape_vec(3, 6, cells.clone()).unwrap(), 3).unwrap();
    let second = Engine::do_dmi(Matrix::from_shape_vec(3, 6, cells).unwrap(), 3).unwrap();
    assert_eq!(first.norm, second.norm);
    assert_eq!(first.runs.len(), second.runs.len());
    for (a, b) in first.runs.iter().zip(&second.runs) {
        assert_eq!(a.len(), b.len());
        for (p, q) in a.iter().zip(b) {
            assert_eq!(rows(&p.first_half), rows(&q.first_half));
            assert_eq!(rows(&p.second_half), rows(&q.second_half));
        }
    }
}

#[test]
fn no_categories_and_no_tasks() {
    let answers = Matrix::from_shape_vec(3, 0, vec![]).unwrap();
    let plan = Engine::do_dmi(answers, 0).unwrap();
    assert_eq!(plan.norm, NormFactor { base: 2, first_half: 1, second_half: 1 });
    assert_eq!(plan.runs.len(), 3);
    for run in &plan.runs {
        assert_eq!(run.len(), 2);
        for pair in run {
            assert_eq!((pair.first_half.nrows(), pair.first_half.ncols()), (0, 0));
        }
    }
    let answers = table(&[&[0, 0], &[0, 0]]);
    assert_eq!(error_of(Engine::do_dmi(answers, 0)), DMIError::AnswerValsOutOfScope);
}

#[test]
fn no_agent_at_the_payment_stage() {
    let none = Matrix::from_shape_vec(0, 4, vec![]).unwrap();
    let plan = Engine::calculate_payments(&0, &2, &none, &none);
    assert_eq!(error_of(plan), DMIError::TooFewAgentsForPaymentCalc);
}

#[test]
fn one_agent_at_the_payment_stage() {
    let one = table(&[&[0, 1, 9]]);
    let plan = Engine::calculate_payments(&1, &2, &one, &one).unwrap();
    assert_eq!(plan.norm, NormFactor { base: 0, first_half: 3, second_half: 3 });
    assert_eq!(plan.runs.len(), 1);
    assert!(plan.runs[0].is_empty());
}

#[test]
fn only_the_first_agents_are_paired() {
    let t = table(&[&[0, 1], &[1, 0], &[7, 7]]);
    let plan = Engine::calculate_payments(&2, &2, &t, &t).unwrap();
    assert_eq!(plan.runs.len(), 2);
    assert_eq!(rows(&plan.runs[0][0].first_half), vec![vec![0, 1], vec![1, 0]]);
    let plan = Engine::calculate_payments(&3, &2, &t, &t);
    assert_eq!(error_of(plan), DMIError::AnswerValsOutOfScope);
}

#[test]
fn factorial_of_the_categories_too_large() {
    let t = Matrix::from_shape_vec(2, 42, vec![0; 84]).unwrap();
    let plan = Engine::calculate_payments(&2, &21, &t, &t);
    assert_eq!(error_of(plan), DMIError::PaymentFactorialCalc);
    assert_eq!(error_of(Engine::do_dmi(t, 21)), DMIError::PaymentFactorialCalc);
}

#[test]
fn square_of_the_factorial_too_large() {
    let t = Matrix::from_shape_vec(2, 26, vec![0; 52]).unwrap();
    assert_eq!(error_of(Engine::do_dmi(t, 13)), DMIError::Exponentiate);
    let t = Matrix::from_shape_vec(2, 40, vec![0; 80]).unwrap();
    assert_eq!(error_of(Engine::do_dmi(t, 20)), DMIError::Exponentiate);
}

#[test]
fn agents_times_the_square_too_large() {
    let t = Matrix::from_shape_vec(82, 0, vec![]).unwrap();
    let plan = Engine::calculate_payments(&82, &12, &t, &t);
    assert_eq!(error_of(plan), DMIError::Arithmetic);
    let plan = Engine::calculate_payments(&81, &12, &t, &t);
    assert_eq!(error_of(plan), DMIError::NLessThanM);
}

#[test]
fn factorial_of_a_half_too_large() {
    let t = Matrix::from_shape_vec(2, 42, vec![0; 84]).unwrap();
    assert_eq!(error_of(Engine::do_dmi(t, 2)), DMIError::FactorialCalc);
    let t = Matrix::from_shape_vec(2, 41, vec![0; 82]).unwrap();
    assert_eq!(error_of(Engine::do_dmi(t, 2)), DMIError::FactorialCalc);
    let t = Matrix::from_shape_vec(2, 40, vec![0; 80]).unwrap();
    assert!(Engine::do_dmi(t, 2).is_ok());
}

#[test]
fn the_normalization_factor_comes_before_the_answers() {
    let t = Matrix::from_shape_vec(2, 42, vec![9; 84]).unwrap();
    assert_eq!(error_of(Engine::do_dmi(t, 2)), DMIError::FactorialCalc);
}

#[test]
fn a_determinant_failure_becomes_the_library_error() {
    let e = DMIError::from(LinalgError::NotSquare { rows: 2, cols: 3 });
    assert_eq!(e, DMIError::LinalgError);
    let e: DMIError = LinalgError::MemoryNotCont.into();
    assert_eq!(e, DMIError::LinalgError);
}
