//! The mechanism of two answer lists: how often each pair of categories occurs.

use crate::error::DMIError;
use crate::matrix::{Matrix, Table};
use vstd::prelude::*;

verus! {

/// How many answers the two lists give side by side: the shorter one's length.
pub open spec fn paired_len(a: Seq<usize>, b: Seq<usize>) -> nat {
    if a.len() <= b.len() {
        a.len()
    } else {
        b.len()
    }
}

/// `x` is one of the `c` categories.
pub open spec fn is_category(x: usize, c: nat) -> bool {
    0 <= x < c
}

/// On task `k` both answers are categories.
pub open spec fn pair_in_scope(a: Seq<usize>, b: Seq<usize>, c: nat, k: int) -> bool {
    is_category(a[k], c) && is_category(b[k], c)
}

/// Every answer that has a partner is a category, and so is its partner.
pub open spec fn answers_in_scope(a: Seq<usize>, b: Seq<usize>, c: nat) -> bool {
    forall|k: int| 0 <= k < paired_len(a, b) ==> #[trigger] pair_in_scope(a, b, c, k)
}

/// Among the first `upto` tasks, the number of those on which the first agent
/// answered `x` and the second answered `y`.
pub open spec fn co_occurrences(a: Seq<usize>, b: Seq<usize>, x: nat, y: nat, upto: nat) -> nat
    decreases upto,
{
    if upto == 0 {
        0
    } else {
        let rest = co_occurrences(a, b, x, y, (upto - 1) as nat);
        if a[upto - 1] == x && b[upto - 1] == y {
            rest + 1
        } else {
            rest
        }
    }
}

/// The mechanism of `a` and `b` over `c` categories: a table of `c` rows and
/// `c` columns whose entry in row `x` and column `y` counts the tasks on which
/// the first agent answered `x` and the second answered `y`.
pub open spec fn mechanism(a: Seq<usize>, b: Seq<usize>, c: nat) -> Table {
    Table {
        rows: Seq::new(
            c,
            |x: int|
                Seq::new(
                    c,
                    |y: int| co_occurrences(a, b, x as nat, y as nat, paired_len(a, b)) as usize,
                ),
        ),
        width: c,
    }
}

/// The mechanism of `a` and `b` over `c` categories where every answer is a
/// category, and `AnswerValsOutOfScope`, with no table, where one is not.
pub open spec fn checked_mechanism(a: Seq<usize>, b: Seq<usize>, c: nat) -> Result<
    Table,
    DMIError,
> {
    if answers_in_scope(a, b, c) {
        Ok(mechanism(a, b, c))
    } else {
        Err(DMIError::AnswerValsOutOfScope)
    }
}

/// The outcome with the table replaced by what it holds.
pub open spec fn table_outcome(r: Result<Matrix, DMIError>) -> Result<Table, DMIError> {
    match r {
        Ok(m) => Ok(m@),
        Err(e) => Err(e),
    }
}

/// No pair of categories occurs more often than there are tasks.
pub proof fn lemma_co_occurrences_bound(a: Seq<usize>, b: Seq<usize>, x: nat, y: nat, upto: nat)
    ensures
        co_occurrences(a, b, x, y, upto) <= upto,
    decreases upto,
{
    if upto > 0 {
        lemma_co_occurrences_bound(a, b, x, y, (upto - 1) as nat);
    }
}

/// Every answer of the list is `k`.
pub open spec fn all_answer(a: Seq<usize>, k: usize) -> bool {
    forall|t: int| 0 <= t < a.len() ==> #[trigger] a[t] == k
}

/// Among tasks that are all answered `k` by both agents, only the pair of `k`
/// with `k` occurs, and it occurs on every task.
proof fn lemma_constant_co_occurrences(
    a: Seq<usize>,
    b: Seq<usize>,
    k: usize,
    x: nat,
    y: nat,
    upto: nat,
)
    requires
        all_answer(a, k),
        all_answer(b, k),
        upto <= paired_len(a, b),
    ensures
        co_occurrences(a, b, x, y, upto) == (if x == k && y == k {
            upto
        } else {
            0
        }),
    decreases upto,
{
    if upto > 0 {
        lemma_constant_co_occurrences(a, b, k, x, y, (upto - 1) as nat);
    }
}

/// Where both agents answer the category `k` on each of their tasks, as many
/// for the one as for the other, the mechanism holds the number of tasks in row
/// `k` and column `k` and zero everywhere else. With more than one category it
/// therefore has a row of zeros.
pub proof fn lemma_constant_answers(a: Seq<usize>, b: Seq<usize>, k: usize, c: nat)
    requires
        k < c,
        a.len() == b.len(),
        a.len() <= usize::MAX,
        all_answer(a, k),
        all_answer(b, k),
    ensures
        answers_in_scope(a, b, c),
        forall|x: int, y: int|
            0 <= x < c && 0 <= y < c ==> #[trigger] mechanism(a, b, c).rows[x][y] == (if x == k
                && y == k {
                a.len()
            } else {
                0
            }),
        c > 1 ==> exists|x: int| 0 <= x < c && #[trigger] mechanism(a, b, c).is_zero_row(x),
{
    assert forall|t: int| 0 <= t < paired_len(a, b) implies #[trigger] pair_in_scope(
        a,
        b,
        c,
        t,
    ) by {}
    assert forall|x: int, y: int| 0 <= x < c && 0 <= y < c implies #[trigger] mechanism(
        a,
        b,
        c,
    ).rows[x][y] == (if x == k && y == k {
        a.len()
    } else {
        0
    }) by {
        lemma_constant_co_occurrences(a, b, k, x as nat, y as nat, a.len());
    }
    if c > 1 {
        let x: int = if k == 0 {
            1
        } else {
            0
        };
        assert(mechanism(a, b, c).is_zero_row(x));
    }
}

} // verus!
