//! Figures that sum up how long moves took.

use vstd::prelude::*;

verus! {

/// What sums up a list of durations.
#[derive(Clone, Copy, Debug, PartialEq, Eq, Structural)]
pub struct DurationSummary {
    /// The sum of the durations divided by their number, rounded down.
    pub avg: u128,
    /// The shortest duration.
    pub min: u128,
    /// The longest duration.
    pub max: u128,
    /// The duration at a quarter of the list.
    pub first_quartile: u128,
    /// The duration at the middle of the list.
    pub median: u128,
    /// The duration at three quarters of the list.
    pub third_quartile: u128,
}

/// The sum of the first `bound` durations.
pub open spec fn sum_below(durations: Seq<u128>, bound: int) -> int
    decreases bound,
{
    if bound <= 0 {
        0
    } else {
        sum_below(durations, bound - 1) + durations[bound - 1]
    }
}

/// The sum of all durations.
pub open spec fn total_of(durations: Seq<u128>) -> int {
    sum_below(durations, durations.len() as int)
}

/// True when `value` is one of the durations and none is shorter.
pub open spec fn is_min(durations: Seq<u128>, value: u128) -> bool {
    durations.contains(value) && forall|i: int|
        0 <= i < durations.len() ==> value <= #[trigger] durations[i]
}

/// True when `value` is one of the durations and none is longer.
pub open spec fn is_max(durations: Seq<u128>, value: u128) -> bool {
    durations.contains(value) && forall|i: int|
        0 <= i < durations.len() ==> value >= #[trigger] durations[i]
}

/// The sum of durations grows with the number of durations summed.
pub proof fn lemma_sum_below_monotonic(durations: Seq<u128>, lower: int, upper: int)
    requires
        0 <= lower <= upper <= durations.len(),
    ensures
        0 <= sum_below(durations, lower) <= sum_below(durations, upper),
    decreases upper,
{
    if lower < upper {
        lemma_sum_below_monotonic(durations, lower, upper - 1);
    } else if lower > 0 {
        lemma_sum_below_monotonic(durations, lower - 1, lower - 1);
    }
}

/// The average of the durations, rounded down; `None` when there is no
/// duration or the sum does not fit the type.
pub fn average(durations: &Vec<u128>) -> (avg: Option<u128>)
    ensures
        avg == if durations@.len() > 0 && total_of(durations@) <= u128::MAX {
            Some((total_of(durations@) / durations@.len() as int) as u128)
        } else {
            None
        },
{
    match summarize(durations) {
        Some(summary) => Some(summary.avg),
        None => None,
    }
}

/// The summary of the durations, in the order in which they are given: the
/// quartiles are the durations at a quarter, the middle and three quarters of
/// the list as it stands. `None` when there is no duration or the sum does not
/// fit the type.
pub fn summarize(durations: &Vec<u128>) -> (summary: Option<DurationSummary>)
    ensures
        summary is Some <==> (durations@.len() > 0 && total_of(durations@) <= u128::MAX),
        summary matches Some(figures) ==> {
            let len = durations@.len() as int;
            &&& figures.avg == total_of(durations@) / len
            &&& is_min(durations@, figures.min)
            &&& is_max(durations@, figures.max)
            &&& figures.first_quartile == durations@[len / 4]
            &&& figures.median == durations@[len / 2]
            &&& figures.third_quartile == durations@[len / 4 * 3]
        },
{
    let row_len = durations.len();
    if row_len == 0 {
        return None;
    }
    let mut total: u128 = 0;
    let mut min: u128 = durations[0];
    let mut max: u128 = durations[0];
    let mut first_quartile: u128 = 0;
    let mut second_quartile: u128 = 0;
    let mut third_quartile: u128 = 0;
    let mut index: usize = 0;
    while index < row_len
        invariant
            index <= row_len,
            row_len == durations@.len(),
            row_len > 0,
            total == sum_below(durations@, index as int),
            forall|i: int| 0 <= i < index ==> min <= #[trigger] durations@[i],
            forall|i: int| 0 <= i < index ==> max >= #[trigger] durations@[i],
            durations@.contains(min),
            durations@.contains(max),
            index > row_len / 4 ==> first_quartile == durations@[row_len as int / 4],
            index > row_len / 2 ==> second_quartile == durations@[row_len as int / 2],
            index > row_len / 4 * 3 ==> third_quartile == durations@[row_len as int / 4 * 3],
        decreases row_len - index,
    {
        let duration = durations[index];
        match total.checked_add(duration) {
            Some(sum) => {
                total = sum;
            },
            None => {
                proof {
                    lemma_sum_below_monotonic(durations@, index + 1, row_len as int);
                }
                return None;
            },
        }
        if duration < min {
            min = duration;
        }
        if duration > max {
            max = duration;
        }
        proof {
            assert(durations@[index as int] == duration);
        }
        if index == row_len / 4 {
            first_quartile = duration;
        }
        if index == row_len / 2 {
            second_quartile = duration;
        }
        if index == row_len / 4 * 3 {
            third_quartile = duration;
        }
        index = index + 1;
    }
    let avg = total / row_len as u128;
    Some(
        DurationSummary {
            avg,
            min,
            max,
            first_quartile,
            median: second_quartile,
            third_quartile,
        },
    )
}

} // verus!
