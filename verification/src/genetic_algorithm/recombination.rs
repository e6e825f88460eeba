//! Crossing two lists of values.

use vstd::prelude::*;

verus! {

/// Copies the values of `source` from place `from` up to, and without,
/// place `to` to the end of `target`.
fn extend_from_range<T: Copy>(target: &mut Vec<T>, source: &Vec<T>, from: usize, to: usize)
    requires
        from <= to <= source@.len(),
    ensures
        final(target)@ == old(target)@ + source@.subrange(from as int, to as int),
{
    let mut index = from;
    while index < to
        invariant
            from <= index <= to <= source@.len(),
            target@ == old(target)@ + source@.subrange(from as int, index as int),
        decreases to - index,
    {
        target.push(source[index]);
        index = index + 1;
        proof {
            assert(source@.subrange(from as int, index as int) =~= source@.subrange(
                from as int,
                index - 1,
            ).push(source@[index - 1]));
        }
    }
}

/// Crossing at one point: the two lists swap what follows the point.
pub struct OnePointCrossover {}

impl OnePointCrossover {
    /// The two lists that come of `lhs` and `rhs` by swapping what follows
    /// place `point`.
    pub fn cross<T: Copy>(&self, lhs: &Vec<T>, rhs: &Vec<T>, point: usize) -> (crossed: (
        Vec<T>,
        Vec<T>,
    ))
        requires
            point <= lhs@.len(),
            point <= rhs@.len(),
        ensures
            crossed.0@ == lhs@.subrange(0, point as int) + rhs@.subrange(
                point as int,
                rhs@.len() as int,
            ),
            crossed.1@ == rhs@.subrange(0, point as int) + lhs@.subrange(
                point as int,
                lhs@.len() as int,
            ),
    {
        let mut new_lhs: Vec<T> = Vec::new();
        let mut new_rhs: Vec<T> = Vec::new();
        extend_from_range(&mut new_lhs, lhs, 0, point);
        extend_from_range(&mut new_lhs, rhs, point, rhs.len());
        extend_from_range(&mut new_rhs, rhs, 0, point);
        extend_from_range(&mut new_rhs, lhs, point, lhs.len());
        (new_lhs, new_rhs)
    }
}

/// Crossing at two points: the two lists swap what lies between the points.
pub struct TwoPointCrossover {}

impl TwoPointCrossover {
    /// The two lists that come of `lhs` and `rhs` by swapping what lies
    /// from the smaller of the two points up to, and without, the greater.
    pub fn cross<T: Copy>(
        &self,
        lhs: &Vec<T>,
        rhs: &Vec<T>,
        crossover_point1: usize,
        crossover_point2: usize,
    ) -> (crossed: (Vec<T>, Vec<T>))
        requires
            crossover_point1 <= lhs@.len(),
            crossover_point1 <= rhs@.len(),
            crossover_point2 <= lhs@.len(),
            crossover_point2 <= rhs@.len(),
        ensures
            ({
                let start = if crossover_point1 < crossover_point2 {
                    crossover_point1 as int
                } else {
                    crossover_point2 as int
                };
                let end = if crossover_point1 < crossover_point2 {
                    crossover_point2 as int
                } else {
                    crossover_point1 as int
                };
                &&& crossed.0@ == lhs@.subrange(0, start) + rhs@.subrange(start, end)
                    + lhs@.subrange(end, lhs@.len() as int)
                &&& crossed.1@ == rhs@.subrange(0, start) + lhs@.subrange(start, end)
                    + rhs@.subrange(end, rhs@.len() as int)
            }),
    {
        let (start, end) = if crossover_point1 < crossover_point2 {
            (crossover_point1, crossover_point2)
        } else {
            (crossover_point2, crossover_point1)
        };
        let mut new_lhs: Vec<T> = Vec::new();
        let mut new_rhs: Vec<T> = Vec::new();
        extend_from_range(&mut new_lhs, lhs, 0, start);
        extend_from_range(&mut new_lhs, rhs, start, end);
        extend_from_range(&mut new_lhs, lhs, end, lhs.len());
        extend_from_range(&mut new_rhs, rhs, 0, start);
        extend_from_range(&mut new_rhs, lhs, start, end);
        extend_from_range(&mut new_rhs, rhs, end, rhs.len());
        (new_lhs, new_rhs)
    }
}

} // verus!
