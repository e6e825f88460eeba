//! Shifting a list of values.

use vstd::prelude::*;

verus! {

/// The place to which the value of place `place` of a list of `len` values
/// moves when the list is shifted by `shift` places: `shift` places on,
/// counted around the end of the list.
pub open spec fn shifted_place(place: int, shift: int, len: int) -> int {
    if place + shift < len {
        place + shift
    } else {
        place + shift - len
    }
}

/// A mutation that moves every value of a list on by the same number of
/// places, around the end of the list.
pub struct ShiftMutation {}

impl ShiftMutation {
    /// The list in which the value of every place of `values` stands
    /// `shift` places on, counted around the end of the list.
    pub fn shift_by<T: Copy>(&self, values: &Vec<T>, shift: usize) -> (shifted: Vec<T>)
        requires
            shift < values@.len() || values@.len() == 0,
        ensures
            shifted@.len() == values@.len(),
            forall|i: int|
                0 <= i < values@.len() ==> shifted@[shifted_place(
                    i,
                    shift as int,
                    values@.len() as int,
                )] == #[trigger] values@[i],
    {
        let len = values.len();
        let mut shifted: Vec<T> = Vec::new();
        let mut place: usize = 0;
        while place < len
            invariant
                place <= len,
                len == values@.len(),
                shift < len || len == 0,
                shifted@.len() == place,
                forall|j: int|
                    0 <= j < place ==> #[trigger] shifted@[j] == values@[if j >= shift {
                        j - shift
                    } else {
                        j + len - shift
                    }],
            decreases len - place,
        {
            let source = if place >= shift {
                place - shift
            } else {
                place + (len - shift)
            };
            shifted.push(values[source]);
            place = place + 1;
        }
        proof {
            assert forall|i: int| 0 <= i < values@.len() implies shifted@[shifted_place(
                i,
                shift as int,
                values@.len() as int,
            )] == #[trigger] values@[i] by {
                let j = shifted_place(i, shift as int, len as int);
                assert(shifted@[j] == values@[if j >= shift {
                    j - shift
                } else {
                    j + len - shift
                }]);
            }
        }
        shifted
    }
}

} // verus!
