//! Small helpers shared by the extractors.

use vstd::prelude::*;

verus! {

/// Whether a selection produced no match, exactly one, or several.
pub enum TakeResult<T> {
    Zero,
    One(T),
    More,
}

/// Classifies a selection result by its length, handing out the single
/// element when there is exactly one.
pub fn take_one<T>(mut v: Vec<T>) -> (r: TakeResult<T>)
    ensures
        match r {
            TakeResult::Zero => v@.len() == 0,
            TakeResult::One(x) => v@.len() == 1 && x == v@[0],
            TakeResult::More => v@.len() > 1,
        },
{
    if v.len() == 0 {
        TakeResult::Zero
    } else if v.len() == 1 {
        let x = v.remove(0);
        TakeResult::One(x)
    } else {
        TakeResult::More
    }
}

} // verus!
