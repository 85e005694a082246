//! Candidates of the search: fixed-length integer action vectors.

use vstd::prelude::*;

verus! {

/// One point in the integer search space ("arm"): an ordered, fixed-length
/// vector of integer genes. Two arms are the same candidate exactly when
/// their action vectors are equal element-wise; that equality drives all
/// duplicate suppression in the optimizer.
#[derive(Debug)]
pub struct Arm {
    action_vector: Vec<i32>,
}

impl View for Arm {
    type V = Seq<i32>;

    closed spec fn view(&self) -> Seq<i32> {
        self.action_vector@
    }
}

impl Arm {
    /// Builds an arm holding a copy of the given action vector.
    pub fn new(action_vector: &Vec<i32>) -> (r: Arm)
        ensures
            r@ == action_vector@,
    {
        let v = action_vector.clone();
        proof {
            assert(v@ =~= action_vector@);
        }
        Arm { action_vector: v }
    }

    /// The arm's action vector.
    pub fn get_action_vector(&self) -> (r: &Vec<i32>)
        ensures
            r@ == self@,
    {
        &self.action_vector
    }
}

impl Clone for Arm {
    fn clone(&self) -> (r: Self)
        ensures
            r@ == self@,
    {
        Arm::new(&self.action_vector)
    }
}

} // verus!
