use vstd::prelude::*;

verus! {

/// The sum of a sequence of step sizes in half-steps.
pub open spec fn step_sum(steps: Seq<u8>) -> int
    decreases steps.len(),
{
    if steps.len() == 0 {
        0
    } else {
        step_sum(steps.drop_last()) + steps.last()
    }
}

proof fn lemma_step_sum_prefix(steps: Seq<u8>, i: int)
    requires
        0 <= i <= steps.len(),
    ensures
        step_sum(steps.take(i)) <= step_sum(steps),
    decreases steps.len(),
{
    if i < steps.len() {
        assert(steps.drop_last().take(i) =~= steps.take(i));
        lemma_step_sum_prefix(steps.drop_last(), i);
    } else {
        assert(steps.take(i) =~= steps);
    }
}

/// A scale: the sizes in half-steps of its steps, which together span one
/// octave (12 half-steps).
pub struct Scale {
    steps: Vec<u8>,
}

impl View for Scale {
    type V = Seq<u8>;

    /// The step sizes.
    closed spec fn view(&self) -> Seq<u8> {
        self.steps@
    }
}

impl Scale {
    #[verifier::type_invariant]
    spec fn spans_an_octave(self) -> bool {
        step_sum(self.steps@) == 12
    }

    /// A scale of the given steps; fails unless they sum to exactly 12.
    pub fn try_new(steps: Vec<u8>) -> (r: Result<Scale, ()>)
        ensures
            r is Ok <==> step_sum(steps@) == 12,
            r matches Ok(scale) ==> scale@ == steps@,
    {
        let mut sum: u32 = 0;
        let mut i: usize = 0;
        while i < steps.len()
            invariant
                0 <= i <= steps@.len(),
                sum == step_sum(steps@.take(i as int)),
                sum <= 12,
            decreases steps@.len() - i,
        {
            assert(steps@.take(i + 1).drop_last() =~= steps@.take(i as int));
            sum = sum + steps[i] as u32;
            i += 1;
            if sum > 12 {
                proof {
                    lemma_step_sum_prefix(steps@, i as int);
                }
                return Err(());
            }
        }
        assert(steps@.take(i as int) =~= steps@);
        if sum != 12 {
            return Err(());
        }
        Ok(Scale { steps })
    }
}

} // verus!
