use vstd::prelude::*;
use crate::framebuffer::PixelWrite;
use crate::input::InputLatch;

verus! {

/// What one successful step yields: its cycle cost (always at least one), the
/// pixel stores it emits in order, and whether it raised the frame-boundary
/// signal (a video-sync condition that ends the frame early).
pub struct StepOutcome {
    pub cycles: u32,
    pub writes: Vec<PixelWrite>,
    pub boundary: bool,
}

/// An execution unit: an opaque machine state advanced one indivisible step at
/// a time by the scheduler, and by nothing else.
///
/// The spec functions fix, for every state and latched input, whether a step
/// faults and with which diagnostic code, and otherwise its cycle cost, its
/// emitted pixel stores, its boundary signal, and the successor state. `step`
/// must realize exactly those functions, so a unit is deterministic by
/// contract: the whole outcome of a step is a function of the pair
/// (state, latched input). Machine-specific units implement this trait and are
/// selected when the core is constructed.
pub trait ExecutionUnit: Sized {
    /// The unit's well-formed states; constructors establish it, `step` and
    /// `reset` preserve it.
    spec fn wf(&self) -> bool;

    /// Whether one step from this state under this latched input faults.
    spec fn spec_faults(&self, input: Seq<bool>) -> bool;

    /// The diagnostic code carried by the fault, when one is raised.
    spec fn spec_fault_code(&self, input: Seq<bool>) -> Seq<char>;

    /// The cycle cost of the step.
    spec fn spec_cycles(&self, input: Seq<bool>) -> u32;

    /// The pixel stores the step emits, in order.
    spec fn spec_writes(&self, input: Seq<bool>) -> Seq<PixelWrite>;

    /// Whether the step raises the frame-boundary signal.
    spec fn spec_boundary(&self, input: Seq<bool>) -> bool;

    /// The state after the step completes.
    spec fn spec_next(&self, input: Seq<bool>) -> Self;

    /// The power-on state this unit returns to when the core is reset.
    spec fn power_on(&self) -> Self;

    /// Every step costs at least one cycle, so a frame's cycle budget bounds
    /// its number of steps. The scheduler's frame loop rests on this.
    proof fn cycles_at_least_one(&self, input: Seq<bool>)
        ensures
            self.spec_cycles(input) >= 1,
    ;

    /// Stepping preserves well-formedness.
    proof fn next_preserves_wf(&self, input: Seq<bool>)
        requires
            self.wf(),
        ensures
            self.spec_next(input).wf(),
    ;

    /// Advances the state by exactly one indivisible unit of work and reports
    /// its outcome, or faults and leaves the state exactly as it was: a
    /// faulting step never exposes a partial mutation.
    fn step(&mut self, input: &InputLatch) -> (r: Result<StepOutcome, String>)
        requires
            old(self).wf(),
        ensures
            final(self).wf(),
            (match r {
                Ok(o) => {
                    &&& !old(self).spec_faults(input@)
                    &&& o.cycles == old(self).spec_cycles(input@)
                    &&& o.cycles >= 1
                    &&& o.writes@ == old(self).spec_writes(input@)
                    &&& o.boundary == old(self).spec_boundary(input@)
                    &&& *final(self) == old(self).spec_next(input@)
                },
                Err(code) => {
                    &&& old(self).spec_faults(input@)
                    &&& code@ == old(self).spec_fault_code(input@)
                    &&& *final(self) == *old(self)
                },
            }),
    ;

    /// Returns the unit to its power-on state.
    fn reset(&mut self)
        requires
            old(self).wf(),
        ensures
            final(self).wf(),
            *final(self) == old(self).power_on(),
    ;
}

/// The step contract, as one relation: how a successor state and a step result
/// may relate to a starting state and a latched input. It restates exactly what
/// `ExecutionUnit::step` ensures. The relation is a function graph —
/// `lemma_step_determinism` proves that for one (state, input) pair at most one
/// (successor, result) pair satisfies it.
pub open spec fn step_rel<U: ExecutionUnit>(
    pre: U,
    input: Seq<bool>,
    post: U,
    r: Result<StepOutcome, String>,
) -> bool {
    match r {
        Ok(o) => {
            &&& !pre.spec_faults(input)
            &&& o.cycles == pre.spec_cycles(input)
            &&& o.cycles >= 1
            &&& o.writes@ == pre.spec_writes(input)
            &&& o.boundary == pre.spec_boundary(input)
            &&& post == pre.spec_next(input)
        },
        Err(code) => {
            &&& pre.spec_faults(input)
            &&& code@ == pre.spec_fault_code(input)
            &&& post == pre
        },
    }
}

/// Determinism: two steps taken from identical states under identical latched
/// inputs agree on everything — the successor state, whether they fault, the
/// diagnostic code, the cycle cost, the emitted pixel stores, and the boundary
/// signal. This is what makes traces reproducible and save states possible.
pub proof fn lemma_step_determinism<U: ExecutionUnit>(
    pre: U,
    input: Seq<bool>,
    post1: U,
    post2: U,
    r1: Result<StepOutcome, String>,
    r2: Result<StepOutcome, String>,
)
    requires
        step_rel(pre, input, post1, r1),
        step_rel(pre, input, post2, r2),
    ensures
        post1 == post2,
        r1 is Ok <==> r2 is Ok,
        (match (r1, r2) {
            (Ok(o1), Ok(o2)) => o1.cycles == o2.cycles && o1.writes@ == o2.writes@
                && o1.boundary == o2.boundary,
            (Err(c1), Err(c2)) => c1@ == c2@,
            _ => true,
        }),
{
}

} // verus!
