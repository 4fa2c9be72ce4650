use vstd::prelude::*;

verus! {

/// A snapshot of the host's input state, sampled once at a frame boundary: one
/// boolean per logical input identifier (index). The latch is immutable for the
/// whole frame; every step of the frame reads this snapshot, never the live
/// host state, so one frame observes one consistent input instant.
pub struct InputLatch {
    buttons: Vec<bool>,
}

impl View for InputLatch {
    type V = Seq<bool>;

    closed spec fn view(&self) -> Seq<bool> {
        self.buttons@
    }
}

/// Whether logical input `id` is held in the latched state `latch`; an
/// identifier outside the latch reads as released.
pub open spec fn spec_pressed(latch: Seq<bool>, id: int) -> bool {
    0 <= id < latch.len() && latch[id]
}

impl InputLatch {
    /// Captures the host-reported input state as a pure snapshot: the host's
    /// values are copied, never aliased, so later host changes cannot reach a
    /// frame already underway.
    pub fn capture(host_input: &Vec<bool>) -> (r: InputLatch)
        ensures
            r@ == host_input@,
    {
        let mut buttons: Vec<bool> = Vec::new();
        let mut i: usize = 0;
        while i < host_input.len()
            invariant
                i <= host_input.len(),
                buttons@ == host_input@.take(i as int),
            decreases host_input.len() - i,
        {
            buttons.push(host_input[i]);
            i = i + 1;
            proof {
                assert(buttons@ =~= host_input@.take(i as int));
            }
        }
        proof {
            assert(host_input@.take(host_input@.len() as int) =~= host_input@);
        }
        InputLatch { buttons }
    }

    /// An empty latch: no logical input is held.
    pub fn released() -> (r: InputLatch)
        ensures
            r@ == Seq::<bool>::empty(),
    {
        InputLatch { buttons: Vec::new() }
    }

    /// Whether logical input `id` is held in this snapshot.
    pub fn pressed(&self, id: usize) -> (r: bool)
        ensures
            r == spec_pressed(self@, id as int),
    {
        id < self.buttons.len() && self.buttons[id]
    }

    /// How many logical inputs the snapshot covers.
    pub fn len(&self) -> (r: usize)
        ensures
            r == self@.len(),
    {
        self.buttons.len()
    }
}

} // verus!
