use vstd::prelude::*;
use crate::execution::ExecutionUnit;
use crate::execution::StepOutcome;
use crate::framebuffer::PixelWrite;
use crate::input::InputLatch;
use crate::input::spec_pressed;

verus! {

/// One scripted action: the cycle cost of the step (a cost of zero is charged
/// as one cycle — every step costs at least one), at most one pixel store,
/// optionally gated on a latched input being held, a frame-boundary signal, and
/// optionally a fault with its diagnostic code.
pub struct Op {
    pub cost: u32,
    pub write: Option<PixelWrite>,
    pub gate: Option<usize>,
    pub boundary: bool,
    pub fault: Option<String>,
}

/// A data-driven execution unit: it performs the ops of a fixed program one per
/// step, in order, and idles (one cycle, no effect) once the program is
/// exhausted. It stands in for a machine-specific instruction interpreter and
/// exercises every part of the step contract: costs, pixel stores, input
/// gating, boundary signals and faults.
pub struct ScriptedUnit {
    pub program: Vec<Op>,
    pub pc: usize,
}

/// The cycle cost charged for a scripted op: its stated cost, floored at one.
pub open spec fn charged(cost: u32) -> u32 {
    if cost == 0 {
        1u32
    } else {
        cost
    }
}

/// Whether an op's pixel store applies under the latched input: ungated stores
/// always do, a gated store only while its input is held.
pub open spec fn gate_open(gate: Option<usize>, input: Seq<bool>) -> bool {
    match gate {
        None => true,
        Some(id) => spec_pressed(input, id as int),
    }
}

impl ScriptedUnit {
    /// A unit at the start of its program.
    pub fn new(program: Vec<Op>) -> (r: ScriptedUnit)
        ensures
            r.wf(),
            r.program@ == program@,
            r.pc == 0,
            r == (ScriptedUnit { program, pc: 0usize }),
    {
        ScriptedUnit { program, pc: 0 }
    }
}

impl ExecutionUnit for ScriptedUnit {
    open spec fn wf(&self) -> bool {
        true
    }

    open spec fn spec_faults(&self, input: Seq<bool>) -> bool {
        self.pc < self.program@.len() && self.program@[self.pc as int].fault is Some
    }

    open spec fn spec_fault_code(&self, input: Seq<bool>) -> Seq<char> {
        if self.pc < self.program@.len() {
            match self.program@[self.pc as int].fault {
                Some(code) => code@,
                None => Seq::<char>::empty(),
            }
        } else {
            Seq::<char>::empty()
        }
    }

    open spec fn spec_cycles(&self, input: Seq<bool>) -> u32 {
        if self.pc < self.program@.len() {
            charged(self.program@[self.pc as int].cost)
        } else {
            1u32
        }
    }

    open spec fn spec_writes(&self, input: Seq<bool>) -> Seq<PixelWrite> {
        if self.pc < self.program@.len() {
            let op = self.program@[self.pc as int];
            match op.write {
                Some(w) => if gate_open(op.gate, input) {
                    seq![w]
                } else {
                    Seq::<PixelWrite>::empty()
                },
                None => Seq::<PixelWrite>::empty(),
            }
        } else {
            Seq::<PixelWrite>::empty()
        }
    }

    open spec fn spec_boundary(&self, input: Seq<bool>) -> bool {
        self.pc < self.program@.len() && self.program@[self.pc as int].boundary
    }

    open spec fn spec_next(&self, input: Seq<bool>) -> Self {
        if self.pc < self.program@.len() {
            ScriptedUnit { program: self.program, pc: (self.pc + 1) as usize }
        } else {
            ScriptedUnit { program: self.program, pc: self.pc }
        }
    }

    open spec fn power_on(&self) -> Self {
        ScriptedUnit { program: self.program, pc: 0usize }
    }

    proof fn cycles_at_least_one(&self, input: Seq<bool>) {
    }

    proof fn next_preserves_wf(&self, input: Seq<bool>) {
    }

    fn step(&mut self, input: &InputLatch) -> (r: Result<StepOutcome, String>) {
        if self.pc < self.program.len() {
            let op = &self.program[self.pc];
            match &op.fault {
                Some(code) => Err(code.clone()),
                None => {
                    let cycles: u32 = if op.cost == 0 {
                        1
                    } else {
                        op.cost
                    };
                    let mut writes: Vec<PixelWrite> = Vec::new();
                    match op.write {
                        Some(w) => {
                            let open_now: bool = match op.gate {
                                Some(id) => input.pressed(id),
                                None => true,
                            };
                            if open_now {
                                writes.push(w);
                            }
                        },
                        None => {},
                    }
                    proof {
                        assert(writes@ =~= self.spec_writes(input@));
                    }
                    let boundary: bool = op.boundary;
                    self.pc = self.pc + 1;
                    Ok(StepOutcome { cycles, writes, boundary })
                },
            }
        } else {
            Ok(StepOutcome { cycles: 1, writes: Vec::new(), boundary: false })
        }
    }

    fn reset(&mut self) {
        self.pc = 0;
    }
}

} // verus!
