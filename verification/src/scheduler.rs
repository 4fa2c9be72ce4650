use vstd::prelude::*;
use crate::errors::CoreError;
use crate::execution::ExecutionUnit;
use crate::framebuffer::Framebuffer;
use crate::framebuffer::PixelWrite;
use crate::framebuffer::apply_writes;
use crate::framebuffer::lemma_apply_writes_push;
use crate::framebuffer::lemma_apply_writes_concat;
use crate::input::InputLatch;

verus! {

/// What `init` is given: the per-frame cycle budget and the emulated
/// framebuffer dimensions, all fixed for the core's lifetime.
#[derive(Clone, Copy, Debug, PartialEq, Eq, Structural)]
pub struct Config {
    pub cycles_per_frame: u32,
    pub framebuffer_width: u32,
    pub framebuffer_height: u32,
}

/// What one completed frame reports: the cycles its steps consumed, and
/// whether it ended on an explicit frame-boundary signal rather than by budget
/// exhaustion.
#[derive(Clone, Copy, Debug, PartialEq, Eq, Structural)]
pub struct FrameResult {
    pub cycles_consumed: u64,
    pub boundary_reached: bool,
}

/// The mathematical run of one frame: what a budget of `remaining` cycles makes
/// of a unit under one latched input. `unit` is the state after the last fully
/// completed step; `consumed` the cycles of the completed steps; `writes` their
/// pixel stores in order; `boundary` whether the run ended on a boundary
/// signal; `fault` the diagnostic code when a step faulted (the run stops
/// there); `last_cost` the cost of the final completed step (how far one frame
/// can overshoot its budget); `inputs` the latched input each step observed.
pub struct FrameSpec<U> {
    pub unit: U,
    pub consumed: nat,
    pub boundary: bool,
    pub writes: Seq<PixelWrite>,
    pub fault: Option<Seq<char>>,
    pub last_cost: nat,
    pub inputs: Seq<Seq<bool>>,
}

/// Runs a unit under one latched input until the cycle budget is exhausted, a
/// boundary signal is raised, or a step faults — the scheduler's step loop, as
/// a function. A step that starts inside the budget always completes in full,
/// so the run may overshoot `remaining` by part of its final step's cost.
pub open spec fn spec_frame<U: ExecutionUnit>(u: U, input: Seq<bool>, remaining: nat) -> FrameSpec<U>
    decreases remaining,
{
    if remaining == 0 {
        FrameSpec {
            unit: u,
            consumed: 0,
            boundary: false,
            writes: Seq::<PixelWrite>::empty(),
            fault: None,
            last_cost: 0,
            inputs: Seq::<Seq<bool>>::empty(),
        }
    } else if u.spec_faults(input) {
        FrameSpec {
            unit: u,
            consumed: 0,
            boundary: false,
            writes: Seq::<PixelWrite>::empty(),
            fault: Some(u.spec_fault_code(input)),
            last_cost: 0,
            inputs: seq![input],
        }
    } else {
        let c = u.spec_cycles(input);
        let b = u.spec_boundary(input);
        let w = u.spec_writes(input);
        let u2 = u.spec_next(input);
        // `c == 0` only keeps the recursion well-founded: every unit proves
        // `cycles_at_least_one`, so the budget shrinks at every actual step
        if b || c >= remaining || c == 0 {
            FrameSpec {
                unit: u2,
                consumed: c as nat,
                boundary: b,
                writes: w,
                fault: None,
                last_cost: c as nat,
                inputs: seq![input],
            }
        } else {
            let rest = spec_frame(u2, input, (remaining - c) as nat);
            FrameSpec {
                unit: rest.unit,
                consumed: c as nat + rest.consumed,
                boundary: rest.boundary,
                writes: w + rest.writes,
                fault: rest.fault,
                last_cost: rest.last_cost,
                inputs: seq![input] + rest.inputs,
            }
        }
    }
}

/// A configuration `init` accepts: a positive cycle budget and positive
/// framebuffer dimensions whose pixel count a buffer on this machine can hold.
pub open spec fn config_valid(config: Config) -> bool {
    &&& config.cycles_per_frame >= 1
    &&& config.framebuffer_width >= 1
    &&& config.framebuffer_height >= 1
    &&& (config.framebuffer_width as int) * (config.framebuffer_height as int) <= usize::MAX as int
}

/// The execution core: the clock/scheduler state, the execution unit, and the
/// double-buffered framebuffer. All mutable emulator state lives inside this
/// one value; the host shell holds a single owned handle to it.
pub struct Core<U: ExecutionUnit> {
    unit: U,
    fb: Framebuffer,
    cycles_per_frame: u32,
    debt: u64,
    fault: Option<String>,
    total: Ghost<nat>,
    frames: Ghost<nat>,
}

impl<U: ExecutionUnit> Core<U> {
    /// The execution unit's current state.
    pub closed spec fn spec_unit(&self) -> U {
        self.unit
    }

    /// The fixed per-frame cycle budget.
    pub closed spec fn spec_cycles_per_frame(&self) -> u32 {
        self.cycles_per_frame
    }

    /// The carry: cycles by which the last frame overshot its budget, owed
    /// against the next frame's budget so that long runs do not drift.
    pub closed spec fn spec_debt(&self) -> u64 {
        self.debt
    }

    /// The diagnostic code of the fault that halted the core, if one did. A
    /// halted core refuses to advance until it is reset.
    pub closed spec fn spec_halted(&self) -> Option<Seq<char>> {
        match self.fault {
            Some(code) => Some(code@),
            None => None,
        }
    }

    /// Cycles consumed by all completed frames since the last reset.
    pub closed spec fn spec_total(&self) -> nat {
        self.total@
    }

    /// Frames completed since the last reset.
    pub closed spec fn spec_frames(&self) -> nat {
        self.frames@
    }

    /// The front buffer: the last completed frame, row-major.
    pub closed spec fn spec_front(&self) -> Seq<u32> {
        self.fb.front_view()
    }

    /// The back buffer: the frame being written, row-major.
    pub closed spec fn spec_back(&self) -> Seq<u32> {
        self.fb.back_view()
    }

    /// The framebuffer width, fixed at construction.
    pub closed spec fn spec_width(&self) -> u32 {
        self.fb.spec_width()
    }

    /// The framebuffer height, fixed at construction.
    pub closed spec fn spec_height(&self) -> u32 {
        self.fb.spec_height()
    }

    /// The core's invariant, established by `init` and preserved by every
    /// operation.
    pub closed spec fn wf(&self) -> bool {
        &&& self.fb.wf()
        &&& self.unit.wf()
        &&& self.cycles_per_frame >= 1
        &&& self.debt <= u32::MAX as u64
    }

    /// This frame's effective budget: the fixed budget minus the carried debt.
    pub open spec fn budget_eff(&self) -> nat {
        if self.spec_debt() as int >= self.spec_cycles_per_frame() as int {
            0
        } else {
            (self.spec_cycles_per_frame() as int - self.spec_debt() as int) as nat
        }
    }

    /// The cycle account balances: the cycles consumed since reset equal the
    /// completed frames times the per-frame budget, plus the carried debt. It
    /// holds from `init` and `reset` on, and every frame that ends by budget
    /// exhaustion preserves it (`lemma_budget_conservation`).
    pub open spec fn conserved(&self) -> bool {
        self.spec_total() == self.spec_frames() * (self.spec_cycles_per_frame() as nat)
            + self.spec_debt() as nat
    }
}

/// The fixed shape shared by a core and its successors: the budget and the
/// framebuffer dimensions never change after `init`.
pub open spec fn same_shape<U: ExecutionUnit>(pre: Core<U>, post: Core<U>) -> bool {
    &&& post.spec_cycles_per_frame() == pre.spec_cycles_per_frame()
    &&& post.spec_width() == pre.spec_width()
    &&& post.spec_height() == pre.spec_height()
}

/// What `advance_frame` does, as one relation between the core before the
/// call, the latched input, the core after, and the result.
///
/// A halted core changes nothing and reports its fault again. Otherwise the
/// frame runs as `spec_frame` says. When a step faults, the completed steps'
/// stores stay in the back buffer, the buffers are not swapped (the host still
/// sees the last completed frame), the unit keeps the state of the last fully
/// completed step, and the core halts with the step's diagnostic code. When no
/// step faults, the frame's stores complete the back buffer, the buffers swap,
/// the consumed cycles settle the debt account, and the frame is reported.
pub open spec fn advance_rel<U: ExecutionUnit>(
    pre: Core<U>,
    input: Seq<bool>,
    post: Core<U>,
    r: Result<FrameResult, CoreError>,
) -> bool {
    match pre.spec_halted() {
        Some(code) => {
            &&& post == pre
            &&& (r matches Err(CoreError::ExecutionFault(c)) && c@ == code)
        },
        None => {
            let fs = spec_frame(pre.spec_unit(), input, pre.budget_eff());
            match fs.fault {
                Some(fcode) => {
                    &&& (r matches Err(CoreError::ExecutionFault(c)) && c@ == fcode)
                    &&& post.spec_unit() == fs.unit
                    &&& post.spec_front() == pre.spec_front()
                    &&& post.spec_back() == apply_writes(
                        pre.spec_back(),
                        pre.spec_width() as nat,
                        pre.spec_height() as nat,
                        fs.writes,
                    )
                    &&& post.spec_halted() == Some(fcode)
                    &&& post.spec_debt() == pre.spec_debt()
                    &&& post.spec_total() == pre.spec_total()
                    &&& post.spec_frames() == pre.spec_frames()
                    &&& same_shape(pre, post)
                },
                None => {
                    &&& (r matches Ok(fr) && fr.cycles_consumed as nat == fs.consumed
                        && fr.boundary_reached == fs.boundary)
                    &&& post.spec_unit() == fs.unit
                    &&& post.spec_front() == apply_writes(
                        pre.spec_back(),
                        pre.spec_width() as nat,
                        pre.spec_height() as nat,
                        fs.writes,
                    )
                    &&& post.spec_back() == pre.spec_front()
                    &&& post.spec_debt() as int == (
                        if pre.spec_debt() as int + fs.consumed >= pre.spec_cycles_per_frame() as int {
                            pre.spec_debt() as int + fs.consumed - pre.spec_cycles_per_frame() as int
                        } else {
                            0
                        })
                    &&& post.spec_total() == pre.spec_total() + fs.consumed
                    &&& post.spec_frames() == pre.spec_frames() + 1
                    &&& post.spec_halted() is None
                    &&& same_shape(pre, post)
                },
            }
        },
    }
}

/// Builds a core from a configuration and the machine-specific execution unit
/// chosen for it. A zero budget, a zero dimension, or a pixel count no buffer
/// on this machine can hold is rejected with `ConfigError` before any state is
/// created. A fresh core owes no debt, counts no frames, and both its buffers
/// hold the power-on color (zero) in every cell.
pub fn init<U: ExecutionUnit>(config: Config, unit: U) -> (r: Result<Core<U>, CoreError>)
    requires
        unit.wf(),
    ensures
        r is Ok <==> config_valid(config),
        (r matches Ok(core) ==> {
            &&& core.wf()
            &&& core.spec_unit() == unit
            &&& core.spec_cycles_per_frame() == config.cycles_per_frame
            &&& core.spec_width() == config.framebuffer_width
            &&& core.spec_height() == config.framebuffer_height
            &&& core.spec_front() == Seq::new(
                (config.framebuffer_width as nat) * (config.framebuffer_height as nat),
                |i: int| 0u32,
            )
            &&& core.spec_back() == Seq::new(
                (config.framebuffer_width as nat) * (config.framebuffer_height as nat),
                |i: int| 0u32,
            )
            &&& core.spec_debt() == 0
            &&& core.spec_halted() is None
            &&& core.spec_total() == 0
            &&& core.spec_frames() == 0
            &&& core.conserved()
        }),
        (r matches Err(e) ==> e is ConfigError),
{
    if config.cycles_per_frame >= 1 && config.framebuffer_width >= 1
        && config.framebuffer_height >= 1 {
        proof {
            assert((config.framebuffer_width as int) * (config.framebuffer_height as int)
                < 0x10000000000000000) by (nonlinear_arith)
                requires
                    config.framebuffer_width as int <= 0xffffffff,
                    config.framebuffer_height as int <= 0xffffffff,
            ;
        }
        let wide: u64 = (config.framebuffer_width as u64) * (config.framebuffer_height as u64);
        if wide <= usize::MAX as u64 {
            let fb = Framebuffer::new(config.framebuffer_width, config.framebuffer_height);
            Ok(Core {
                unit,
                fb,
                cycles_per_frame: config.cycles_per_frame,
                debt: 0,
                fault: None,
                total: Ghost(0),
                frames: Ghost(0),
            })
        } else {
            Err(CoreError::ConfigError)
        }
    } else {
        Err(CoreError::ConfigError)
    }
}

impl<U: ExecutionUnit> Core<U> {
    /// Advances the core by one frame under one latched input: steps the unit
    /// until the effective budget is spent or a boundary signal arrives, stores
    /// the emitted pixels into the back buffer, swaps the buffers exactly once,
    /// and settles the cycle account. On a step fault the frame aborts at once:
    /// no swap, no account change, and the core halts with the fault's code.
    #[verifier::loop_isolation(false)]
    pub fn advance_frame(&mut self, input: &InputLatch) -> (r: Result<FrameResult, CoreError>)
        requires
            old(self).wf(),
        ensures
            final(self).wf(),
            advance_rel(*old(self), input@, *final(self), r),
    {
        match &self.fault {
            Some(code) => {
                return Err(CoreError::ExecutionFault(code.clone()));
            },
            None => {},
        }

        let cpf64: u64 = self.cycles_per_frame as u64;
        let budget: u64 = if self.debt >= cpf64 {
            0
        } else {
            cpf64 - self.debt
        };
        let ghost u0 = self.unit;
        let ghost w_dim = self.fb.spec_width() as nat;
        let ghost h_dim = self.fb.spec_height() as nat;
        let ghost front0 = self.fb.front_view();
        let ghost back0 = self.fb.back_view();
        let ghost cpf0 = self.cycles_per_frame;
        let ghost debt0 = self.debt;
        let ghost total0 = self.total@;
        let ghost frames0 = self.frames@;
        let ghost fs0 = spec_frame(u0, input@, budget as nat);
        proof {
            assert(budget as nat == old(self).budget_eff());
        }

        let mut consumed: u64 = 0;
        let mut boundary: bool = false;
        let mut running: bool = true;
        let ghost mut done: Seq<PixelWrite> = Seq::<PixelWrite>::empty();
        proof {
            assert(Seq::<PixelWrite>::empty() + fs0.writes =~= fs0.writes);
        }

        while running
            invariant
                self.unit.wf(),
                self.fb.wf(),
                self.fb.spec_width() as nat == w_dim,
                self.fb.spec_height() as nat == h_dim,
                self.fb.front_view() == front0,
                self.fb.back_view() == apply_writes(back0, w_dim, h_dim, done),
                self.cycles_per_frame == cpf0,
                self.debt == debt0,
                self.fault is None,
                self.total@ == total0,
                self.frames@ == frames0,
                consumed <= budget + u32::MAX as u64,
                running ==> consumed <= budget,
                running ==> boundary == false,
                running ==> ({
                    let cur = spec_frame(self.unit, input@, (budget - consumed) as nat);
                    &&& fs0.unit == cur.unit
                    &&& fs0.consumed == consumed as nat + cur.consumed
                    &&& fs0.boundary == cur.boundary
                    &&& fs0.fault == cur.fault
                    &&& fs0.writes == done + cur.writes
                }),
                !running ==> {
                    &&& fs0.fault is None
                    &&& fs0.unit == self.unit
                    &&& fs0.consumed == consumed as nat
                    &&& fs0.boundary == boundary
                    &&& done == fs0.writes
                    &&& (budget == 0 ==> consumed == 0)
                },
            decreases (if running {
                budget + 1 - consumed
            } else {
                0int
            }),
        {
            if consumed >= budget {
                proof {
                    let cur = spec_frame(self.unit, input@, (budget - consumed) as nat);
                    assert((budget - consumed) as nat == 0);
                    assert(cur.consumed == 0);
                    assert(done + cur.writes =~= done);
                }
                running = false;
            } else {
                let ghost u_before = self.unit;
                let ghost rem: nat = (budget - consumed) as nat;
                let step_r = self.unit.step(input);
                match step_r {
                    Err(code) => {
                        proof {
                            let cur = spec_frame(u_before, input@, rem);
                            assert(cur.fault == Some(u_before.spec_fault_code(input@)));
                            assert(done + cur.writes =~= done);
                        }
                        self.fault = Some(code.clone());
                        return Err(CoreError::ExecutionFault(code));
                    },
                    Ok(o) => {
                        let ghost back_pre_step = self.fb.back_view();
                        let ghost done_pre_step = done;
                        let wn: usize = o.writes.len();
                        let mut i: usize = 0;
                        while i < wn
                            invariant
                                i <= wn,
                                wn == o.writes@.len(),
                                self.unit.wf(),
                                self.unit == u_before.spec_next(input@),
                                self.fb.wf(),
                                self.fb.spec_width() as nat == w_dim,
                                self.fb.spec_height() as nat == h_dim,
                                self.fb.front_view() == front0,
                                self.fb.back_view() == apply_writes(
                                    back_pre_step,
                                    w_dim,
                                    h_dim,
                                    o.writes@.take(i as int),
                                ),
                                self.cycles_per_frame == cpf0,
                                self.debt == debt0,
                                self.fault is None,
                                self.total@ == total0,
                                self.frames@ == frames0,
                            decreases wn - i,
                        {
                            let w = o.writes[i];
                            proof {
                                lemma_apply_writes_push(
                                    back_pre_step,
                                    w_dim,
                                    h_dim,
                                    o.writes@.take(i as int),
                                    w,
                                );
                                assert(o.writes@.take(i as int).push(w) =~= o.writes@.take(i as int + 1));
                            }
                            self.fb.put(w);
                            i = i + 1;
                        }
                        proof {
                            assert(o.writes@.take(wn as int) =~= o.writes@);
                            lemma_apply_writes_concat(back0, w_dim, h_dim, done, o.writes@);
                            done = done + o.writes@;
                        }
                        consumed = consumed + (o.cycles as u64);
                        if o.boundary || consumed >= budget {
                            boundary = o.boundary;
                            running = false;
                            proof {
                                let cur = spec_frame(u_before, input@, rem);
                                assert(cur.consumed == o.cycles as nat);
                                assert(cur.unit == u_before.spec_next(input@));
                                assert(cur.boundary == o.boundary);
                                assert(cur.writes == o.writes@);
                            }
                        } else {
                            proof {
                                let cur = spec_frame(u_before, input@, rem);
                                let rest = spec_frame(
                                    u_before.spec_next(input@),
                                    input@,
                                    (rem - o.cycles as nat) as nat,
                                );
                                assert(cur.consumed == o.cycles as nat + rest.consumed);
                                assert(cur.writes == o.writes@ + rest.writes);
                                assert((done_pre_step + o.writes@) + rest.writes
                                    =~= done_pre_step + (o.writes@ + rest.writes));
                                assert((budget - consumed) as nat == (rem - o.cycles as nat) as nat);
                            }
                        }
                    },
                }
            }
        }

        self.fb.swap();
        let sum: u64 = self.debt + consumed;
        if sum >= cpf64 {
            self.debt = sum - cpf64;
        } else {
            self.debt = 0;
        }
        proof {
            self.total = Ghost(total0 + consumed as nat);
            self.frames = Ghost(frames0 + 1);
            // the new debt never exceeds one step's cost and so stays within bounds
            if debt0 >= cpf0 as u64 {
                assert(consumed == 0);
            }
        }
        Ok(FrameResult { cycles_consumed: consumed, boundary_reached: boundary })
    }

    /// Reinitializes the execution unit and the cycle accounting to their
    /// power-on values and clears a halt. The framebuffer keeps its dimensions
    /// and its contents: reset does not resize or repaint it.
    pub fn reset(&mut self)
        requires
            old(self).wf(),
        ensures
            final(self).wf(),
            final(self).spec_unit() == old(self).spec_unit().power_on(),
            final(self).spec_debt() == 0,
            final(self).spec_halted() is None,
            final(self).spec_total() == 0,
            final(self).spec_frames() == 0,
            final(self).spec_front() == old(self).spec_front(),
            final(self).spec_back() == old(self).spec_back(),
            final(self).conserved(),
            same_shape(*old(self), *final(self)),
    {
        self.unit.reset();
        self.debt = 0;
        self.fault = None;
        proof {
            self.total = Ghost(0);
            self.frames = Ghost(0);
        }
    }

    /// Read-only view of the front buffer — the last completed frame — for the
    /// host to render.
    pub fn front_buffer(&self) -> (r: &Vec<u32>)
        ensures
            r@ == self.spec_front(),
    {
        self.fb.front()
    }

    /// The framebuffer width, as configured.
    pub fn width(&self) -> (r: u32)
        ensures
            r == self.spec_width(),
    {
        self.fb.width()
    }

    /// The framebuffer height, as configured.
    pub fn height(&self) -> (r: u32)
        ensures
            r == self.spec_height(),
    {
        self.fb.height()
    }

    /// The fixed per-frame cycle budget, as configured.
    pub fn frame_budget(&self) -> (r: u32)
        ensures
            r == self.spec_cycles_per_frame(),
    {
        self.cycles_per_frame
    }

    /// The cycles by which the last frame overshot its budget, owed against the
    /// next frame.
    pub fn debt(&self) -> (r: u64)
        ensures
            r == self.spec_debt(),
    {
        self.debt
    }

    /// Whether a fault has halted the core. A halted core refuses to advance
    /// until `reset`.
    pub fn is_halted(&self) -> (r: bool)
        ensures
            r == (self.spec_halted() is Some),
    {
        match &self.fault {
            Some(_) => true,
            None => false,
        }
    }
}

/// Budget conservation within one frame: a frame that ends by budget
/// exhaustion — no boundary signal, no fault — consumes at least its whole
/// remaining budget, and overshoots it by less than the cost of its final step
/// (a step that starts inside the budget completes in full; it is never split).
pub proof fn lemma_frame_budget<U: ExecutionUnit>(u: U, input: Seq<bool>, remaining: nat)
    ensures
        ({
            let fs = spec_frame(u, input, remaining);
            fs.fault is None && !fs.boundary ==> fs.consumed >= remaining
                && (fs.consumed > remaining ==> fs.consumed - remaining < fs.last_cost)
        }),
    decreases remaining,
{
    if remaining == 0 {
    } else if u.spec_faults(input) {
    } else {
        u.cycles_at_least_one(input);
        let c = u.spec_cycles(input);
        let b = u.spec_boundary(input);
        if b || c >= remaining || c == 0 {
        } else {
            lemma_frame_budget(u.spec_next(input), input, (remaining - c) as nat);
        }
    }
}

/// Budget conservation across frames: a frame that `advance_frame` completes
/// by budget exhaustion settles the cycle account exactly — the cycles
/// consumed since reset stay equal to the completed frames times the per-frame
/// budget plus the carried debt, and the new debt stays below the final step's
/// cost. Over N consecutive such frames the consumed cycles therefore total N
/// times the budget, give or take at most one step's cost.
pub proof fn lemma_budget_conservation<U: ExecutionUnit>(
    pre: Core<U>,
    input: Seq<bool>,
    post: Core<U>,
    r: Result<FrameResult, CoreError>,
)
    requires
        advance_rel(pre, input, post, r),
        pre.spec_halted() is None,
        (r matches Ok(fr) && !fr.boundary_reached),
    ensures
        post.spec_frames() == pre.spec_frames() + 1,
        (r matches Ok(fr) ==> {
            &&& post.spec_total() == pre.spec_total() + fr.cycles_consumed
            &&& pre.spec_debt() + fr.cycles_consumed >= pre.spec_cycles_per_frame()
            &&& post.spec_debt() == pre.spec_debt() + fr.cycles_consumed
                - pre.spec_cycles_per_frame()
        }),
        pre.conserved() ==> post.conserved(),
        ({
            let fs = spec_frame(pre.spec_unit(), input, pre.budget_eff());
            fs.consumed > pre.budget_eff() ==> post.spec_debt() < fs.last_cost
        }),
{
    let fs = spec_frame(pre.spec_unit(), input, pre.budget_eff());
    lemma_frame_budget(pre.spec_unit(), input, pre.budget_eff());
    if pre.conserved() {
        assert((pre.spec_frames() + 1) * (pre.spec_cycles_per_frame() as nat)
            == pre.spec_frames() * (pre.spec_cycles_per_frame() as nat)
                + pre.spec_cycles_per_frame() as nat) by (nonlinear_arith);
    }
}

/// Swap atomicity: the host never observes a partially written or partially
/// swapped frame. After a completed `advance_frame` the front buffer is the
/// previous back buffer with every pixel store of the whole frame applied, in
/// order; after a faulted one it is exactly the front buffer that the previous
/// completed frame left behind — the aborted frame's stores reached only the
/// hidden back buffer.
pub proof fn lemma_swap_atomicity<U: ExecutionUnit>(
    pre: Core<U>,
    input: Seq<bool>,
    post: Core<U>,
    r: Result<FrameResult, CoreError>,
)
    requires
        advance_rel(pre, input, post, r),
        pre.spec_halted() is None,
    ensures
        r is Ok ==> post.spec_front() == apply_writes(
            pre.spec_back(),
            pre.spec_width() as nat,
            pre.spec_height() as nat,
            spec_frame(pre.spec_unit(), input, pre.budget_eff()).writes,
        ),
        r is Err ==> post.spec_front() == pre.spec_front(),
{
}

/// Every step of a frame observes the one latch captured at the frame's start.
pub proof fn lemma_frame_inputs<U: ExecutionUnit>(u: U, input: Seq<bool>, remaining: nat)
    ensures
        forall|k: int|
            0 <= k < spec_frame(u, input, remaining).inputs.len()
                ==> #[trigger] spec_frame(u, input, remaining).inputs[k] == input,
    decreases remaining,
{
    if remaining == 0 {
    } else if u.spec_faults(input) {
    } else {
        let c = u.spec_cycles(input);
        let b = u.spec_boundary(input);
        if b || c >= remaining || c == 0 {
        } else {
            let rest = spec_frame(u.spec_next(input), input, (remaining - c) as nat);
            lemma_frame_inputs(u.spec_next(input), input, (remaining - c) as nat);
            assert forall|k: int|
                0 <= k < spec_frame(u, input, remaining).inputs.len()
                    implies #[trigger] spec_frame(u, input, remaining).inputs[k] == input by {
                if k > 0 {
                    assert((seq![input] + rest.inputs)[k] == rest.inputs[k - 1]);
                } else {
                    assert((seq![input] + rest.inputs)[0] == input);
                }
            }
        }
    }
}

/// Input stability: all steps of one frame read identical latch contents, even
/// if the host's live input changes mid-frame — the latch is captured once at
/// the frame boundary and never re-sampled.
pub proof fn lemma_input_stability<U: ExecutionUnit>(u: U, input: Seq<bool>, remaining: nat)
    ensures
        ({
            let observed = spec_frame(u, input, remaining).inputs;
            forall|j: int, k: int|
                0 <= j < observed.len() && 0 <= k < observed.len()
                    ==> observed[j] == observed[k]
        }),
{
    lemma_frame_inputs(u, input, remaining);
}

/// Determinism lifted to whole frames: `advance_rel` is a function graph, so
/// two `advance_frame` calls from identical cores under identical latches agree
/// on every observable — the unit state, both buffers, the cycle account, the
/// halt state, and the reported result.
pub proof fn lemma_advance_determinism<U: ExecutionUnit>(
    pre: Core<U>,
    input: Seq<bool>,
    post1: Core<U>,
    post2: Core<U>,
    r1: Result<FrameResult, CoreError>,
    r2: Result<FrameResult, CoreError>,
)
    requires
        advance_rel(pre, input, post1, r1),
        advance_rel(pre, input, post2, r2),
    ensures
        post1.spec_unit() == post2.spec_unit(),
        post1.spec_front() == post2.spec_front(),
        post1.spec_back() == post2.spec_back(),
        post1.spec_debt() == post2.spec_debt(),
        post1.spec_total() == post2.spec_total(),
        post1.spec_frames() == post2.spec_frames(),
        post1.spec_halted() == post2.spec_halted(),
        r1 is Ok <==> r2 is Ok,
        (match (r1, r2) {
            (Ok(f1), Ok(f2)) => f1 == f2,
            (Err(CoreError::ExecutionFault(c1)), Err(CoreError::ExecutionFault(c2))) => c1@ == c2@,
            _ => true,
        }),
{
}

} // verus!
