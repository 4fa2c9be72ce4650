use framecore::Config;
use framecore::Core;
use framecore::CoreError;
use framecore::InputLatch;
use framecore::Op;
use framecore::PixelWrite;
use framecore::ScriptedUnit;
use framecore::init;

fn op(cost: u32) -> Op {
    Op { cost, write: None, gate: None, boundary: false, fault: None }
}

fn op_write(cost: u32, x: u32, y: u32, color: u32) -> Op {
    Op { cost, write: Some(PixelWrite { x, y, color }), gate: None, boundary: false, fault: None }
}

fn core_4x4(cycles_per_frame: u32, program: Vec<Op>) -> Core<ScriptedUnit> {
    let config = Config { cycles_per_frame, framebuffer_width: 4, framebuffer_height: 4 };
    init(config, ScriptedUnit::new(program)).unwrap()
}

fn released() -> InputLatch {
    InputLatch::released()
}

#[test]
fn stub_frame_scenario() {
    // A stub unit that writes 0xFF000000 to (0,0) and costs 10 cycles per step,
    // under a budget of 100 on a 4x4 framebuffer: one frame consumes exactly
    // 100 cycles and leaves every other pixel at the power-on default.
    let mut program = Vec::new();
    for _ in 0..10 {
        program.push(op_write(10, 0, 0, 0xFF000000));
    }
    let mut core = core_4x4(100, program);
    assert_eq!(core.width(), 4);
    assert_eq!(core.height(), 4);
    let fr = core.advance_frame(&released()).unwrap();
    assert_eq!(fr.cycles_consumed, 100);
    assert!(!fr.boundary_reached);
    let front = core.front_buffer();
    assert_eq!(front.len(), 16);
    assert_eq!(front[0], 0xFF000000);
    for i in 1..16 {
        assert_eq!(front[i], 0);
    }
}

#[test]
fn fault_preserves_previous_frame() {
    // Frame one paints (1,1); frame two faults on its fifth step. The fault is
    // reported with its diagnostic code and the front buffer still shows frame
    // one: nothing of the aborted frame is visible.
    let mut program = Vec::new();
    for _ in 0..10 {
        program.push(op_write(10, 1, 1, 0xAB));
    }
    for _ in 0..4 {
        program.push(op_write(1, 0, 0, 0xCC));
    }
    program.push(Op {
        cost: 1,
        write: None,
        gate: None,
        boundary: false,
        fault: Some(String::from("illegal-op")),
    });
    let mut core = core_4x4(100, program);
    let fr = core.advance_frame(&released()).unwrap();
    assert_eq!(fr.cycles_consumed, 100);
    assert_eq!(core.front_buffer()[4 * 1 + 1], 0xAB);

    let err = core.advance_frame(&released()).unwrap_err();
    assert_eq!(err, CoreError::ExecutionFault(String::from("illegal-op")));
    assert!(core.is_halted());
    // the front buffer still reflects the previous completed frame
    assert_eq!(core.front_buffer()[4 * 1 + 1], 0xAB);
    assert_eq!(core.front_buffer()[0], 0);
}

#[test]
fn halted_core_needs_reset() {
    let program = vec![Op {
        cost: 1,
        write: None,
        gate: None,
        boundary: false,
        fault: Some(String::from("halt")),
    }];
    let mut core = core_4x4(10, program);
    let first = core.advance_frame(&released()).unwrap_err();
    assert_eq!(first, CoreError::ExecutionFault(String::from("halt")));
    // a halted core reports the same fault again and changes nothing
    let again = core.advance_frame(&released()).unwrap_err();
    assert_eq!(again, CoreError::ExecutionFault(String::from("halt")));
    assert!(core.is_halted());
    core.reset();
    assert!(!core.is_halted());
    // after reset the program restarts from its first op and faults afresh
    let after = core.advance_frame(&released()).unwrap_err();
    assert_eq!(after, CoreError::ExecutionFault(String::from("halt")));
}

#[test]
fn reset_restores_power_on() {
    // Two frames leave a nonzero debt and a mid-program unit; reset returns the
    // cycle accounting to zero and the unit to its power-on state, while the
    // framebuffer keeps its dimensions.
    let mut program = Vec::new();
    for _ in 0..30 {
        program.push(op(7));
    }
    let mut core = core_4x4(10, program);
    let fr1 = core.advance_frame(&released()).unwrap();
    assert_eq!(fr1.cycles_consumed, 14);
    assert_eq!(core.debt(), 4);
    let fr2 = core.advance_frame(&released()).unwrap();
    assert_eq!(fr2.cycles_consumed, 7);
    assert_eq!(core.debt(), 1);

    core.reset();
    assert_eq!(core.debt(), 0);
    assert!(!core.is_halted());
    assert_eq!(core.width(), 4);
    assert_eq!(core.height(), 4);
    // the restarted run reproduces the first frame exactly
    let fr = core.advance_frame(&released()).unwrap();
    assert_eq!(fr.cycles_consumed, 14);
    assert_eq!(core.debt(), 4);
}

#[test]
fn budget_conservation_across_frames() {
    // Steps of cost 7 under a budget of 10: each frame overshoots and the
    // carry keeps the long-run total pinned to frames * budget + debt.
    let mut program = Vec::new();
    for _ in 0..30 {
        program.push(op(7));
    }
    let mut core = core_4x4(10, program);
    let mut total: u64 = 0;
    let mut frames: u64 = 0;
    let expected = [(14u64, 4u64), (7, 1), (14, 5), (7, 2), (14, 6)];
    for (consumed, debt) in expected {
        let fr = core.advance_frame(&released()).unwrap();
        assert_eq!(fr.cycles_consumed, consumed);
        assert_eq!(core.debt(), debt);
        total += fr.cycles_consumed;
        frames += 1;
        assert_eq!(total, frames * 10 + core.debt());
    }
}

#[test]
fn boundary_ends_frame_early() {
    let program = vec![op(3), op(3), Op {
        cost: 3,
        write: None,
        gate: None,
        boundary: true,
        fault: None,
    }, op(3)];
    let mut core = core_4x4(100, program);
    let fr = core.advance_frame(&released()).unwrap();
    assert!(fr.boundary_reached);
    assert_eq!(fr.cycles_consumed, 9);
    // an early boundary leaves no debt: the unspent budget is simply dropped
    assert_eq!(core.debt(), 0);
    // the next frame resumes after the boundary op
    let fr2 = core.advance_frame(&released()).unwrap();
    assert!(!fr2.boundary_reached);
    assert_eq!(fr2.cycles_consumed, 100);
}

fn expect_config_error(config: Config) {
    match init(config, ScriptedUnit::new(Vec::new())) {
        Ok(_) => panic!("an invalid configuration was accepted"),
        Err(e) => assert_eq!(e, CoreError::ConfigError),
    }
}

#[test]
fn getters_report_configuration() {
    let core = core_4x4(42, Vec::new());
    assert_eq!(core.frame_budget(), 42);
    assert_eq!(core.width(), 4);
    assert_eq!(core.height(), 4);
    assert_eq!(core.debt(), 0);
    assert!(!core.is_halted());
}

#[test]
fn init_rejects_bad_config() {
    expect_config_error(Config { cycles_per_frame: 0, framebuffer_width: 4, framebuffer_height: 4 });
    expect_config_error(Config { cycles_per_frame: 10, framebuffer_width: 0, framebuffer_height: 4 });
    expect_config_error(Config { cycles_per_frame: 10, framebuffer_width: 4, framebuffer_height: 0 });
}

#[test]
fn step_determinism_between_clones() {
    // Identical unit states under identical latches: two cores walk the same
    // program and agree on every report and every pixel.
    let build = || {
        let mut program = Vec::new();
        program.push(op_write(4, 2, 3, 0x11));
        program.push(Op {
            cost: 5,
            write: Some(PixelWrite { x: 1, y: 0, color: 0x22 }),
            gate: Some(0),
            boundary: false,
            fault: None,
        });
        program.push(op(6));
        core_4x4(12, program)
    };
    let mut core_one = build();
    let mut core_two = build();
    let latch_one = InputLatch::capture(&vec![true, false]);
    let latch_two = InputLatch::capture(&vec![true, false]);
    let fr_one = core_one.advance_frame(&latch_one).unwrap();
    let fr_two = core_two.advance_frame(&latch_two).unwrap();
    assert_eq!(fr_one, fr_two);
    assert_eq!(core_one.front_buffer(), core_two.front_buffer());
    assert_eq!(core_one.debt(), core_two.debt());
}

fn gated_op() -> Op {
    Op {
        cost: 10,
        write: Some(PixelWrite { x: 0, y: 0, color: 0x77 }),
        gate: Some(2),
        boundary: false,
        fault: None,
    }
}

#[test]
fn gated_write_follows_latch() {
    let mut held = core_4x4(10, vec![gated_op()]);
    let fr = held.advance_frame(&InputLatch::capture(&vec![false, false, true])).unwrap();
    assert_eq!(fr.cycles_consumed, 10);
    assert_eq!(held.front_buffer()[0], 0x77);

    let mut loose = core_4x4(10, vec![gated_op()]);
    loose.advance_frame(&InputLatch::capture(&vec![false, false, false])).unwrap();
    assert_eq!(loose.front_buffer()[0], 0);
}

#[test]
fn out_of_range_store_is_discarded() {
    // A store outside the 4x4 grid is dropped; the frame still completes and
    // no cell is corrupted.
    let program = vec![op_write(10, 9, 9, 0xEE)];
    let mut core = core_4x4(10, program);
    let fr = core.advance_frame(&released()).unwrap();
    assert_eq!(fr.cycles_consumed, 10);
    for i in 0..16 {
        assert_eq!(core.front_buffer()[i], 0);
    }
}

#[test]
fn idle_unit_consumes_exact_budget() {
    // An exhausted program idles at one cycle per step: every frame consumes
    // exactly the budget and carries no debt.
    let mut core = core_4x4(25, Vec::new());
    for _ in 0..3 {
        let fr = core.advance_frame(&released()).unwrap();
        assert_eq!(fr.cycles_consumed, 25);
        assert!(!fr.boundary_reached);
        assert_eq!(core.debt(), 0);
    }
}

#[test]
fn large_step_carries_debt_forward() {
    // One 25-cycle step under a budget of 10: the overshoot starves the next
    // frame entirely, then shrinks, so the long-run rate stays at the budget.
    let program = vec![op(25)];
    let mut core = core_4x4(10, program);
    let fr1 = core.advance_frame(&released()).unwrap();
    assert_eq!(fr1.cycles_consumed, 25);
    assert_eq!(core.debt(), 15);
    let fr2 = core.advance_frame(&released()).unwrap();
    assert_eq!(fr2.cycles_consumed, 0);
    assert_eq!(core.debt(), 5);
    let fr3 = core.advance_frame(&released()).unwrap();
    assert_eq!(fr3.cycles_consumed, 5);
    assert_eq!(core.debt(), 0);
}

#[test]
fn zero_cost_op_is_charged_one_cycle() {
    let program = vec![op(0), op(0)];
    let mut core = core_4x4(2, program);
    let fr = core.advance_frame(&released()).unwrap();
    assert_eq!(fr.cycles_consumed, 2);
    assert_eq!(core.debt(), 0);
}
