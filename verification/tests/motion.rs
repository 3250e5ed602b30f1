use jojo_server::motion::{plan_motion, run_plan, MotionPlan};
use jojo_server::mouse::{MouseDriver, MouseRead, MouseRecorder};

#[test]
fn move_pointer() {
    let mut mouse_driver = MouseDriver::new(MouseRecorder::new());

    mouse_driver.mouse_move_relative(50, 50);

    assert_eq!(*mouse_driver.into_inner().recorded(), vec![(50, 50)]);
}

#[test]
fn zero_sample_plans_nothing() {
    let plan = plan_motion(&MouseRead::new(0, 0));
    assert_eq!(plan.steps, Vec::new());
}

#[test]
fn diagonal_sample_plans_exact_steps() {
    let plan = plan_motion(&MouseRead::new(3, -2));
    assert_eq!(plan.steps, vec![(1, -1), (1, -1), (1, 0)]);
    assert_eq!(plan.step_delay_ms, 50);
}

#[test]
fn plan_sums_and_bounds_hold_on_a_large_sample() {
    let plan = plan_motion(&MouseRead::new(-37, 11));
    assert_eq!(plan.steps.len(), 37);
    let sum_x: i32 = plan.steps.iter().map(|s| s.0).sum();
    let sum_y: i32 = plan.steps.iter().map(|s| s.1).sum();
    assert_eq!(sum_x, -37);
    assert_eq!(sum_y, 11);
    assert!(plan
        .steps
        .iter()
        .all(|s| s.0.abs() <= 1 && s.1.abs() <= 1));
    assert_eq!(plan.step_delay_ms, 150 / 37);
}

#[test]
fn run_plan_injects_each_planned_step() {
    let plan = plan_motion(&MouseRead::new(4, 6));
    let expected = plan.steps.clone();
    let mut driver = MouseDriver::new(MouseRecorder::new());
    run_plan(&mut driver, &plan);
    let recorder = driver.into_inner();
    assert_eq!(*recorder.recorded(), expected);
    assert!(recorder.recorded_buttons().is_empty());
}

#[test]
fn run_plan_appends_after_earlier_moves() {
    let mut driver = MouseDriver::new(MouseRecorder::new());
    driver.mouse_move_relative(9, 9);
    let plan = MotionPlan {
        steps: vec![(0, 1), (0, 1)],
        step_delay_ms: 0,
    };
    run_plan(&mut driver, &plan);
    assert_eq!(*driver.into_inner().recorded(), vec![(9, 9), (0, 1), (0, 1)]);
}
