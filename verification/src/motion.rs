//! Motion smoothing: one coarse displacement sample becomes a timed
//! sequence of unit steps, spread evenly over a fixed pacing window, so
//! a large sample never lands as a single visible jump.

use vstd::prelude::*;

use crate::mouse::{MouseAdapter, MouseDriver, MouseRead};

verus! {

/// The pacing budget for one displacement sample, in milliseconds: the
/// steps of a sample are spread evenly across this window.
pub const MOTION_WINDOW_MILLIS: u64 = 150;

pub open spec fn spec_abs(v: int) -> int {
    if v < 0 {
        -v
    } else {
        v
    }
}

pub open spec fn spec_sign(v: int) -> int {
    if v < 0 {
        -1int
    } else if v > 0 {
        1int
    } else {
        0int
    }
}

pub open spec fn spec_max(a: int, b: int) -> int {
    if a >= b {
        a
    } else {
        b
    }
}

pub open spec fn spec_min(a: int, b: int) -> int {
    if a <= b {
        a
    } else {
        b
    }
}

/// The step the scheduler takes at position `j` of a plan for
/// `(dx, dy)`: diagonal while both axes have budget left, then the
/// surplus axis alone.
pub open spec fn spec_motion_step(dx: int, dy: int, j: int) -> (int, int) {
    if j < spec_min(spec_abs(dx), spec_abs(dy)) {
        (spec_sign(dx), spec_sign(dy))
    } else if spec_abs(dx) >= spec_abs(dy) {
        (spec_sign(dx), 0)
    } else {
        (0, spec_sign(dy))
    }
}

/// Sum of the horizontal movement over a step sequence.
pub open spec fn sum_x(s: Seq<(i32, i32)>) -> int
    decreases s.len(),
{
    if s.len() == 0 {
        0
    } else {
        sum_x(s.drop_last()) + s.last().0
    }
}

/// Sum of the vertical movement over a step sequence.
pub open spec fn sum_y(s: Seq<(i32, i32)>) -> int
    decreases s.len(),
{
    if s.len() == 0 {
        0
    } else {
        sum_y(s.drop_last()) + s.last().1
    }
}

/// What a smoothed plan for the displacement `(dx, dy)` must look like:
/// exactly `max(|dx|, |dy|)` steps, no step moving more than one unit on
/// either axis, and the steps adding up to exactly `(dx, dy)`.
pub open spec fn motion_steps_ok(s: Seq<(i32, i32)>, dx: int, dy: int) -> bool {
    &&& s.len() == spec_max(spec_abs(dx), spec_abs(dy))
    &&& sum_x(s) == dx
    &&& sum_y(s) == dy
    &&& forall|i: int|
        0 <= i < s.len() ==> -1 <= (#[trigger] s[i]).0 <= 1 && -1 <= s[i].1 <= 1
}

/// A smoothed sample: the unit steps to inject, and the pause between
/// two steps.
#[derive(Debug, Clone, PartialEq, Eq)]
pub struct MotionPlan {
    pub steps: Vec<(i32, i32)>,
    pub step_delay_ms: u64,
}

/// Turn one displacement sample into its smoothed plan. A zero sample
/// plans nothing; otherwise the deficient axis stops stepping once its
/// budget is exhausted, so steps are diagonal while both axes have
/// budget left.
pub fn plan_motion(read: &MouseRead) -> (plan: MotionPlan)
    ensures
        motion_steps_ok(plan.steps@, read.spec_x() as int, read.spec_y() as int),
        forall|j: int|
            0 <= j < plan.steps@.len() ==> (((#[trigger] plan.steps@[j]).0 as int,
            plan.steps@[j].1 as int)) == spec_motion_step(
                read.spec_x() as int,
                read.spec_y() as int,
                j,
            ),
        plan.steps@.len() > 0 ==> plan.step_delay_ms == MOTION_WINDOW_MILLIS as int / plan.steps@.len() as int,
{
    let x = read.x_read();
    let y = read.y_read();
    let xa: i64 = if x >= 0 {
        x as i64
    } else {
        -(x as i64)
    };
    let ya: i64 = if y >= 0 {
        y as i64
    } else {
        -(y as i64)
    };
    let xs: i32 = if x > 0 {
        1
    } else if x < 0 {
        -1
    } else {
        0
    };
    let ys: i32 = if y > 0 {
        1
    } else if y < 0 {
        -1
    } else {
        0
    };
    let n: i64 = if xa >= ya {
        xa
    } else {
        ya
    };
    let step_delay_ms: u64 = if n > 0 {
        MOTION_WINDOW_MILLIS / (n as u64)
    } else {
        0
    };
    let mut xr: i64 = xa;
    let mut yr: i64 = ya;
    let mut steps: Vec<(i32, i32)> = Vec::new();
    while xr > 0 || yr > 0
        invariant
            0 <= xr <= xa,
            0 <= yr <= ya,
            xa == spec_abs(x as int),
            ya == spec_abs(y as int),
            xs == spec_sign(x as int),
            ys == spec_sign(y as int),
            steps@.len() == spec_max(xa as int, ya as int) - spec_max(xr as int, yr as int),
            if x >= 0 {
                sum_x(steps@) == x - xr
            } else {
                sum_x(steps@) == x + xr
            },
            if y >= 0 {
                sum_y(steps@) == y - yr
            } else {
                sum_y(steps@) == y + yr
            },
            steps@.len() <= spec_min(xa as int, ya as int) ==> xr == xa - steps@.len() && yr
                == ya - steps@.len(),
            steps@.len() > spec_min(xa as int, ya as int) && xa >= ya ==> yr == 0 && xr == xa
                - steps@.len(),
            steps@.len() > spec_min(xa as int, ya as int) && xa < ya ==> xr == 0 && yr == ya
                - steps@.len(),
            forall|i: int|
                0 <= i < steps@.len() ==> (((#[trigger] steps@[i]).0 as int, steps@[i].1 as int))
                    == spec_motion_step(x as int, y as int, i),
            forall|i: int|
                0 <= i < steps@.len() ==> -1 <= (#[trigger] steps@[i]).0 <= 1 && -1 <= steps@[i].1
                    <= 1,
        decreases xr + yr,
    {
        let ghost prev = steps@;
        let ghost k = steps@.len() as int;
        let step: (i32, i32) = if xr == 0 {
            proof {
                assert(k >= spec_min(xa as int, ya as int));
                assert((xa as int) < ya as int);
            }
            yr = yr - 1;
            (0, ys)
        } else if yr == 0 {
            proof {
                assert(k >= spec_min(xa as int, ya as int));
                assert((xa as int) >= ya as int);
            }
            xr = xr - 1;
            (xs, 0)
        } else {
            proof {
                assert(k < spec_min(xa as int, ya as int));
            }
            xr = xr - 1;
            yr = yr - 1;
            (xs, ys)
        };
        steps.push(step);
        proof {
            assert(steps@.drop_last() == prev);
            assert(((steps@[k].0 as int, steps@[k].1 as int)) == spec_motion_step(
                x as int,
                y as int,
                k,
            ));
        }
    }
    MotionPlan { steps, step_delay_ms }
}

/// Run a smoothed plan against the mouse back-end: inject each unit
/// step in order, pausing between steps. The back-end observes exactly
/// the planned steps, after everything it had already observed, and no
/// button press or release.
pub fn run_plan<A: MouseAdapter>(driver: &mut MouseDriver<A>, plan: &MotionPlan)
    ensures
        final(driver).button_events() == old(driver).button_events(),
        final(driver).moves().len() == old(driver).moves().len() + plan.steps@.len(),
        forall|j: int|
            0 <= j < old(driver).moves().len() ==> #[trigger] final(driver).moves()[j] == old(
                driver,
            ).moves()[j],
        forall|j: int|
            0 <= j < plan.steps@.len() ==> final(driver).moves()[old(driver).moves().len() + j]
                == (((#[trigger] plan.steps@[j]).0 as int, plan.steps@[j].1 as int)),
{
    let n = plan.steps.len();
    let mut i: usize = 0;
    while i < n
        invariant
            i <= n,
            n == plan.steps@.len(),
            driver.button_events() == old(driver).button_events(),
            driver.moves().len() == old(driver).moves().len() + i,
            forall|j: int|
                0 <= j < old(driver).moves().len() ==> #[trigger] driver.moves()[j] == old(
                    driver,
                ).moves()[j],
            forall|j: int|
                0 <= j < i ==> driver.moves()[old(driver).moves().len() + j] == ((
                (#[trigger] plan.steps@[j]).0 as int,
                plan.steps@[j].1 as int,
                )),
        decreases n - i,
    {
        let step: &(i32, i32) = &plan.steps[i];
        driver.mouse_move_relative(step.0, step.1);
        pace(plan.step_delay_ms);
        i += 1;
    }
}

/// Relies on `spin_sleep::sleep` to pause the calling thread for the
/// given number of milliseconds; nothing is claimed of it.
#[verifier::external_body]
fn pace(millis: u64) {
    spin_sleep::sleep(core::time::Duration::from_millis(millis));
}

} // verus!
