//! Per-pot watering schedules: a list of weight goals, each held for a dwell time.
//!
//! Weights are in thousandths of a gram and times in milliseconds. The caller reads
//! the clock and hands the reading in.

use vstd::prelude::*;

verus! {

/// One gram, in the unit in which schedules hold weights.
pub const GRAM: i64 = 1000;

/// Why a schedule could not be built or advanced.
#[derive(Debug)]
pub enum WateringScheduleError {
    CreationError(String),
    /// The clock reading lies before the start of the current step.
    TimeError,
}

/// One goal of a schedule: a target weight that is held for `time` milliseconds.
#[derive(Debug, Clone, Copy)]
pub struct WateringScheduleStep {
    pub weight: i64,
    pub time: u64,
    pub weight_treshold: i64,
    pub max_weight_difference: Option<i64>,
}

impl WateringScheduleStep {
    /// The tolerances are not negative, and the goal band is wider than the threshold
    /// less one gram, so that the goal can be reached.
    pub open spec fn valid_tolerances(weight_treshold: i64, max_weight_difference: Option<i64>) -> bool {
        &&& weight_treshold >= 0
        &&& max_weight_difference matches Some(m) ==> m >= 0 && weight_treshold - GRAM < m
    }

    /// The tolerances of the step are valid.
    pub open spec fn wf(self) -> bool {
        Self::valid_tolerances(self.weight_treshold, self.max_weight_difference)
    }

    /// Why tolerances that are not valid are refused.
    pub open spec fn refusal(weight_treshold: i64, max_weight_difference: Option<i64>) -> Seq<
        char,
    > {
        if weight_treshold < 0 {
            "weight_treshold should not be negative"@
        } else if max_weight_difference matches Some(m) && m < 0 {
            "max_weight_difference should not be negative"@
        } else {
            "weight_treshold less one gram should be smaller than max_weight_difference"@
        }
    }

    /// The weights that count as "at the goal" where the step has a goal band.
    pub open spec fn in_band(self, band: i64, weight: i64) -> bool {
        self.weight - band <= weight <= self.weight + band
    }

    /// Builds a step, refusing tolerances with which the goal could never be reached.
    pub fn new(
        weight: i64,
        time: u64,
        weight_treshold: i64,
        max_weight_difference: Option<i64>,
    ) -> (r: Result<WateringScheduleStep, WateringScheduleError>)
        ensures
            r.is_ok() <==> Self::valid_tolerances(weight_treshold, max_weight_difference),
            r matches Ok(s) ==> s.wf() && s == (WateringScheduleStep {
                weight,
                time,
                weight_treshold,
                max_weight_difference,
            }),
            r matches Err(e) ==> e matches WateringScheduleError::CreationError(m) && m@
                == Self::refusal(weight_treshold, max_weight_difference),
    {
        if weight_treshold < 0 {
            return Err(
                WateringScheduleError::CreationError(
                    "weight_treshold should not be negative".to_owned(),
                ),
            );
        }
        match max_weight_difference {
            None => {},
            Some(m) => {
                if m < 0 {
                    return Err(
                        WateringScheduleError::CreationError(
                            "max_weight_difference should not be negative".to_owned(),
                        ),
                    );
                }
                if weight_treshold - GRAM >= m {
                    return Err(
                        WateringScheduleError::CreationError(
                            "weight_treshold less one gram should be smaller than max_weight_difference"
                                .to_owned(),
                        ),
                    );
                }
            },
        }
        Ok(WateringScheduleStep { weight, time, weight_treshold, max_weight_difference })
    }
}

/// What a schedule holds, as plain values.
pub struct ScheduleState {
    pub steps: Seq<WateringScheduleStep>,
    pub cyclic: bool,
    pub curr_step: nat,
    pub last_step_init_time: u64,
    pub last_steps_weight: Option<i64>,
    pub n_cycles: usize,
}

impl ScheduleState {
    /// The cursor points at a step, or at 0 where there is none.
    pub open spec fn wf(self) -> bool {
        if self.steps.len() == 0 {
            self.curr_step == 0
        } else {
            self.curr_step < self.steps.len()
        }
    }

    /// The schedule has no steps: it is always satisfied and never waters.
    pub open spec fn null_schedule(self) -> bool {
        self.steps.len() == 0
    }

    /// The step at which the cursor points.
    pub open spec fn step(self) -> WateringScheduleStep {
        self.steps[self.curr_step as int]
    }

    /// The weight `weight` satisfies the current goal.
    ///
    /// With a goal band, the weight must lie in it. Without one, the goal is approached
    /// from the weight recorded when the step began: from below where the target lies
    /// above that weight, from above where it lies below. A schedule that has run through
    /// once and does not repeat keeps its last target from below.
    ///
    /// The direction is taken from `last_steps_weight`, the weight that the pot had when
    /// the step began, and not from the target of the step before: a pot that has not
    /// reached the target of one step is still led the right way in the next.
    pub open spec fn in_goal(self, weight: i64) -> bool {
        if self.null_schedule() {
            true
        } else {
            let step = self.step();
            match step.max_weight_difference {
                Some(band) => step.in_band(band, weight),
                None => match self.last_steps_weight {
                    None => false,
                    Some(last) => if !self.cyclic && self.n_cycles >= 1 {
                        weight >= step.weight - step.weight_treshold
                    } else if step.weight > last {
                        weight >= step.weight - step.weight_treshold
                    } else if step.weight < last {
                        weight <= step.weight - step.weight_treshold
                    } else {
                        true
                    },
                },
            }
        }
    }

    /// The pot should be watered now: the goal is not met and lies above `weight`.
    pub open spec fn should_water(self, weight: i64) -> bool {
        !self.null_schedule() && !self.in_goal(weight) && self.step().weight > weight
    }

    /// The target weight of the current step.
    pub open spec fn current_goal(self) -> Option<i64> {
        if self.null_schedule() {
            None
        } else {
            Some(self.step().weight)
        }
    }

    /// The state after the cursor has moved on at time `now` with the pot at `weight`.
    ///
    /// Past the last step a cyclic schedule starts over and counts one more cycle (the
    /// count stops at `usize::MAX`); another stays on its last step with a count of 1.
    pub open spec fn next_step(self, weight: i64, now: u64) -> ScheduleState {
        if self.null_schedule() {
            self
        } else if self.curr_step + 1 < self.steps.len() {
            ScheduleState {
                curr_step: self.curr_step + 1,
                last_step_init_time: now,
                last_steps_weight: Some(weight),
                ..self
            }
        } else if self.cyclic {
            ScheduleState {
                curr_step: 0,
                n_cycles: if self.n_cycles < usize::MAX {
                    (self.n_cycles + 1) as usize
                } else {
                    self.n_cycles
                },
                last_step_init_time: now,
                last_steps_weight: Some(weight),
                ..self
            }
        } else {
            ScheduleState {
                curr_step: (self.steps.len() - 1) as nat,
                n_cycles: 1,
                last_step_init_time: now,
                last_steps_weight: Some(weight),
                ..self
            }
        }
    }

    /// The current step is over at time `now`: more than its dwell time has passed since
    /// it began.
    pub open spec fn dwell_elapsed(self, now: u64) -> bool {
        !self.null_schedule() && now - self.last_step_init_time > self.step().time
    }

    /// The state after a reading `weight` taken at time `now`.
    ///
    /// The cursor moves on once the dwell time of the current step has passed, and the
    /// new step begins at `now`. The first reading is recorded as the weight from which
    /// the current goal is approached.
    pub open spec fn update(self, weight: i64, now: u64) -> ScheduleState {
        if self.null_schedule() {
            self
        } else if self.dwell_elapsed(now) {
            self.next_step(weight, now)
        } else if self.last_steps_weight.is_none() {
            ScheduleState { last_steps_weight: Some(weight), ..self }
        } else {
            self
        }
    }
}

/// A watering schedule with its cursor.
#[derive(Debug)]
pub struct WateringSchedule {
    steps: Vec<WateringScheduleStep>,
    cyclic: bool,
    curr_step: usize,
    last_step_init_time: u64,
    last_steps_weight: Option<i64>,
    n_cycles: usize,
}

impl View for WateringSchedule {
    type V = ScheduleState;

    closed spec fn view(&self) -> ScheduleState {
        ScheduleState {
            steps: self.steps@,
            cyclic: self.cyclic,
            curr_step: self.curr_step as nat,
            last_step_init_time: self.last_step_init_time,
            last_steps_weight: self.last_steps_weight,
            n_cycles: self.n_cycles,
        }
    }
}

impl Clone for WateringSchedule {
    fn clone(&self) -> (r: Self)
        ensures
            r@ == self@,
    {
        proof {
            use_type_invariant(self);
        }
        let mut steps: Vec<WateringScheduleStep> = Vec::new();
        let mut i: usize = 0;
        while i < self.steps.len()
            invariant
                0 <= i <= self.steps.len(),
                steps@ =~= self.steps@.take(i as int),
            decreases self.steps.len() - i,
        {
            steps.push(self.steps[i]);
            i = i + 1;
        }
        assert(self.steps@.take(i as int) =~= self.steps@);
        WateringSchedule {
            steps,
            cyclic: self.cyclic,
            curr_step: self.curr_step,
            last_step_init_time: self.last_step_init_time,
            last_steps_weight: self.last_steps_weight,
            n_cycles: self.n_cycles,
        }
    }
}

impl WateringSchedule {
    /// The cursor points at a step, or at 0 where there is none.
    #[verifier::type_invariant]
    pub closed spec fn wf(self) -> bool {
        self@.wf()
    }

    /// A schedule at its first step, which begins at time `now`. Without steps the
    /// schedule is null.
    pub fn new(steps: Option<Vec<WateringScheduleStep>>, cyclic: bool, now: u64) -> (r:
        WateringSchedule)
        ensures
            r.wf(),
            r@ == (ScheduleState {
                steps: match steps {
                    None => Seq::empty(),
                    Some(v) => v@,
                },
                cyclic,
                curr_step: 0,
                last_step_init_time: now,
                last_steps_weight: None,
                n_cycles: 0,
            }),
    {
        WateringSchedule {
            steps: match steps {
                None => Vec::new(),
                Some(v) => v,
            },
            cyclic,
            curr_step: 0,
            last_step_init_time: now,
            last_steps_weight: None,
            n_cycles: 0,
        }
    }

    /// Puts a schedule together from the values that [`WateringSchedule::view`] gives,
    /// refusing a cursor that points at no step.
    pub fn restore(
        steps: Vec<WateringScheduleStep>,
        cyclic: bool,
        curr_step: usize,
        last_step_init_time: u64,
        last_steps_weight: Option<i64>,
        n_cycles: usize,
    ) -> (r: Option<WateringSchedule>)
        ensures
            r.is_some() <==> (if steps@.len() == 0 {
                curr_step == 0
            } else {
                curr_step < steps@.len()
            }),
            r matches Some(s) ==> s.wf() && s@ == (ScheduleState {
                steps: steps@,
                cyclic,
                curr_step: curr_step as nat,
                last_step_init_time,
                last_steps_weight,
                n_cycles,
            }),
    {
        if (steps.len() == 0 && curr_step != 0) || (steps.len() > 0 && curr_step >= steps.len()) {
            return None;
        }
        Some(
            WateringSchedule {
                steps,
                cyclic,
                curr_step,
                last_step_init_time,
                last_steps_weight,
                n_cycles,
            },
        )
    }

    #[inline]
    pub fn null_schedule(&self) -> (r: bool)
        ensures
            r == self@.null_schedule(),
    {
        self.steps.len() == 0
    }

    #[inline]
    pub fn n_steps(&self) -> (r: usize)
        ensures
            r == self@.steps.len(),
    {
        self.steps.len()
    }

    /// The steps of the schedule, in order.
    pub fn steps(&self) -> (r: &Vec<WateringScheduleStep>)
        ensures
            r@ == self@.steps,
    {
        &self.steps
    }

    pub fn cyclic(&self) -> (r: bool)
        ensures
            r == self@.cyclic,
    {
        self.cyclic
    }

    pub fn curr_step(&self) -> (r: usize)
        ensures
            r == self@.curr_step,
            self@.wf(),
    {
        proof {
            use_type_invariant(self);
        }
        self.curr_step
    }

    /// The time at which the current step began.
    pub fn last_step_init_time(&self) -> (r: u64)
        ensures
            r == self@.last_step_init_time,
    {
        self.last_step_init_time
    }

    /// The weight recorded when the current step began.
    pub fn last_steps_weight(&self) -> (r: Option<i64>)
        ensures
            r == self@.last_steps_weight,
    {
        self.last_steps_weight
    }

    /// How often the schedule has run through.
    pub fn n_cycles(&self) -> (r: usize)
        ensures
            r == self@.n_cycles,
    {
        self.n_cycles
    }

    /// Tells whether `curr_weight` satisfies the current goal.
    pub fn in_goal(&self, curr_weight: i64) -> (r: bool)
        ensures
            r == self@.in_goal(curr_weight),
    {
        proof {
            use_type_invariant(self);
        }
        if self.null_schedule() {
            return true;
        }
        let step = &self.steps[self.curr_step];
        let target: i128 = step.weight as i128;
        let weight: i128 = curr_weight as i128;
        match step.max_weight_difference {
            Some(max_diff) => {
                target - max_diff as i128 <= weight && weight <= target + max_diff as i128
            },
            None => {
                match self.last_steps_weight {
                    None => false,
                    Some(last_steps_weight) => {
                        let floor: i128 = target - step.weight_treshold as i128;
                        if !self.cyclic && self.n_cycles >= 1 {
                            weight >= floor
                        } else if step.weight > last_steps_weight {
                            weight >= floor
                        } else if step.weight < last_steps_weight {
                            weight <= floor
                        } else {
                            true
                        }
                    },
                }
            },
        }
    }

    /// Moves the cursor on at time `now`, with the pot at `curr_weight`.
    fn next_step(&mut self, curr_weight: i64, now: u64)
        ensures
            final(self)@ == old(self)@.next_step(curr_weight, now),
    {
        proof {
            use_type_invariant(&*self);
        }
        if self.null_schedule() {
            return ;
        }
        let n = self.steps.len();
        if self.curr_step + 1 < n {
            self.curr_step = self.curr_step + 1;
        } else if self.cyclic {
            self.curr_step = 0;
            if self.n_cycles < usize::MAX {
                self.n_cycles = self.n_cycles + 1;
            }
        } else {
            self.curr_step = n - 1;
            self.n_cycles = 1;
        }
        self.last_step_init_time = now;
        self.last_steps_weight = Some(curr_weight);
    }

    /// Tells whether the pot should be watered at `curr_weight`. A null schedule never
    /// waters.
    pub fn should_water(&self, curr_weight: i64) -> (r: bool)
        ensures
            r == self@.should_water(curr_weight),
            self@.null_schedule() ==> !r,
    {
        proof {
            use_type_invariant(self);
        }
        if self.null_schedule() {
            return false;
        }
        if self.in_goal(curr_weight) {
            return false;
        }
        let step = &self.steps[self.curr_step];
        step.weight > curr_weight
    }

    /// Takes in the reading `curr_weight` made at time `now`, and moves the cursor on
    /// where the dwell time of the current step has passed.
    ///
    /// Fails, and changes nothing, where `now` lies before the start of the current step.
    pub fn update(&mut self, curr_weight: i64, now: u64) -> (r: Result<
        (),
        WateringScheduleError,
    >)
        ensures
            final(self).wf(),
            r.is_err() <==> !old(self)@.null_schedule() && now < old(self)@.last_step_init_time,
            r matches Err(e) ==> e matches WateringScheduleError::TimeError && final(self)@ == old(
                self,
            )@,
            r.is_ok() ==> final(self)@ == old(self)@.update(curr_weight, now),
    {
        proof {
            use_type_invariant(&*self);
        }
        if self.null_schedule() {
            return Ok(());
        }
        if now < self.last_step_init_time {
            return Err(WateringScheduleError::TimeError);
        }
        let dwell = self.steps[self.curr_step].time;
        if now - self.last_step_init_time > dwell {
            self.next_step(curr_weight, now);
        } else if self.last_steps_weight.is_none() {
            self.last_steps_weight = Some(curr_weight);
        }
        Ok(())
    }

    /// The target weight of the current step, or `None` for a null schedule.
    pub fn current_goal(&self) -> (r: Option<i64>)
        ensures
            r == self@.current_goal(),
    {
        proof {
            use_type_invariant(self);
        }
        if self.null_schedule() {
            None
        } else {
            Some(self.steps[self.curr_step].weight)
        }
    }
}

/// A null schedule never asks for water, whatever the weight.
pub proof fn lemma_null_schedule_never_waters(s: ScheduleState, weight: i64)
    requires
        s.null_schedule(),
    ensures
        !s.should_water(weight),
        s.in_goal(weight),
{
}

/// A reading never moves the cursor off the steps.
pub proof fn lemma_update_keeps_wf(s: ScheduleState, weight: i64, now: u64)
    requires
        s.wf(),
    ensures
        s.update(weight, now).wf(),
        s.update(weight, now).steps == s.steps,
        s.update(weight, now).cyclic == s.cyclic,
{
}

} // verus!
