//! The rig as a whole: its positions and schedules, and what it does at each tick.
//!
//! The controller decides; the caller acts. Each function here takes what was read from
//! the device, the clock or the disk, and says what to send, to store and to log.

use crate::balanzas::{
    Balanzas, BalanzasError, ScaleFault, ScaleState, Stats, Weighing,
};
use crate::decimal::{digits_text, milli_text, push_bytes, push_digits, push_milli, push_str};
use crate::serial_manager::{
    flag_text, DHTResult, LinkConfig, SerialFault, SerialManager, SerialManagerError,
};
use crate::utils::{now_timestamp, timestamp_text};
use crate::watering_position::{
    has_stepper, minimal_path, positions_of, WateringPosition, WateringPositionError,
};
use crate::watering_schedule::{ScheduleState, WateringSchedule};
use vstd::prelude::*;
use vstd::string::StringSliceAdditionalSpecFns;

verus! {

/// Why the controller could not do what was asked.
#[derive(Debug)]
pub enum SystemError {
    /// A controller of this name is registered already.
    SystemNameError,
    /// The positions, the schedules, the readings and the device do not agree on the
    /// number of channels.
    NBalanzasMismatchError,
    SerialManagerError(SerialManagerError),
    BalanzasError(BalanzasError),
    /// No position has this index.
    IndexError,
    WateringPositionError(WateringPositionError),
    /// The clock reading lies before a time that was recorded, or has no date.
    SystemTimeError,
    /// The controller could not be stored, or the log not be written.
    IOError,
}

/// A [`SystemError`] as a plain value.
pub enum SystemFault {
    SystemNameError,
    NBalanzasMismatchError,
    SerialManagerError(SerialFault),
    BalanzasError(ScaleFault),
    IndexError,
    WateringPositionError(WateringPositionError),
    SystemTimeError,
    IOError,
}

impl View for SystemError {
    type V = SystemFault;

    open spec fn view(&self) -> SystemFault {
        match self {
            SystemError::SystemNameError => SystemFault::SystemNameError,
            SystemError::NBalanzasMismatchError => SystemFault::NBalanzasMismatchError,
            SystemError::SerialManagerError(e) => SystemFault::SerialManagerError(e@),
            SystemError::BalanzasError(e) => SystemFault::BalanzasError(e@),
            SystemError::IndexError => SystemFault::IndexError,
            SystemError::WateringPositionError(e) => SystemFault::WateringPositionError(*e),
            SystemError::SystemTimeError => SystemFault::SystemTimeError,
            SystemError::IOError => SystemFault::IOError,
        }
    }
}

/// The names of the controllers that have been made. A name never leaves.
#[derive(Debug)]
pub struct NameRegistry {
    names: Vec<String>,
}

/// The names that the strings of `names` hold.
pub open spec fn name_views(names: Seq<String>) -> Seq<Seq<char>> {
    names.map_values(|s: String| s@)
}

impl View for NameRegistry {
    type V = Seq<Seq<char>>;

    closed spec fn view(&self) -> Seq<Seq<char>> {
        name_views(self.names@)
    }
}

impl NameRegistry {
    /// A registry without names.
    pub fn new() -> (r: NameRegistry)
        ensures
            r@ == Seq::<Seq<char>>::empty(),
    {
        let r = NameRegistry { names: Vec::new() };
        assert(r@ =~= Seq::<Seq<char>>::empty());
        r
    }

    /// Adds `value` after the names that are registered.
    pub fn add_system_name(&mut self, value: &str)
        ensures
            final(self)@ == old(self)@.push(value@),
    {
        self.names.push(value.to_owned());
        assert(self@ =~= old(self)@.push(value@));
    }

    /// The names that are registered, oldest first.
    pub fn get_system_names(&self) -> (r: Vec<String>)
        ensures
            name_views(r@) == self@,
    {
        let mut r: Vec<String> = Vec::new();
        let mut i: usize = 0;
        while i < self.names.len()
            invariant
                0 <= i <= self.names@.len(),
                r@.len() == i,
                forall|k: int| 0 <= k < i ==> (#[trigger] r@[k])@ == self.names@[k]@,
            decreases self.names@.len() - i,
        {
            r.push(self.names[i].clone());
            i = i + 1;
        }
        assert(name_views(r@) =~= self@);
        r
    }

    /// Tells whether `name` is registered.
    pub fn contains(&self, name: &str) -> (r: bool)
        ensures
            r == self@.contains(name@),
    {
        let wanted: String = name.to_owned();
        let mut i: usize = 0;
        while i < self.names.len()
            invariant
                0 <= i <= self.names@.len(),
                wanted@ == name@,
                forall|k: int| 0 <= k < i ==> (#[trigger] self@[k]) != name@,
            decreases self.names@.len() - i,
        {
            if self.names[i] == wanted {
                assert(self@[i as int] == name@);
                return true;
            }
            assert(self@[i as int] == self.names@[i as int]@);
            i = i + 1;
        }
        false
    }
}

/// The state of each schedule of `schedules`.
pub open spec fn schedule_views(schedules: Seq<WateringSchedule>) -> Seq<ScheduleState> {
    schedules.map_values(|s: WateringSchedule| s@)
}

/// The values of an optional vector.
pub open spec fn weights_view(v: Option<Vec<i64>>) -> Option<Seq<i64>> {
    match v {
        Some(values) => Some(values@),
        None => None,
    }
}

/// The controller of one rig.
#[derive(Debug)]
pub struct System {
    name: String,
    n_balanzas: u8,
    positions: Vec<WateringPosition>,
    serial_manager: SerialManager,
    balanzas: Balanzas,
    watering_schedules: Vec<WateringSchedule>,
    stepper_pos: i32,
    intensities: Vec<i32>,
    last_weights: Option<Vec<i64>>,
}

/// What a [`System`] holds, as plain values.
pub struct SystemState {
    pub name: Seq<char>,
    pub n_balanzas: u8,
    pub positions: Seq<WateringPosition>,
    pub serial_manager: LinkConfig,
    pub balanzas: ScaleState,
    pub watering_schedules: Seq<ScheduleState>,
    pub stepper_pos: i32,
    pub intensities: Seq<i32>,
    pub last_weights: Option<Seq<i64>>,
}

/// What is stored of a controller: everything but the link, the intensities and the
/// last weights.
#[derive(Debug)]
pub struct SystemSave {
    pub name: String,
    pub n_balanzas: u8,
    pub positions: Vec<WateringPosition>,
    pub balanzas: Balanzas,
    pub watering_schedules: Vec<WateringSchedule>,
    pub stepper_pos: i32,
}

/// What a [`SystemSave`] holds, as plain values.
pub struct SaveState {
    pub name: Seq<char>,
    pub n_balanzas: u8,
    pub positions: Seq<WateringPosition>,
    pub balanzas: ScaleState,
    pub watering_schedules: Seq<ScheduleState>,
    pub stepper_pos: i32,
}

impl View for SystemSave {
    type V = SaveState;

    open spec fn view(&self) -> SaveState {
        SaveState {
            name: self.name@,
            n_balanzas: self.n_balanzas,
            positions: self.positions@,
            balanzas: self.balanzas@,
            watering_schedules: schedule_views(self.watering_schedules@),
            stepper_pos: self.stepper_pos,
        }
    }
}

impl View for System {
    type V = SystemState;

    closed spec fn view(&self) -> SystemState {
        SystemState {
            name: self.name@,
            n_balanzas: self.n_balanzas,
            positions: self.positions@,
            serial_manager: self.serial_manager@,
            balanzas: self.balanzas@,
            watering_schedules: schedule_views(self.watering_schedules@),
            stepper_pos: self.stepper_pos,
            intensities: self.intensities@,
            last_weights: weights_view(self.last_weights),
        }
    }
}

impl SystemState {
    /// There is one position, one schedule and one intensity for each channel.
    pub open spec fn wf(self) -> bool {
        &&& self.positions.len() == self.n_balanzas
        &&& self.watering_schedules.len() == self.n_balanzas
        &&& self.intensities.len() == self.n_balanzas
    }

    /// What is stored of the controller.
    pub open spec fn saved(self) -> SaveState {
        SaveState {
            name: self.name,
            n_balanzas: self.n_balanzas,
            positions: self.positions,
            balanzas: self.balanzas,
            watering_schedules: self.watering_schedules,
            stepper_pos: self.stepper_pos,
        }
    }

    /// The controller that is made from the given parts while the names of `registry`
    /// are taken. The stepper stands where `stepper_pos` says, else where it stood when
    /// the controller was last stored, else at 0.
    pub open spec fn create(
        registry: Seq<Seq<char>>,
        name: Seq<char>,
        n_balanzas: u8,
        positions: Seq<WateringPosition>,
        serial_manager: LinkConfig,
        balanzas: ScaleState,
        watering_schedules: Seq<ScheduleState>,
        stepper_pos: Option<i32>,
        saved_stepper_pos: Option<i32>,
    ) -> Result<SystemState, SystemFault> {
        if registry.contains(name) {
            Err(SystemFault::SystemNameError)
        } else if positions.len() != n_balanzas || watering_schedules.len() != n_balanzas {
            Err(SystemFault::NBalanzasMismatchError)
        } else {
            Ok(
                SystemState {
                    name,
                    n_balanzas,
                    positions,
                    serial_manager,
                    balanzas,
                    watering_schedules,
                    stepper_pos: match stepper_pos {
                        Some(sp) => sp,
                        None => match saved_stepper_pos {
                            Some(sp) => sp,
                            None => 0,
                        },
                    },
                    intensities: Seq::new(n_balanzas as nat, |i: int| 0i32),
                    last_weights: None,
                },
            )
        }
    }

    /// The controller that is made from what was stored.
    pub open spec fn load(registry: Seq<Seq<char>>, save: SaveState, serial_manager: LinkConfig) -> Result<
        SystemState,
        SystemFault,
    > {
        Self::create(
            registry,
            save.name,
            save.n_balanzas,
            save.positions,
            serial_manager,
            save.balanzas,
            save.watering_schedules,
            Some(save.stepper_pos),
            None,
        )
    }
}

/// Storing a controller and loading it under a name that is free gives a controller
/// that stores to the same: name, channel count, positions, scales, schedules and
/// stepper position come back as they were.
pub proof fn lemma_save_load_round_trip(
    s: SystemState,
    registry: Seq<Seq<char>>,
    serial_manager: LinkConfig,
)
    requires
        s.wf(),
        !registry.contains(s.name),
    ensures
        SystemState::load(registry, s.saved(), serial_manager) matches Ok(t) && t.saved()
            == s.saved() && t.wf(),
{
}

/// A vector of `n` zeros.
fn zeros(n: u8) -> (r: Vec<i32>)
    ensures
        r@ == Seq::new(n as nat, |i: int| 0i32),
{
    let mut r: Vec<i32> = Vec::new();
    let mut i: u8 = 0;
    while i < n
        invariant
            0 <= i <= n,
            r@.len() == i,
            forall|k: int| 0 <= k < i ==> r@[k] == 0i32,
        decreases n - i,
    {
        r.push(0);
        i = i + 1;
    }
    assert(r@ =~= Seq::new(n as nat, |i: int| 0i32));
    r
}

/// A copy of `v`.
fn copy_positions(v: &Vec<WateringPosition>) -> (r: Vec<WateringPosition>)
    ensures
        r@ == v@,
{
    let mut r: Vec<WateringPosition> = Vec::new();
    let mut i: usize = 0;
    while i < v.len()
        invariant
            0 <= i <= v@.len(),
            r@ =~= v@.take(i as int),
        decreases v@.len() - i,
    {
        r.push(v[i]);
        i = i + 1;
    }
    assert(v@.take(i as int) =~= v@);
    r
}

/// A copy of `v`.
fn copy_schedules(v: &Vec<WateringSchedule>) -> (r: Vec<WateringSchedule>)
    ensures
        schedule_views(r@) == schedule_views(v@),
{
    let mut r: Vec<WateringSchedule> = Vec::new();
    let mut i: usize = 0;
    while i < v.len()
        invariant
            0 <= i <= v@.len(),
            r@.len() == i,
            forall|k: int| 0 <= k < i ==> (#[trigger] r@[k])@ == v@[k]@,
        decreases v@.len() - i,
    {
        r.push(v[i].clone());
        i = i + 1;
    }
    assert(schedule_views(r@) =~= schedule_views(v@));
    r
}

impl System {
    /// There is one position, one schedule and one intensity for each channel.
    #[verifier::type_invariant]
    pub closed spec fn wf(self) -> bool {
        self@.wf()
    }

    /// Makes the controller `name` and registers its name, unless the name is taken.
    /// Positions and schedules must be one per channel.
    pub fn new(
        name: &str,
        registry: &mut NameRegistry,
        n_balanzas: u8,
        positions: Vec<WateringPosition>,
        serial_manager: SerialManager,
        balanzas: Balanzas,
        watering_schedules: Vec<WateringSchedule>,
        stepper_pos: Option<i32>,
        saved_stepper_pos: Option<i32>,
    ) -> (r: Result<System, SystemError>)
        ensures
            final(registry)@ == (if old(registry)@.contains(name@) {
                old(registry)@
            } else {
                old(registry)@.push(name@)
            }),
            match r {
                Ok(s) => s.wf() && Ok::<SystemState, SystemFault>(s@) == SystemState::create(
                    old(registry)@,
                    name@,
                    n_balanzas,
                    positions@,
                    serial_manager@,
                    balanzas@,
                    schedule_views(watering_schedules@),
                    stepper_pos,
                    saved_stepper_pos,
                ),
                Err(e) => Err::<SystemState, SystemFault>(e@) == SystemState::create(
                    old(registry)@,
                    name@,
                    n_balanzas,
                    positions@,
                    serial_manager@,
                    balanzas@,
                    schedule_views(watering_schedules@),
                    stepper_pos,
                    saved_stepper_pos,
                ),
            },
    {
        if registry.contains(name) {
            return Err(SystemError::SystemNameError);
        }
        registry.add_system_name(name);
        if positions.len() != n_balanzas as usize {
            return Err(SystemError::NBalanzasMismatchError);
        }
        if watering_schedules.len() != n_balanzas as usize {
            return Err(SystemError::NBalanzasMismatchError);
        }
        Ok(
            System {
                name: name.to_owned(),
                n_balanzas,
                positions,
                serial_manager,
                balanzas,
                watering_schedules,
                stepper_pos: match stepper_pos {
                    Some(sp) => sp,
                    None => match saved_stepper_pos {
                        Some(sp) => sp,
                        None => 0,
                    },
                },
                intensities: zeros(n_balanzas),
                last_weights: None,
            },
        )
    }

    /// Makes the controller that was stored as `save`.
    pub fn load(save: SystemSave, registry: &mut NameRegistry, serial_manager: SerialManager) -> (r:
        Result<System, SystemError>)
        ensures
            final(registry)@ == (if old(registry)@.contains(save@.name) {
                old(registry)@
            } else {
                old(registry)@.push(save@.name)
            }),
            match r {
                Ok(s) => s.wf() && Ok::<SystemState, SystemFault>(s@) == SystemState::load(
                    old(registry)@,
                    save@,
                    serial_manager@,
                ),
                Err(e) => Err::<SystemState, SystemFault>(e@) == SystemState::load(
                    old(registry)@,
                    save@,
                    serial_manager@,
                ),
            },
    {
        System::new(
            save.name.as_str(),
            registry,
            save.n_balanzas,
            save.positions,
            serial_manager,
            save.balanzas,
            save.watering_schedules,
            Some(save.stepper_pos),
            None,
        )
    }

    /// What is to be stored of the controller.
    pub fn save(&self) -> (r: SystemSave)
        ensures
            r@ == self@.saved(),
    {
        SystemSave {
            name: self.name.clone(),
            n_balanzas: self.n_balanzas,
            positions: copy_positions(&self.positions),
            balanzas: self.balanzas.clone(),
            watering_schedules: copy_schedules(&self.watering_schedules),
            stepper_pos: self.stepper_pos,
        }
    }

    pub fn name(&self) -> (r: &String)
        ensures
            r@ == self@.name,
    {
        &self.name
    }

    pub fn n_balanzas(&self) -> (r: u8)
        ensures
            r == self@.n_balanzas,
            self@.wf(),
    {
        proof {
            use_type_invariant(self);
        }
        self.n_balanzas
    }

    pub fn positions(&self) -> (r: &Vec<WateringPosition>)
        ensures
            r@ == self@.positions,
    {
        &self.positions
    }

    pub fn serial_manager(&self) -> (r: &SerialManager)
        ensures
            r@ == self@.serial_manager,
    {
        &self.serial_manager
    }

    /// Keeps the channel count `n` that the device reported at time `now` on the link.
    pub fn store_hx_n(&mut self, n: usize, now: u64)
        ensures
            final(self).wf(),
            final(self)@ == (SystemState {
                serial_manager: LinkConfig {
                    last_hx_n: Some(n),
                    last_hx_n_time: Some(now),
                    ..old(self)@.serial_manager
                },
                ..old(self)@
            }),
    {
        proof {
            use_type_invariant(&*self);
        }
        self.serial_manager.store_hx_n(n, now);
    }

    pub fn balanzas(&self) -> (r: &Balanzas)
        ensures
            r@ == self@.balanzas,
    {
        &self.balanzas
    }

    pub fn watering_schedules(&self) -> (r: &Vec<WateringSchedule>)
        ensures
            schedule_views(r@) == self@.watering_schedules,
    {
        &self.watering_schedules
    }

    /// Where the stepper stands, or is on its way to.
    pub fn stepper_pos(&self) -> (r: i32)
        ensures
            r == self@.stepper_pos,
    {
        self.stepper_pos
    }

    /// The watering intensity of each channel.
    pub fn intensities(&self) -> (r: &Vec<i32>)
        ensures
            r@ == self@.intensities,
    {
        &self.intensities
    }

    /// The weights of the last tick.
    pub fn last_weights(&self) -> (r: &Option<Vec<i64>>)
        ensures
            weights_view(*r) == self@.last_weights,
    {
        &self.last_weights
    }
}

/// How long the rig is left alone between two polls, and after the stepper has moved,
/// in milliseconds.
pub const SETTLE_MS: u64 = 500;

/// The angle at which the servo gives way to the stepper.
pub const ACCESS_ANGLE: u8 = 90;

/// A move of the stepper by `steps`, after which it is released if `detach`.
#[derive(Debug, Clone, Copy, PartialEq, Eq, Structural)]
pub struct StepperMove {
    pub steps: i64,
    pub detach: bool,
}

/// One thing that the caller does to the rig while a pot is watered.
#[derive(Debug, Clone, Copy, PartialEq, Eq, Structural)]
pub enum RigAction {
    /// Turn the servo to this angle.
    Servo(u8),
    /// Move the stepper to `target` as [`System::stepper_move_begin`] and
    /// [`System::stepper_move_step`] say: the controller is stored before the move is
    /// sent.
    StepperSafe { target: i32, detach: bool },
    /// Sleep for so many milliseconds.
    Sleep(u64),
    /// Run the pump.
    Pump { time_ms: u32, intensity: u8 },
    /// Power the servo or release it.
    ServoAttach(bool),
}

/// Where the start-up of the rig stands.
#[derive(Debug, Clone, Copy, PartialEq, Eq, Structural)]
pub enum BeginPhase {
    AskCount,
    PollOk,
    PollOkSleep,
    PollCount,
    PollCountSleep,
    Finished,
}

/// What the device said during start-up.
#[derive(Debug)]
pub enum BeginEvent {
    /// The answer to the question for the channel count.
    Count(Result<usize, SerialManagerError>),
    /// The answer to the question whether the device is idle.
    Idle(Result<bool, SerialManagerError>),
    /// The sleep is over.
    Slept,
}

/// What the caller is to do next during start-up.
#[derive(Debug)]
pub enum BeginAction {
    AskChannelCount,
    AskOk,
    Sleep(u64),
    Done(Result<(), SystemError>),
}

/// A [`BeginAction`] as a plain value.
pub enum BeginStep {
    AskChannelCount,
    AskOk,
    Sleep(u64),
    Done(Result<(), SystemFault>),
}

impl View for BeginAction {
    type V = BeginStep;

    open spec fn view(&self) -> BeginStep {
        match self {
            BeginAction::AskChannelCount => BeginStep::AskChannelCount,
            BeginAction::AskOk => BeginStep::AskOk,
            BeginAction::Sleep(ms) => BeginStep::Sleep(*ms),
            BeginAction::Done(Ok(_)) => BeginStep::Done(Ok(())),
            BeginAction::Done(Err(e)) => BeginStep::Done(Err(e@)),
        }
    }
}

impl SystemState {
    /// The state, the phase and the action that follow when `event` comes in during
    /// start-up.
    ///
    /// The scales take the channel count that the device reports first. Then the device
    /// is asked whether it is idle, every half second, until it no longer says so; then
    /// for its channel count, every half second, until it answers. That count must be the
    /// controller's. An event that does not answer the action ends the start-up.
    pub open spec fn begin_step(self, phase: BeginPhase, event: BeginEvent) -> (
        SystemState,
        BeginPhase,
        BeginStep,
    ) {
        match (phase, event) {
            (BeginPhase::AskCount, BeginEvent::Count(Ok(n))) => if n > 255 {
                (
                    self,
                    BeginPhase::Finished,
                    BeginStep::Done(Err(SystemFault::BalanzasError(ScaleFault::TooManyChannels))),
                )
            } else {
                (
                    SystemState {
                        balanzas: ScaleState { n_balanzas: Some(n as u8), ..self.balanzas },
                        ..self
                    },
                    BeginPhase::PollOk,
                    BeginStep::AskOk,
                )
            },
            (BeginPhase::AskCount, BeginEvent::Count(Err(e))) => (
                self,
                BeginPhase::Finished,
                BeginStep::Done(Err(SystemFault::SerialManagerError(e@))),
            ),
            (BeginPhase::PollOk, BeginEvent::Idle(Ok(true))) => (
                self,
                BeginPhase::PollOkSleep,
                BeginStep::Sleep(SETTLE_MS),
            ),
            (BeginPhase::PollOk, BeginEvent::Idle(_)) => (
                self,
                BeginPhase::PollCount,
                BeginStep::AskChannelCount,
            ),
            (BeginPhase::PollOkSleep, BeginEvent::Slept) => (
                self,
                BeginPhase::PollOk,
                BeginStep::AskOk,
            ),
            (BeginPhase::PollCount, BeginEvent::Count(Err(_))) => (
                self,
                BeginPhase::PollCountSleep,
                BeginStep::Sleep(SETTLE_MS),
            ),
            (BeginPhase::PollCountSleep, BeginEvent::Slept) => (
                self,
                BeginPhase::PollCount,
                BeginStep::AskChannelCount,
            ),
            (BeginPhase::PollCount, BeginEvent::Count(Ok(n))) => (
                self,
                BeginPhase::Finished,
                BeginStep::Done(
                    if n == self.n_balanzas {
                        Ok(())
                    } else {
                        Err(SystemFault::NBalanzasMismatchError)
                    },
                ),
            ),
            (_, _) => (
                self,
                BeginPhase::Finished,
                BeginStep::Done(Err(SystemFault::SerialManagerError(SerialFault::IOError))),
            ),
        }
    }

    /// The move that takes the stepper to `next_pos`: none where it stands there.
    pub open spec fn stepper_move(self, next_pos: i32, detach: bool) -> Option<StepperMove> {
        if self.stepper_pos == next_pos {
            None
        } else {
            Some(StepperMove { steps: (next_pos - self.stepper_pos) as i64, detach })
        }
    }

    /// What is done to water the pot at `index` with the given intensity.
    ///
    /// The servo gives way, the stepper goes to the position and is released, the rig
    /// settles, the pump runs for as long and as hard as the curves of the position say,
    /// and the servo is released. Nothing is done where the curves give a negative time
    /// or a duty outside 0 to 100.
    pub open spec fn water(self, index: usize, intensity: i32) -> Result<
        Seq<RigAction>,
        SystemFault,
    > {
        if index >= self.n_balanzas {
            Err(SystemFault::IndexError)
        } else {
            let pos = self.positions[index as int];
            let time = pos.water_time_curve.eval_spec(intensity as int);
            let pwm = pos.water_pwm_curve.eval_spec(intensity as int);
            if time < 0 || pwm < 0 || pwm > 100 {
                Err(SystemFault::SerialManagerError(SerialFault::ArgumentError))
            } else {
                Ok(
                    seq![
                        RigAction::Servo(ACCESS_ANGLE),
                        RigAction::StepperSafe { target: pos.stepper, detach: true },
                        RigAction::Sleep(SETTLE_MS),
                        RigAction::Pump { time_ms: time as u32, intensity: pwm as u8 },
                        RigAction::ServoAttach(false),
                    ],
                )
            }
        }
    }
}

impl System {
    /// Starts the start-up of the rig: the first thing to do is to ask the device for
    /// its channel count.
    pub fn begin(&self) -> (r: (BeginPhase, BeginAction))
        ensures
            r.0 == BeginPhase::AskCount,
            r.1@ == BeginStep::AskChannelCount,
    {
        (BeginPhase::AskCount, BeginAction::AskChannelCount)
    }

    /// Takes in what the device said during start-up, and says what to do next.
    pub fn begin_step(&mut self, phase: BeginPhase, event: BeginEvent) -> (r: (
        BeginPhase,
        BeginAction,
    ))
        ensures
            final(self).wf(),
            (final(self)@, r.0, r.1@) == old(self)@.begin_step(phase, event),
    {
        proof {
            use_type_invariant(&*self);
        }
        match (phase, event) {
            (BeginPhase::AskCount, BeginEvent::Count(Ok(n))) => {
                match self.balanzas.begin(n) {
                    Err(e) => (
                        BeginPhase::Finished,
                        BeginAction::Done(Err(SystemError::BalanzasError(e))),
                    ),
                    Ok(_) => (BeginPhase::PollOk, BeginAction::AskOk),
                }
            },
            (BeginPhase::AskCount, BeginEvent::Count(Err(e))) => (
                BeginPhase::Finished,
                BeginAction::Done(Err(SystemError::SerialManagerError(e))),
            ),
            (BeginPhase::PollOk, BeginEvent::Idle(Ok(true))) => (
                BeginPhase::PollOkSleep,
                BeginAction::Sleep(SETTLE_MS),
            ),
            (BeginPhase::PollOk, BeginEvent::Idle(_)) => (
                BeginPhase::PollCount,
                BeginAction::AskChannelCount,
            ),
            (BeginPhase::PollOkSleep, BeginEvent::Slept) => (
                BeginPhase::PollOk,
                BeginAction::AskOk,
            ),
            (BeginPhase::PollCount, BeginEvent::Count(Err(_))) => (
                BeginPhase::PollCountSleep,
                BeginAction::Sleep(SETTLE_MS),
            ),
            (BeginPhase::PollCountSleep, BeginEvent::Slept) => (
                BeginPhase::PollCount,
                BeginAction::AskChannelCount,
            ),
            (BeginPhase::PollCount, BeginEvent::Count(Ok(n))) => {
                if n == self.n_balanzas as usize {
                    (BeginPhase::Finished, BeginAction::Done(Ok(())))
                } else {
                    (
                        BeginPhase::Finished,
                        BeginAction::Done(Err(SystemError::NBalanzasMismatchError)),
                    )
                }
            },
            (_, _) => (
                BeginPhase::Finished,
                BeginAction::Done(
                    Err(SystemError::SerialManagerError(SerialManagerError::IOError)),
                ),
            ),
        }
    }

    /// Takes note that the stepper goes to `next_pos`, and gives the move that takes it
    /// there. What is stored must never be behind the rig: [`System::stepper_move_begin`]
    /// and [`System::stepper_move_step`] hand the storing and the sending out in that
    /// order.
    pub fn stepper_move_safe(&mut self, next_pos: i32, detach: bool) -> (r: Option<StepperMove>)
        ensures
            final(self).wf(),
            r == old(self)@.stepper_move(next_pos, detach),
            final(self)@ == (SystemState { stepper_pos: next_pos, ..old(self)@ }),
    {
        proof {
            use_type_invariant(&*self);
        }
        let start_pos: i32 = self.stepper_pos;
        if start_pos == next_pos {
            return None;
        }
        self.stepper_pos = next_pos;
        Some(StepperMove { steps: next_pos as i64 - start_pos as i64, detach })
    }

    /// Says what is to be done to water the pot at `position_index`.
    pub fn water(&self, position_index: usize, intensity: i32) -> (r: Result<
        Vec<RigAction>,
        SystemError,
    >)
        ensures
            match r {
                Ok(actions) => self@.water(position_index, intensity) == Ok::<
                    Seq<RigAction>,
                    SystemFault,
                >(actions@),
                Err(e) => self@.water(position_index, intensity) == Err::<
                    Seq<RigAction>,
                    SystemFault,
                >(e@),
            },
    {
        proof {
            use_type_invariant(self);
        }
        if position_index >= self.n_balanzas as usize {
            return Err(SystemError::IndexError);
        }
        let pos = &self.positions[position_index];
        let tiempo_ms: i32 = pos.water_time_curve.eval(intensity);
        let pwm: i32 = pos.water_pwm_curve.eval(intensity);
        if tiempo_ms < 0 || pwm < 0 || pwm > 100 {
            return Err(SystemError::SerialManagerError(SerialManagerError::ArgumentError));
        }
        let mut actions: Vec<RigAction> = Vec::new();
        actions.push(RigAction::Servo(ACCESS_ANGLE));
        actions.push(RigAction::StepperSafe { target: pos.stepper, detach: true });
        actions.push(RigAction::Sleep(SETTLE_MS));
        actions.push(RigAction::Pump { time_ms: tiempo_ms as u32, intensity: pwm as u8 });
        actions.push(RigAction::ServoAttach(false));
        assert(self@.water(position_index, intensity) matches Ok(planned) && actions@ =~= planned);
        Ok(actions)
    }
}

/// The reading at time `now` lies before the start of the current step of `s`.
pub open spec fn clock_fails(s: ScheduleState, now: u64) -> bool {
    !s.null_schedule() && now < s.last_step_init_time
}

/// Some schedule of `schedules` began its current step after `now`.
pub open spec fn any_clock_fails(schedules: Seq<ScheduleState>, now: u64) -> bool {
    exists|i: int| 0 <= i < schedules.len() && clock_fails(#[trigger] schedules[i], now)
}

/// Each schedule after it has taken in the weight of its channel at time `now`.
pub open spec fn updated_schedules(schedules: Seq<ScheduleState>, means: Seq<i64>, now: u64) -> Seq<
    ScheduleState,
> {
    Seq::new(schedules.len(), |i: int| schedules[i].update(means[i], now))
}

/// For each channel, whether its pot should be watered at the weight of the channel.
pub open spec fn water_flags(schedules: Seq<ScheduleState>, means: Seq<i64>) -> Seq<bool> {
    Seq::new(schedules.len(), |i: int| schedules[i].should_water(means[i]))
}

/// For each channel, the target weight of its schedule.
pub open spec fn current_goals(schedules: Seq<ScheduleState>) -> Seq<Option<i64>> {
    Seq::new(schedules.len(), |i: int| schedules[i].current_goal())
}

/// The indices at which `flags` is true, in ascending order.
pub open spec fn true_indices(flags: Seq<bool>) -> Seq<usize>
    decreases flags.len(),
{
    if flags.len() == 0 {
        Seq::empty()
    } else if flags.last() {
        true_indices(flags.drop_last()).push((flags.len() - 1) as usize)
    } else {
        true_indices(flags.drop_last())
    }
}

/// The positions of the channels `needing`, in that order.
pub open spec fn candidates(positions: Seq<WateringPosition>, needing: Seq<usize>) -> Seq<
    WateringPosition,
> {
    Seq::new(needing.len(), |k: int| positions[needing[k] as int])
}

/// The channels that the route `path` over the candidates visits, in its order.
pub open spec fn channel_order(needing: Seq<usize>, path: Seq<usize>) -> Seq<usize> {
    Seq::new(path.len(), |k: int| needing[path[k] as int])
}

/// What a tick decided: which pots need water, the goals, and the channels to water in
/// the order of the shortest route.
#[derive(Debug)]
pub struct TickPlan {
    pub macetas_to_water: Vec<bool>,
    pub grams_goals: Vec<Option<i64>>,
    pub order: Vec<usize>,
}

/// A [`TickPlan`] as plain values.
pub struct TickView {
    pub macetas_to_water: Seq<bool>,
    pub grams_goals: Seq<Option<i64>>,
    pub order: Seq<usize>,
}

impl View for TickPlan {
    type V = TickView;

    open spec fn view(&self) -> TickView {
        TickView {
            macetas_to_water: self.macetas_to_water@,
            grams_goals: self.grams_goals@,
            order: self.order@,
        }
    }
}

/// What a tick gave, as a plain value.
pub open spec fn plan_view(r: Result<TickPlan, SystemError>) -> Result<TickView, SystemFault> {
    match r {
        Ok(plan) => Ok(plan@),
        Err(e) => Err(e@),
    }
}

impl SystemState {
    /// The state after the weights `means` have been taken in at time `now`, and what
    /// is decided on them.
    ///
    /// The statistics must hold one value per channel. Each schedule takes in the weight
    /// of its channel, unless the clock lies before the start of a step: then nothing
    /// changes. The pots that should be watered are visited along the shortest route
    /// that starts where the stepper stands, which must be at one of them.
    pub open spec fn tick_with_weights(
        self,
        means: Seq<i64>,
        n_stdevs: nat,
        n_filtered: nat,
        now: u64,
    ) -> (
        SystemState,
        Result<TickView, SystemFault>,
    ) {
        if means.len() != self.n_balanzas || n_stdevs != self.n_balanzas || n_filtered
            != self.n_balanzas {
            (self, Err(SystemFault::NBalanzasMismatchError))
        } else if any_clock_fails(self.watering_schedules, now) {
            (self, Err(SystemFault::SystemTimeError))
        } else {
            let schedules = updated_schedules(self.watering_schedules, means, now);
            let after = SystemState { watering_schedules: schedules, ..self };
            let flags = water_flags(schedules, means);
            let needing = true_indices(flags);
            let places = candidates(self.positions, needing);
            if needing.len() == 0 {
                (
                    after,
                    Ok(
                        TickView {
                            macetas_to_water: flags,
                            grams_goals: current_goals(schedules),
                            order: Seq::empty(),
                        },
                    ),
                )
            } else if !has_stepper(places, self.stepper_pos as int) {
                (
                    after,
                    Err(SystemFault::WateringPositionError(WateringPositionError::NotFound)),
                )
            } else {
                (
                    after,
                    Ok(
                        TickView {
                            macetas_to_water: flags,
                            grams_goals: current_goals(schedules),
                            order: channel_order(
                                needing,
                                minimal_path(places, self.stepper_pos as int),
                            ),
                        },
                    ),
                )
            }
        }
    }
}

impl System {
    /// Takes in the weights of the channels at time `now`: updates the schedules, and
    /// decides which pots to water and in which order.
    pub fn tick_with_weights(
        &mut self,
        means: &Vec<i64>,
        stdevs: &Vec<Option<i64>>,
        n_filtered: &Vec<usize>,
        now: u64,
    ) -> (r: Result<TickPlan, SystemError>)
        ensures
            final(self).wf(),
            (final(self)@, plan_view(r)) == old(self)@.tick_with_weights(
                means@,
                stdevs@.len(),
                n_filtered@.len(),
                now,
            ),
    {
        proof {
            use_type_invariant(&*self);
        }
        let n: usize = self.n_balanzas as usize;
        if means.len() != n || stdevs.len() != n || n_filtered.len() != n {
            return Err(SystemError::NBalanzasMismatchError);
        }
        let ghost before = self@.watering_schedules;
        let mut i: usize = 0;
        while i < n
            invariant
                0 <= i <= n,
                n == self.watering_schedules@.len(),
                n == self@.n_balanzas,
                means@.len() == n,
                stdevs@.len() == n,
                n_filtered@.len() == n,
                self.wf(),
                self@ == old(self)@,
                before == self@.watering_schedules,
                before == schedule_views(self.watering_schedules@),
                forall|j: int| 0 <= j < i ==> !clock_fails(#[trigger] before[j], now),
            decreases n - i,
        {
            let ws = &self.watering_schedules[i];
            if !ws.null_schedule() && now < ws.last_step_init_time() {
                assert(clock_fails(before[i as int], now));
                return Err(SystemError::SystemTimeError);
            }
            i = i + 1;
        }
        assert(!any_clock_fails(before, now));
        let mut updated: Vec<WateringSchedule> = Vec::new();
        let mut macetas_to_water: Vec<bool> = Vec::new();
        let mut grams_goals: Vec<Option<i64>> = Vec::new();
        let mut k: usize = 0;
        while k < n
            invariant
                0 <= k <= n,
                n == self.watering_schedules@.len(),
                n == means@.len(),
                before == schedule_views(self.watering_schedules@),
                forall|j: int| 0 <= j < n ==> !clock_fails(#[trigger] before[j], now),
                updated@.len() == k,
                macetas_to_water@.len() == k,
                grams_goals@.len() == k,
                forall|j: int| 0 <= j < k ==> (#[trigger] updated@[j])@ == before[j].update(
                    means@[j],
                    now,
                ),
                forall|j: int|
                    0 <= j < k ==> (#[trigger] macetas_to_water@[j]) == before[j].update(
                        means@[j],
                        now,
                    ).should_water(means@[j]),
                forall|j: int|
                    0 <= j < k ==> (#[trigger] grams_goals@[j]) == before[j].update(
                        means@[j],
                        now,
                    ).current_goal(),
            decreases n - k,
        {
            let mut ws = self.watering_schedules[k].clone();
            assert(ws@ == before[k as int]);
            let outcome = ws.update(means[k], now);
            assert(outcome.is_ok());
            macetas_to_water.push(ws.should_water(means[k]));
            grams_goals.push(ws.current_goal());
            updated.push(ws);
            k = k + 1;
        }
        self.watering_schedules = updated;
        let ghost schedules = updated_schedules(before, means@, now);
        let ghost flags = water_flags(schedules, means@);
        assert(schedule_views(self.watering_schedules@) =~= schedules);
        assert(macetas_to_water@ =~= flags);
        assert(grams_goals@ =~= current_goals(schedules));
        let mut needing: Vec<usize> = Vec::new();
        let mut positions_to_water: Vec<&WateringPosition> = Vec::new();
        let mut c: usize = 0;
        assert(flags.take(0).len() == 0);
        while c < n
            invariant
                0 <= c <= n,
                n == self.positions@.len(),
                n == flags.len(),
                macetas_to_water@ == flags,
                needing@ == true_indices(flags.take(c as int)),
                forall|j: int| 0 <= j < needing@.len() ==> (#[trigger] needing@[j]) < c,
                positions_to_water@.len() == needing@.len(),
                forall|j: int|
                    0 <= j < needing@.len() ==> *(#[trigger] positions_to_water@[j])
                        == self.positions@[needing@[j] as int],
            decreases n - c,
        {
            assert(flags.take(c + 1).drop_last() =~= flags.take(c as int));
            assert(flags.take(c + 1).last() == flags[c as int]);
            if macetas_to_water[c] {
                needing.push(c);
                positions_to_water.push(&self.positions[c]);
            }
            c = c + 1;
        }
        assert(flags.take(n as int) =~= flags);
        let ghost places = candidates(self.positions@, needing@);
        assert(positions_of(positions_to_water@) =~= places);
        let mut order: Vec<usize> = Vec::new();
        if needing.len() > 0 {
            match WateringPosition::find_minimal_distance_path(
                positions_to_water.as_slice(),
                self.stepper_pos,
            ) {
                Err(e) => {
                    return Err(SystemError::WateringPositionError(e));
                },
                Ok(path) => {
                    let mut p: usize = 0;
                    while p < path.len()
                        invariant
                            0 <= p <= path@.len(),
                            path@.len() == needing@.len(),
                            forall|j: int|
                                0 <= j < path@.len() ==> (#[trigger] path@[j]) < needing@.len(),
                            order@.len() == p,
                            forall|j: int|
                                0 <= j < p ==> (#[trigger] order@[j]) == needing@[path@[j] as int],
                        decreases path@.len() - p,
                    {
                        order.push(needing[path[p]]);
                        p = p + 1;
                    }
                    assert(order@ =~= channel_order(needing@, path@));
                },
            }
        }
        Ok(TickPlan { macetas_to_water, grams_goals, order })
    }
}

/// The column names of channel `i` in the log, each followed by a comma.
pub open spec fn channel_header(i: nat) -> Seq<u8> {
    "balanza_avg_".spec_bytes() + digits_text(i) + ",balanza_std_".spec_bytes() + digits_text(i)
        + ",balanza_pump_state_".spec_bytes() + digits_text(i) + ",n_filtered_".spec_bytes()
        + digits_text(i) + ",grams_goals_".spec_bytes() + digits_text(i) + ",".spec_bytes()
}

/// The column names of the channels 1 to `n`.
pub open spec fn channel_headers(n: nat) -> Seq<u8>
    decreases n,
{
    if n == 0 {
        Seq::empty()
    } else {
        channel_headers((n - 1) as nat) + channel_header(n)
    }
}

/// The first line of the log of a rig with `n` channels.
pub open spec fn header_text(n: nat) -> Seq<u8> {
    "time,".spec_bytes() + channel_headers(n) + "n_unsuccessful,hum,temp\n".spec_bytes()
}

/// A value in thousandths, or a dash for none.
pub open spec fn optional_milli_text(v: Option<i64>) -> Seq<u8> {
    match v {
        Some(x) => milli_text(x as int),
        None => "-".spec_bytes(),
    }
}

/// The fields of one channel in a row of the log, each followed by a comma: mean,
/// deviation, whether the pump ran, number of outliers, goal.
pub open spec fn channel_fields(
    mean: i64,
    stdev: Option<i64>,
    watered: bool,
    n_filtered: usize,
    goal: Option<i64>,
) -> Seq<u8> {
    milli_text(mean as int) + ",".spec_bytes() + optional_milli_text(stdev) + ",".spec_bytes()
        + flag_text(watered) + ",".spec_bytes() + digits_text(n_filtered as nat)
        + ",".spec_bytes() + optional_milli_text(goal) + ",".spec_bytes()
}

/// The fields of the first `k` channels.
pub open spec fn channels_text(
    means: Seq<i64>,
    stdevs: Seq<Option<i64>>,
    macetas_to_water: Seq<bool>,
    n_filtered: Seq<usize>,
    grams_goals: Seq<Option<i64>>,
    k: nat,
) -> Seq<u8>
    decreases k,
{
    if k == 0 {
        Seq::empty()
    } else {
        channels_text(means, stdevs, macetas_to_water, n_filtered, grams_goals, (k - 1) as nat)
            + channel_fields(
            means[k - 1],
            stdevs[k - 1],
            macetas_to_water[k - 1],
            n_filtered[k - 1],
            grams_goals[k - 1],
        )
    }
}

/// The last fields of a row: humidity and temperature, or two dashes, and the line end.
pub open spec fn ambient_text(dht: Option<DHTResult>) -> Seq<u8> {
    match dht {
        None => "-,-\n".spec_bytes(),
        Some(d) => milli_text(d.hum as int) + ",".spec_bytes() + milli_text(d.temp as int)
            + "\n".spec_bytes(),
    }
}

/// One row of the log.
pub open spec fn row_text(
    timestamp: Seq<u8>,
    means: Seq<i64>,
    stdevs: Seq<Option<i64>>,
    macetas_to_water: Seq<bool>,
    n_filtered: Seq<usize>,
    n_unsuccessful: usize,
    grams_goals: Seq<Option<i64>>,
    dht: Option<DHTResult>,
) -> Seq<u8> {
    timestamp + ",".spec_bytes() + channels_text(
        means,
        stdevs,
        macetas_to_water,
        n_filtered,
        grams_goals,
        means.len(),
    ) + digits_text(n_unsuccessful as nat) + ",".spec_bytes() + ambient_text(dht)
}

/// Every row of the log ends with a line feed, and in a log that exists already
/// nothing but the row is appended.
pub proof fn lemma_row_is_one_line(
    s: SystemState,
    timestamp: Seq<u8>,
    means: Seq<i64>,
    stdevs: Seq<Option<i64>>,
    macetas_to_water: Seq<bool>,
    n_filtered: Seq<usize>,
    n_unsuccessful: usize,
    grams_goals: Seq<Option<i64>>,
    dht: Option<DHTResult>,
)
    ensures
        row_text(
            timestamp,
            means,
            stdevs,
            macetas_to_water,
            n_filtered,
            n_unsuccessful,
            grams_goals,
            dht,
        ).last() == 10u8,
        s.log_text(
            timestamp,
            means,
            stdevs,
            macetas_to_water,
            n_filtered,
            n_unsuccessful,
            grams_goals,
            dht,
            true,
        ) == row_text(
            timestamp,
            means,
            stdevs,
            macetas_to_water,
            n_filtered,
            n_unsuccessful,
            grams_goals,
            dht,
        ),
{
    let row = row_text(
        timestamp,
        means,
        stdevs,
        macetas_to_water,
        n_filtered,
        n_unsuccessful,
        grams_goals,
        dht,
    );
    let tail = ambient_text(dht);
    reveal_strlit("\n");
    reveal_strlit("-,-\n");
    vstd::string::is_ascii_spec_bytes("\n");
    vstd::string::is_ascii_spec_bytes("-,-\n");
    assert("\n".spec_bytes().len() == 1 && "\n".spec_bytes()[0] == 10u8);
    assert("-,-\n".spec_bytes().len() == 4 && "-,-\n".spec_bytes()[3] == 10u8);
    assert(tail.len() > 0 && tail.last() == 10u8);
    assert(row.last() == tail.last());
    assert(Seq::<u8>::empty() + row =~= row);
}

/// Appending is associative: what is appended to a buffer piece by piece is appended
/// to it as a whole.
proof fn lemma_append(start: Seq<u8>, acc: Seq<u8>, more: Seq<u8>)
    ensures
        (start + acc) + more == start + (acc + more),
{
    assert((start + acc) + more =~= start + (acc + more));
}

/// Appends the column names of channel `i`.
fn push_channel_header(buf: &mut Vec<u8>, i: usize)
    ensures
        final(buf)@ == old(buf)@ + channel_header(i as nat),
{
    let ghost start = buf@;
    let ghost digits = digits_text(i as nat);
    push_str(buf, "balanza_avg_");
    let ghost mut acc = "balanza_avg_".spec_bytes();
    push_digits(buf, i as u128);
    proof {
        lemma_append(start, acc, digits);
        acc = acc + digits;
    }
    push_str(buf, ",balanza_std_");
    proof {
        lemma_append(start, acc, ",balanza_std_".spec_bytes());
        acc = acc + ",balanza_std_".spec_bytes();
    }
    push_digits(buf, i as u128);
    proof {
        lemma_append(start, acc, digits);
        acc = acc + digits;
    }
    push_str(buf, ",balanza_pump_state_");
    proof {
        lemma_append(start, acc, ",balanza_pump_state_".spec_bytes());
        acc = acc + ",balanza_pump_state_".spec_bytes();
    }
    push_digits(buf, i as u128);
    proof {
        lemma_append(start, acc, digits);
        acc = acc + digits;
    }
    push_str(buf, ",n_filtered_");
    proof {
        lemma_append(start, acc, ",n_filtered_".spec_bytes());
        acc = acc + ",n_filtered_".spec_bytes();
    }
    push_digits(buf, i as u128);
    proof {
        lemma_append(start, acc, digits);
        acc = acc + digits;
    }
    push_str(buf, ",grams_goals_");
    proof {
        lemma_append(start, acc, ",grams_goals_".spec_bytes());
        acc = acc + ",grams_goals_".spec_bytes();
    }
    push_digits(buf, i as u128);
    proof {
        lemma_append(start, acc, digits);
        acc = acc + digits;
    }
    push_str(buf, ",");
    proof {
        lemma_append(start, acc, ",".spec_bytes());
        acc = acc + ",".spec_bytes();
    }
    assert(acc == channel_header(i as nat));
}

/// Appends a value in thousandths, or a dash for none.
fn push_optional_milli(buf: &mut Vec<u8>, v: Option<i64>)
    ensures
        final(buf)@ == old(buf)@ + optional_milli_text(v),
{
    match v {
        Some(x) => push_milli(buf, x),
        None => push_str(buf, "-"),
    }
}

/// Appends the fields of one channel.
fn push_channel_fields(
    buf: &mut Vec<u8>,
    mean: i64,
    stdev: Option<i64>,
    watered: bool,
    n_filtered: usize,
    goal: Option<i64>,
)
    ensures
        final(buf)@ == old(buf)@ + channel_fields(mean, stdev, watered, n_filtered, goal),
{
    let ghost start = buf@;
    let ghost comma = ",".spec_bytes();
    push_milli(buf, mean);
    let ghost mut acc = milli_text(mean as int);
    push_str(buf, ",");
    proof {
        lemma_append(start, acc, comma);
        acc = acc + comma;
    }
    push_optional_milli(buf, stdev);
    proof {
        lemma_append(start, acc, optional_milli_text(stdev));
        acc = acc + optional_milli_text(stdev);
    }
    push_str(buf, ",");
    proof {
        lemma_append(start, acc, comma);
        acc = acc + comma;
    }
    push_str(
        buf,
        if watered {
            "1"
        } else {
            "0"
        },
    );
    proof {
        lemma_append(start, acc, flag_text(watered));
        acc = acc + flag_text(watered);
    }
    push_str(buf, ",");
    proof {
        lemma_append(start, acc, comma);
        acc = acc + comma;
    }
    push_digits(buf, n_filtered as u128);
    proof {
        lemma_append(start, acc, digits_text(n_filtered as nat));
        acc = acc + digits_text(n_filtered as nat);
    }
    push_str(buf, ",");
    proof {
        lemma_append(start, acc, comma);
        acc = acc + comma;
    }
    push_optional_milli(buf, goal);
    proof {
        lemma_append(start, acc, optional_milli_text(goal));
        acc = acc + optional_milli_text(goal);
    }
    push_str(buf, ",");
    proof {
        lemma_append(start, acc, comma);
        acc = acc + comma;
    }
    assert(acc == channel_fields(mean, stdev, watered, n_filtered, goal));
}

/// Appends the first line of the log of a rig with `n` channels.
fn push_header(buf: &mut Vec<u8>, n: u8)
    ensures
        final(buf)@ == old(buf)@ + header_text(n as nat),
{
    push_str(buf, "time,");
    let ghost start = buf@;
    let mut i: usize = 0;
    while i < n as usize
        invariant
            0 <= i <= n,
            buf@ == start + channel_headers(i as nat),
        decreases n - i,
    {
        push_channel_header(buf, i + 1);
        proof {
            lemma_append(start, channel_headers(i as nat), channel_header((i + 1) as nat));
        }
        i = i + 1;
    }
    push_str(buf, "n_unsuccessful,hum,temp\n");
    proof {
        lemma_append(
            old(buf)@,
            "time,".spec_bytes(),
            channel_headers(n as nat),
        );
        lemma_append(
            old(buf)@,
            "time,".spec_bytes() + channel_headers(n as nat),
            "n_unsuccessful,hum,temp\n".spec_bytes(),
        );
    }
}

/// Appends the fields of all channels.
fn push_channels(
    buf: &mut Vec<u8>,
    means: &[i64],
    stdevs: &[Option<i64>],
    macetas_to_water: &[bool],
    n_filtered: &[usize],
    grams_goals: &[Option<i64>],
)
    requires
        stdevs@.len() == means@.len(),
        macetas_to_water@.len() == means@.len(),
        n_filtered@.len() == means@.len(),
        grams_goals@.len() == means@.len(),
    ensures
        final(buf)@ == old(buf)@ + channels_text(
            means@,
            stdevs@,
            macetas_to_water@,
            n_filtered@,
            grams_goals@,
            means@.len(),
        ),
{
    let n: usize = means.len();
    let ghost start = buf@;
    let mut k: usize = 0;
    assert(buf@ =~= start + channels_text(
        means@,
        stdevs@,
        macetas_to_water@,
        n_filtered@,
        grams_goals@,
        0,
    ));
    while k < n
        invariant
            0 <= k <= n,
            n == means@.len(),
            n == stdevs@.len(),
            n == macetas_to_water@.len(),
            n == n_filtered@.len(),
            n == grams_goals@.len(),
            buf@ == start + channels_text(
                means@,
                stdevs@,
                macetas_to_water@,
                n_filtered@,
                grams_goals@,
                k as nat,
            ),
        decreases n - k,
    {
        push_channel_fields(
            buf,
            means[k],
            stdevs[k],
            macetas_to_water[k],
            n_filtered[k],
            grams_goals[k],
        );
        proof {
            lemma_append(
                start,
                channels_text(
                    means@,
                    stdevs@,
                    macetas_to_water@,
                    n_filtered@,
                    grams_goals@,
                    k as nat,
                ),
                channel_fields(
                    means@[k as int],
                    stdevs@[k as int],
                    macetas_to_water@[k as int],
                    n_filtered@[k as int],
                    grams_goals@[k as int],
                ),
            );
        }
        k = k + 1;
    }
}

/// Appends the ambient reading, or two dashes, and the line end.
fn push_ambient(buf: &mut Vec<u8>, dht: Option<DHTResult>)
    ensures
        final(buf)@ == old(buf)@ + ambient_text(dht),
{
    match dht {
        None => push_str(buf, "-,-\n"),
        Some(d) => {
            push_milli(buf, d.hum);
            push_str(buf, ",");
            push_milli(buf, d.temp);
            push_str(buf, "\n");
            assert(buf@ =~= old(buf)@ + ambient_text(dht));
        },
    }
}

/// Appends one row of the log.
fn push_row(
    buf: &mut Vec<u8>,
    timestamp: &[u8],
    means: &[i64],
    stdevs: &[Option<i64>],
    macetas_to_water: &[bool],
    n_filtered: &[usize],
    n_unsuccessful: usize,
    grams_goals: &[Option<i64>],
    dht: Option<DHTResult>,
)
    requires
        stdevs@.len() == means@.len(),
        macetas_to_water@.len() == means@.len(),
        n_filtered@.len() == means@.len(),
        grams_goals@.len() == means@.len(),
    ensures
        final(buf)@ == old(buf)@ + row_text(
            timestamp@,
            means@,
            stdevs@,
            macetas_to_water@,
            n_filtered@,
            n_unsuccessful,
            grams_goals@,
            dht,
        ),
{
    let ghost start = buf@;
    let ghost comma = ",".spec_bytes();
    let ghost channels = channels_text(
        means@,
        stdevs@,
        macetas_to_water@,
        n_filtered@,
        grams_goals@,
        means@.len(),
    );
    push_bytes(buf, timestamp);
    let ghost mut acc = timestamp@;
    push_str(buf, ",");
    proof {
        lemma_append(start, acc, comma);
        acc = acc + comma;
    }
    push_channels(buf, means, stdevs, macetas_to_water, n_filtered, grams_goals);
    proof {
        lemma_append(start, acc, channels);
        acc = acc + channels;
    }
    push_digits(buf, n_unsuccessful as u128);
    proof {
        lemma_append(start, acc, digits_text(n_unsuccessful as nat));
        acc = acc + digits_text(n_unsuccessful as nat);
    }
    push_str(buf, ",");
    proof {
        lemma_append(start, acc, comma);
        acc = acc + comma;
    }
    push_ambient(buf, dht);
    proof {
        lemma_append(start, acc, ambient_text(dht));
        acc = acc + ambient_text(dht);
    }
    assert(acc == row_text(
        timestamp@,
        means@,
        stdevs@,
        macetas_to_water@,
        n_filtered@,
        n_unsuccessful,
        grams_goals@,
        dht,
    ));
}

impl SystemState {
    /// What is appended to the log for one tick: the row, after the header where the
    /// log is new.
    pub open spec fn log_text(
        self,
        timestamp: Seq<u8>,
        means: Seq<i64>,
        stdevs: Seq<Option<i64>>,
        macetas_to_water: Seq<bool>,
        n_filtered: Seq<usize>,
        n_unsuccessful: usize,
        grams_goals: Seq<Option<i64>>,
        dht: Option<DHTResult>,
        file_exists: bool,
    ) -> Seq<u8> {
        (if file_exists {
            Seq::<u8>::empty()
        } else {
            header_text(self.n_balanzas as nat)
        }) + row_text(
            timestamp,
            means,
            stdevs,
            macetas_to_water,
            n_filtered,
            n_unsuccessful,
            grams_goals,
            dht,
        )
    }

    /// Each of the five lists holds one value per channel.
    pub open spec fn fits(
        self,
        means: Seq<i64>,
        stdevs: Seq<Option<i64>>,
        macetas_to_water: Seq<bool>,
        n_filtered: Seq<usize>,
        grams_goals: Seq<Option<i64>>,
    ) -> bool {
        &&& means.len() == self.n_balanzas
        &&& stdevs.len() == self.n_balanzas
        &&& macetas_to_water.len() == self.n_balanzas
        &&& n_filtered.len() == self.n_balanzas
        &&& grams_goals.len() == self.n_balanzas
    }
}

impl SystemState {
    /// What is appended to the log for the tick made at the second `now_secs` after the
    /// start of 1970; nothing where that second has no date, or where the lists do not
    /// hold one value per channel.
    pub open spec fn log_tick(
        self,
        means: Seq<i64>,
        stdevs: Seq<Option<i64>>,
        macetas_to_water: Seq<bool>,
        n_filtered: Seq<usize>,
        n_unsuccessful: usize,
        grams_goals: Seq<Option<i64>>,
        dht: Option<DHTResult>,
        now_secs: i64,
        file_exists: bool,
    ) -> Result<Seq<u8>, SystemFault> {
        match timestamp_text(now_secs) {
            None => Err(SystemFault::SystemTimeError),
            Some(stamp) => if self.fits(
                means,
                stdevs,
                macetas_to_water,
                n_filtered,
                grams_goals,
            ) {
                Ok(
                    self.log_text(
                        stamp,
                        means,
                        stdevs,
                        macetas_to_water,
                        n_filtered,
                        n_unsuccessful,
                        grams_goals,
                        dht,
                        file_exists,
                    ),
                )
            } else {
                Err(SystemFault::NBalanzasMismatchError)
            },
        }
    }
}

/// What the writing of a log entry gave, as a plain value.
pub open spec fn content_view(r: Result<Vec<u8>, SystemError>) -> Result<Seq<u8>, SystemFault> {
    match r {
        Ok(content) => Ok(content@),
        Err(e) => Err(e@),
    }
}

impl System {
    /// Writes what is to be appended to the log for one tick that is stamped
    /// `timestamp`. The lists must hold one value per channel.
    pub fn log_row(
        &self,
        timestamp: &[u8],
        means: &[i64],
        stdevs: &[Option<i64>],
        macetas_to_water: &[bool],
        n_filtered: &[usize],
        n_unsuccessful: usize,
        grams_goals: &[Option<i64>],
        dht: Option<DHTResult>,
        file_exists: bool,
    ) -> (r: Result<Vec<u8>, SystemError>)
        ensures
            r.is_ok() <==> self@.fits(
                means@,
                stdevs@,
                macetas_to_water@,
                n_filtered@,
                grams_goals@,
            ),
            r matches Err(e) ==> e@ == SystemFault::NBalanzasMismatchError,
            r matches Ok(content) ==> content@ == self@.log_text(
                timestamp@,
                means@,
                stdevs@,
                macetas_to_water@,
                n_filtered@,
                n_unsuccessful,
                grams_goals@,
                dht,
                file_exists,
            ),
    {
        let n: usize = self.n_balanzas as usize;
        if means.len() != n || stdevs.len() != n || macetas_to_water.len() != n || n_filtered.len()
            != n || grams_goals.len() != n {
            return Err(SystemError::NBalanzasMismatchError);
        }
        let mut content: Vec<u8> = Vec::new();
        if !file_exists {
            push_header(&mut content, self.n_balanzas);
        }
        push_row(
            &mut content,
            timestamp,
            means,
            stdevs,
            macetas_to_water,
            n_filtered,
            n_unsuccessful,
            grams_goals,
            dht,
        );
        Ok(content)
    }

    /// Writes what is to be appended to the log for the tick made at the second
    /// `now_secs` after the start of 1970. Fails where that second has no date.
    pub fn log_tick(
        &self,
        means: &[i64],
        stdevs: &[Option<i64>],
        macetas_to_water: &[bool],
        n_filtered: &[usize],
        n_unsuccessful: usize,
        grams_goals: &[Option<i64>],
        dht: Option<DHTResult>,
        now_secs: i64,
        file_exists: bool,
    ) -> (r: Result<Vec<u8>, SystemError>)
        ensures
            r.is_ok() <==> timestamp_text(now_secs).is_some() && self@.fits(
                means@,
                stdevs@,
                macetas_to_water@,
                n_filtered@,
                grams_goals@,
            ),
            r matches Err(e) ==> e@ == (if timestamp_text(now_secs).is_none() {
                SystemFault::SystemTimeError
            } else {
                SystemFault::NBalanzasMismatchError
            }),
            r matches Ok(content) ==> timestamp_text(now_secs) matches Some(stamp) && content@
                == self@.log_text(
                stamp,
                means@,
                stdevs@,
                macetas_to_water@,
                n_filtered@,
                n_unsuccessful,
                grams_goals@,
                dht,
                file_exists,
            ),
            content_view(r) == self@.log_tick(
                means@,
                stdevs@,
                macetas_to_water@,
                n_filtered@,
                n_unsuccessful,
                grams_goals@,
                dht,
                now_secs,
                file_exists,
            ),
    {
        match now_timestamp(now_secs) {
            None => Err(SystemError::SystemTimeError),
            Some(now_str) => self.log_row(
                now_str.as_slice(),
                means,
                stdevs,
                macetas_to_water,
                n_filtered,
                n_unsuccessful,
                grams_goals,
                dht,
                file_exists,
            ),
        }
    }
}

/// How long a tick waits before it has the scales read again, in milliseconds.
pub const READ_RETRY_MS: u64 = 1000;

/// What a tick decides on the reads of the scales.
#[derive(Debug)]
pub enum TickDecision {
    /// The scales gave no weights: sleep for so many milliseconds, have them read
    /// again, and tick again.
    ReadAgain(u64),
    /// Water the pots as planned, and log the weights and the raw statistics.
    Proceed { plan: TickPlan, weights: Vec<i64>, stats: Stats },
    /// The tick failed.
    Fail(SystemError),
}

/// A [`TickDecision`] as a plain value.
pub enum TickDecided {
    ReadAgain(u64),
    Proceed { plan: TickView, weighing: Weighing },
    Fail(SystemFault),
}

impl View for TickDecision {
    type V = TickDecided;

    open spec fn view(&self) -> TickDecided {
        match self {
            TickDecision::ReadAgain(ms) => TickDecided::ReadAgain(*ms),
            TickDecision::Proceed { plan, weights, stats } => TickDecided::Proceed {
                plan: plan@,
                weighing: Weighing {
                    weights: weights@,
                    raw_means: stats.0@,
                    raw_stdevs: stats.1@,
                    outliers: stats.2@,
                    n_failed: stats.3,
                },
            },
            TickDecision::Fail(e) => TickDecided::Fail(e@),
        }
    }
}

impl SystemState {
    /// The state after the reads `reads` have been taken in at time `now`, and what is
    /// decided on them.
    ///
    /// Where the scales give no weights, for whatever reason, they are read again after
    /// a second. Weights that the scales do give are taken in; what fails then fails the
    /// tick.
    pub open spec fn tick_on_reads(
        self,
        reads: Seq<Result<Vec<u8>, SerialManagerError>>,
        now: u64,
    ) -> (SystemState, TickDecided) {
        match self.balanzas.weigh(reads) {
            Err(_) => (self, TickDecided::ReadAgain(READ_RETRY_MS)),
            Ok(weighing) => {
                let decided = self.tick_with_weights(
                    weighing.weights,
                    weighing.raw_stdevs.len(),
                    weighing.outliers.len(),
                    now,
                );
                (
                    decided.0,
                    match decided.1 {
                        Ok(plan) => TickDecided::Proceed { plan, weighing },
                        Err(fault) => TickDecided::Fail(fault),
                    },
                )
            },
        }
    }
}

impl System {
    /// Takes in, at time `now`, the reads of the scales whose exchanges ended as `reads`
    /// says: weighs the pots, updates the schedules, and decides which pots to water and
    /// in which order.
    pub fn tick_on_reads(
        &mut self,
        reads: &Vec<Result<Vec<u8>, SerialManagerError>>,
        now: u64,
    ) -> (action: TickDecision)
        ensures
            final(self).wf(),
            (final(self)@, action@) == old(self)@.tick_on_reads(reads@, now),
    {
        proof {
            use_type_invariant(&*self);
        }
        match self.balanzas.read_stats(reads) {
            Err(_) => TickDecision::ReadAgain(READ_RETRY_MS),
            Ok(found) => {
                let weights = found.0;
                let stats = found.1;
                match self.tick_with_weights(&weights, &stats.1, &stats.2, now) {
                    Ok(plan) => TickDecision::Proceed { plan, weights, stats },
                    Err(e) => TickDecision::Fail(e),
                }
            },
        }
    }
}

/// Where a safe move of the stepper stands.
#[derive(Debug, Clone, Copy, PartialEq, Eq, Structural)]
pub enum MovePhase {
    /// The controller is being stored; the move is sent once it is.
    Store(StepperMove),
    /// The move is being sent.
    Send,
    Finished,
}

/// What came of the last action of a safe move.
#[derive(Debug)]
pub enum MoveEvent {
    /// The controller was stored, or could not be.
    Stored(bool),
    /// The device answered the move, or the exchange failed.
    Sent(Result<(), SerialManagerError>),
}

/// What the caller is to do next in a safe move.
#[derive(Debug)]
pub enum MoveAction {
    /// Store the controller as it now stands.
    Store,
    /// Send this move to the device.
    Stepper(StepperMove),
    /// Nothing more: the move is over, with this outcome.
    Done(Result<(), SystemError>),
}

/// A [`MoveAction`] as a plain value.
pub enum MoveStep {
    Store,
    Stepper(StepperMove),
    Done(Result<(), SystemFault>),
}

impl View for MoveAction {
    type V = MoveStep;

    open spec fn view(&self) -> MoveStep {
        match self {
            MoveAction::Store => MoveStep::Store,
            MoveAction::Stepper(m) => MoveStep::Stepper(*m),
            MoveAction::Done(Ok(_)) => MoveStep::Done(Ok(())),
            MoveAction::Done(Err(e)) => MoveStep::Done(Err(e@)),
        }
    }
}

impl SystemState {
    /// How a safe move to `next_pos` begins: with the storing of the controller, or not
    /// at all where the stepper stands there.
    pub open spec fn stepper_move_begin(self, next_pos: i32, detach: bool) -> (
        MovePhase,
        MoveStep,
    ) {
        match self.stepper_move(next_pos, detach) {
            None => (MovePhase::Finished, MoveStep::Done(Ok(()))),
            Some(m) => (MovePhase::Store(m), MoveStep::Store),
        }
    }

    /// The phase and the action that follow in a safe move when `event` comes in.
    ///
    /// The move is sent only once the controller has been stored. Where it could not be
    /// stored, nothing is sent and the move fails. An event that does not answer the
    /// action ends the move.
    pub open spec fn stepper_move_step(phase: MovePhase, event: MoveEvent) -> (
        MovePhase,
        MoveStep,
    ) {
        match (phase, event) {
            (MovePhase::Store(m), MoveEvent::Stored(true)) => (
                MovePhase::Send,
                MoveStep::Stepper(m),
            ),
            (MovePhase::Store(_), MoveEvent::Stored(false)) => (
                MovePhase::Finished,
                MoveStep::Done(Err(SystemFault::IOError)),
            ),
            (MovePhase::Send, MoveEvent::Sent(Ok(_))) => (
                MovePhase::Finished,
                MoveStep::Done(Ok(())),
            ),
            (MovePhase::Send, MoveEvent::Sent(Err(e))) => (
                MovePhase::Finished,
                MoveStep::Done(Err(SystemFault::SerialManagerError(e@))),
            ),
            (_, _) => (
                MovePhase::Finished,
                MoveStep::Done(Err(SystemFault::SerialManagerError(SerialFault::IOError))),
            ),
        }
    }
}

/// A move is handed out for sending only after the controller has been stored, and it
/// is the move that was to be stored for.
pub proof fn lemma_move_is_sent_after_store(phase: MovePhase, event: MoveEvent)
    ensures
        SystemState::stepper_move_step(phase, event).1 matches MoveStep::Stepper(m) ==> phase
            == MovePhase::Store(m) && event matches MoveEvent::Stored(true),
        (phase is Store && event matches MoveEvent::Stored(false))
            ==> SystemState::stepper_move_step(phase, event) == (
            MovePhase::Finished,
            MoveStep::Done(Err::<(), SystemFault>(SystemFault::IOError)),
        ),
{
}

impl System {
    /// Begins a safe move of the stepper to `next_pos`: takes note that the stepper goes
    /// there, and has the controller stored before anything is sent.
    pub fn stepper_move_begin(&mut self, next_pos: i32, detach: bool) -> (r: (
        MovePhase,
        MoveAction,
    ))
        ensures
            final(self).wf(),
            (r.0, r.1@) == old(self)@.stepper_move_begin(next_pos, detach),
            final(self)@ == (SystemState { stepper_pos: next_pos, ..old(self)@ }),
    {
        match self.stepper_move_safe(next_pos, detach) {
            None => (MovePhase::Finished, MoveAction::Done(Ok(()))),
            Some(m) => (MovePhase::Store(m), MoveAction::Store),
        }
    }

    /// Takes in what came of the last action of a safe move, and says what to do next.
    pub fn stepper_move_step(phase: MovePhase, event: MoveEvent) -> (r: (MovePhase, MoveAction))
        ensures
            (r.0, r.1@) == SystemState::stepper_move_step(phase, event),
    {
        match (phase, event) {
            (MovePhase::Store(m), MoveEvent::Stored(true)) => (
                MovePhase::Send,
                MoveAction::Stepper(m),
            ),
            (MovePhase::Store(_), MoveEvent::Stored(false)) => (
                MovePhase::Finished,
                MoveAction::Done(Err(SystemError::IOError)),
            ),
            (MovePhase::Send, MoveEvent::Sent(Ok(_))) => (
                MovePhase::Finished,
                MoveAction::Done(Ok(())),
            ),
            (MovePhase::Send, MoveEvent::Sent(Err(e))) => (
                MovePhase::Finished,
                MoveAction::Done(Err(SystemError::SerialManagerError(e))),
            ),
            (_, _) => (
                MovePhase::Finished,
                MoveAction::Done(
                    Err(SystemError::SerialManagerError(SerialManagerError::IOError)),
                ),
            ),
        }
    }
}

/// The intensity with which a tick waters.
pub const TICK_INTENSITY: i32 = 0;

/// Where a tick stands.
#[derive(Debug, Clone, Copy, PartialEq, Eq, Structural)]
pub enum TickPhase {
    /// The scales are being read.
    Weigh,
    /// The tick sleeps before the scales are read again.
    Retry,
    /// The pot that stands at this place of the order is being watered.
    Water(usize),
    /// The ambient sensor is being asked.
    Ambient,
    /// The row is being appended to the log.
    Log,
    Finished,
}

/// What came of the last action of a tick.
#[derive(Debug)]
pub enum TickEvent {
    /// The scales were read at time `now`; the exchanges ended as `reads` says.
    Reads { reads: Vec<Result<Vec<u8>, SerialManagerError>>, now: u64 },
    /// The sleep is over.
    Slept,
    /// The pot was watered, or the watering failed.
    Watered(Result<(), SystemError>),
    /// The ambient sensor answered, or the exchange failed. With it come what the row
    /// needs from outside: the errors of the weights, the second of the clock, and
    /// whether the log exists.
    Ambient {
        reading: Result<DHTResult, SerialManagerError>,
        stdevs: Vec<Option<i64>>,
        now_secs: i64,
        file_exists: bool,
    },
    /// The row was appended, or could not be.
    Logged(bool),
}

/// What the caller is to do next in a tick.
#[derive(Debug)]
pub enum TickAction {
    /// Ask the scales for the reads of one statistic.
    ReadScales,
    /// Sleep for so many milliseconds.
    Sleep(u64),
    /// Water the pot at `index` with `intensity`, as [`System::water`] says.
    Water { index: usize, intensity: i32 },
    /// Ask the ambient sensor.
    AskAmbient,
    /// Append these bytes to the log.
    Append(Vec<u8>),
    /// Nothing more: the tick is over, with this outcome.
    Done(Result<(), SystemError>),
}

/// A [`TickAction`] as a plain value.
pub enum TickStep {
    ReadScales,
    Sleep(u64),
    Water { index: usize, intensity: i32 },
    AskAmbient,
    Append(Seq<u8>),
    Done(Result<(), SystemFault>),
}

impl View for TickAction {
    type V = TickStep;

    open spec fn view(&self) -> TickStep {
        match self {
            TickAction::ReadScales => TickStep::ReadScales,
            TickAction::Sleep(ms) => TickStep::Sleep(*ms),
            TickAction::Water { index, intensity } => TickStep::Water {
                index: *index,
                intensity: *intensity,
            },
            TickAction::AskAmbient => TickStep::AskAmbient,
            TickAction::Append(content) => TickStep::Append(content@),
            TickAction::Done(Ok(_)) => TickStep::Done(Ok(())),
            TickAction::Done(Err(e)) => TickStep::Done(Err(e@)),
        }
    }
}

/// A tick under way: its phase, and what it has weighed and decided.
#[derive(Debug)]
pub struct Tick {
    pub phase: TickPhase,
    pub plan: TickPlan,
    pub weights: Vec<i64>,
    pub stats: Stats,
}

/// What a [`Tick`] holds, as plain values.
pub struct TickState {
    pub phase: TickPhase,
    pub plan: TickView,
    pub weighing: Weighing,
}

impl View for Tick {
    type V = TickState;

    open spec fn view(&self) -> TickState {
        TickState {
            phase: self.phase,
            plan: self.plan@,
            weighing: Weighing {
                weights: self.weights@,
                raw_means: self.stats.0@,
                raw_stdevs: self.stats.1@,
                outliers: self.stats.2@,
                n_failed: self.stats.3,
            },
        }
    }
}

impl TickState {
    /// A tick that has not weighed anything yet.
    pub open spec fn fresh() -> TickState {
        TickState {
            phase: TickPhase::Weigh,
            plan: TickView {
                macetas_to_water: Seq::empty(),
                grams_goals: Seq::empty(),
                order: Seq::empty(),
            },
            weighing: Weighing {
                weights: Seq::empty(),
                raw_means: Seq::empty(),
                raw_stdevs: Seq::empty(),
                outliers: Seq::empty(),
                n_failed: 0,
            },
        }
    }

    /// The same tick in the phase `phase`.
    pub open spec fn goto(self, phase: TickPhase) -> TickState {
        TickState { phase, ..self }
    }

    /// What follows once the pots up to place `done` of the order have been watered:
    /// the next pot of the order, or the question to the ambient sensor after the last.
    pub open spec fn after_watering(self, done: int) -> (TickState, TickStep) {
        if 0 <= done < self.plan.order.len() {
            (
                self.goto(TickPhase::Water(done as usize)),
                TickStep::Water { index: self.plan.order[done], intensity: TICK_INTENSITY },
            )
        } else {
            (self.goto(TickPhase::Ambient), TickStep::AskAmbient)
        }
    }
}

impl SystemState {
    /// The controller, the tick and the action that follow when `event` comes in.
    ///
    /// The scales are read, and read again after a pause for as long as they give no
    /// weights. The weights are taken in and the pots that need water are watered one
    /// after the other in the order of the route; a watering that fails fails the tick.
    /// Only then the ambient sensor is asked; where it fails, the reading counts as
    /// missing. The row is written last, and the tick is over once it is appended. An
    /// event that does not answer the action ends the tick.
    pub open spec fn tick_step(self, tick: TickState, event: TickEvent) -> (
        SystemState,
        TickState,
        TickStep,
    ) {
        match (tick.phase, event) {
            (TickPhase::Weigh, TickEvent::Reads { reads, now }) => {
                let decided = self.tick_on_reads(reads@, now);
                match decided.1 {
                    TickDecided::ReadAgain(ms) => (
                        decided.0,
                        tick.goto(TickPhase::Retry),
                        TickStep::Sleep(ms),
                    ),
                    TickDecided::Fail(fault) => (
                        decided.0,
                        tick.goto(TickPhase::Finished),
                        TickStep::Done(Err(fault)),
                    ),
                    TickDecided::Proceed { plan, weighing } => {
                        let next = (TickState { phase: tick.phase, plan, weighing }).after_watering(
                            0,
                        );
                        (decided.0, next.0, next.1)
                    },
                }
            },
            (TickPhase::Retry, TickEvent::Slept) => (
                self,
                tick.goto(TickPhase::Weigh),
                TickStep::ReadScales,
            ),
            (TickPhase::Water(place), TickEvent::Watered(Ok(_))) => {
                let next = tick.after_watering(place + 1);
                (self, next.0, next.1)
            },
            (TickPhase::Water(_), TickEvent::Watered(Err(e))) => (
                self,
                tick.goto(TickPhase::Finished),
                TickStep::Done(Err(e@)),
            ),
            (TickPhase::Ambient, TickEvent::Ambient { reading, stdevs, now_secs, file_exists }) => {
                let dht = match reading {
                    Ok(d) => Some(d),
                    Err(_) => None,
                };
                match self.log_tick(
                    tick.weighing.weights,
                    stdevs@,
                    tick.plan.macetas_to_water,
                    tick.weighing.outliers,
                    tick.weighing.n_failed,
                    tick.plan.grams_goals,
                    dht,
                    now_secs,
                    file_exists,
                ) {
                    Ok(content) => (self, tick.goto(TickPhase::Log), TickStep::Append(content)),
                    Err(fault) => (
                        self,
                        tick.goto(TickPhase::Finished),
                        TickStep::Done(Err(fault)),
                    ),
                }
            },
            (TickPhase::Log, TickEvent::Logged(true)) => (
                self,
                tick.goto(TickPhase::Finished),
                TickStep::Done(Ok(())),
            ),
            (TickPhase::Log, TickEvent::Logged(false)) => (
                self,
                tick.goto(TickPhase::Finished),
                TickStep::Done(Err(SystemFault::IOError)),
            ),
            (_, _) => (
                self,
                tick.goto(TickPhase::Finished),
                TickStep::Done(Err(SystemFault::SerialManagerError(SerialFault::IOError))),
            ),
        }
    }
}

/// In a tick the ambient sensor is asked only when the watering is over, a row is
/// appended only on the answer about the sensor, and the tick ends well only once the
/// row is appended.
pub proof fn lemma_tick_order(s: SystemState, tick: TickState, event: TickEvent)
    ensures
        s.tick_step(tick, event).2 is AskAmbient ==> (tick.phase is Weigh || tick.phase is Water)
            && s.tick_step(tick, event).1.phase == TickPhase::Ambient,
        s.tick_step(tick, event).2 is Water ==> (tick.phase is Weigh || tick.phase is Water),
        s.tick_step(tick, event).2 is Append ==> tick.phase == TickPhase::Ambient
            && s.tick_step(tick, event).1.phase == TickPhase::Log,
        s.tick_step(tick, event).2 == TickStep::Done(Ok::<(), SystemFault>(())) ==> tick.phase
            == TickPhase::Log && event matches TickEvent::Logged(true),
{
}

impl TickState {
    /// How many rows the tick may still have appended: one until it has handed its row
    /// out.
    pub open spec fn appends_left(self) -> int {
        match self.phase {
            TickPhase::Log | TickPhase::Finished => 0,
            _ => 1,
        }
    }
}

impl SystemState {
    /// How many rows the tick has appended while the events `events` come in.
    pub open spec fn appends_over(self, tick: TickState, events: Seq<TickEvent>) -> nat
        decreases events.len(),
    {
        if events.len() == 0 {
            0
        } else {
            let next = self.tick_step(tick, events[0]);
            let appended: nat = if next.2 is Append {
                1
            } else {
                0
            };
            appended + next.0.appends_over(next.1, events.skip(1))
        }
    }
}

/// Whatever comes in, a tick has at most one row appended to the log.
pub proof fn lemma_tick_appends_one_row(s: SystemState, tick: TickState, events: Seq<TickEvent>)
    ensures
        s.appends_over(tick, events) <= tick.appends_left() <= 1,
    decreases events.len(),
{
    if events.len() > 0 {
        let next = s.tick_step(tick, events[0]);
        assert(next.1.appends_left() + (if next.2 is Append {
            1int
        } else {
            0int
        }) <= tick.appends_left());
        lemma_tick_appends_one_row(next.0, next.1, events.skip(1));
    }
}

/// A failure of the ambient sensor fails no tick: the row is written as with a reading,
/// with the reading left out.
pub proof fn lemma_tick_ambient_failure(
    s: SystemState,
    tick: TickState,
    fault: SerialManagerError,
    stdevs: Vec<Option<i64>>,
    now_secs: i64,
    file_exists: bool,
)
    requires
        tick.phase == TickPhase::Ambient,
    ensures
        s.tick_step(
            tick,
            TickEvent::Ambient { reading: Err(fault), stdevs, now_secs, file_exists },
        ).2 == (match s.log_tick(
            tick.weighing.weights,
            stdevs@,
            tick.plan.macetas_to_water,
            tick.weighing.outliers,
            tick.weighing.n_failed,
            tick.plan.grams_goals,
            None,
            now_secs,
            file_exists,
        ) {
            Ok(content) => TickStep::Append(content),
            Err(f) => TickStep::Done(Err(f)),
        }),
{
}

impl System {
    /// Starts a tick: the first thing to do is to read the scales.
    pub fn tick(&self) -> (r: (Tick, TickAction))
        ensures
            r.0@ == TickState::fresh(),
            r.1@ == TickStep::ReadScales,
    {
        (
            Tick {
                phase: TickPhase::Weigh,
                plan: TickPlan {
                    macetas_to_water: Vec::new(),
                    grams_goals: Vec::new(),
                    order: Vec::new(),
                },
                weights: Vec::new(),
                stats: (Vec::new(), Vec::new(), Vec::new(), 0),
            },
            TickAction::ReadScales,
        )
    }

    /// Takes in what came of the last action of the tick `tick`, and says what to do
    /// next.
    pub fn tick_step(&mut self, tick: &mut Tick, event: TickEvent) -> (action: TickAction)
        ensures
            final(self).wf(),
            (final(self)@, final(tick)@, action@) == old(self)@.tick_step(old(tick)@, event),
    {
        proof {
            use_type_invariant(&*self);
        }
        match (tick.phase, event) {
            (TickPhase::Weigh, TickEvent::Reads { reads, now }) => {
                match self.tick_on_reads(&reads, now) {
                    TickDecision::ReadAgain(ms) => {
                        tick.phase = TickPhase::Retry;
                        TickAction::Sleep(ms)
                    },
                    TickDecision::Fail(e) => {
                        tick.phase = TickPhase::Finished;
                        TickAction::Done(Err(e))
                    },
                    TickDecision::Proceed { plan, weights, stats } => {
                        tick.plan = plan;
                        tick.weights = weights;
                        tick.stats = stats;
                        Self::after_watering(tick, 0)
                    },
                }
            },
            (TickPhase::Retry, TickEvent::Slept) => {
                tick.phase = TickPhase::Weigh;
                TickAction::ReadScales
            },
            (TickPhase::Water(place), TickEvent::Watered(Ok(_))) => {
                let n = tick.plan.order.len();
                if place < n {
                    Self::after_watering(tick, place + 1)
                } else {
                    tick.phase = TickPhase::Ambient;
                    TickAction::AskAmbient
                }
            },
            (TickPhase::Water(_), TickEvent::Watered(Err(e))) => {
                tick.phase = TickPhase::Finished;
                TickAction::Done(Err(e))
            },
            (TickPhase::Ambient, TickEvent::Ambient { reading, stdevs, now_secs, file_exists }) => {
                let dht = match reading {
                    Ok(d) => Some(d),
                    Err(_) => None,
                };
                match self.log_tick(
                    tick.weights.as_slice(),
                    stdevs.as_slice(),
                    tick.plan.macetas_to_water.as_slice(),
                    tick.stats.2.as_slice(),
                    tick.stats.3,
                    tick.plan.grams_goals.as_slice(),
                    dht,
                    now_secs,
                    file_exists,
                ) {
                    Ok(content) => {
                        tick.phase = TickPhase::Log;
                        TickAction::Append(content)
                    },
                    Err(e) => {
                        tick.phase = TickPhase::Finished;
                        TickAction::Done(Err(e))
                    },
                }
            },
            (TickPhase::Log, TickEvent::Logged(true)) => {
                tick.phase = TickPhase::Finished;
                TickAction::Done(Ok(()))
            },
            (TickPhase::Log, TickEvent::Logged(false)) => {
                tick.phase = TickPhase::Finished;
                TickAction::Done(Err(SystemError::IOError))
            },
            (_, _) => {
                tick.phase = TickPhase::Finished;
                TickAction::Done(
                    Err(SystemError::SerialManagerError(SerialManagerError::IOError)),
                )
            },
        }
    }

    /// Goes on with the pot at place `done` of the order, or with the ambient sensor
    /// where the order is through.
    fn after_watering(tick: &mut Tick, done: usize) -> (action: TickAction)
        ensures
            (final(tick)@, action@) == old(tick)@.after_watering(done as int),
    {
        if done < tick.plan.order.len() {
            tick.phase = TickPhase::Water(done);
            TickAction::Water { index: tick.plan.order[done], intensity: TICK_INTENSITY }
        } else {
            tick.phase = TickPhase::Ambient;
            TickAction::AskAmbient
        }
    }
}

} // verus!
