//! Controller state and the sampling rules: debounce, latch and change
//! detection, one tick at a time.

use vstd::prelude::*;

verus! {

/// How many active observations of the autonomous input make one toggle.
pub const DEBOUNCE_THRESHOLD: u8 = 3;

/// The latest known operator intent.
///
/// The axes hold the raw samples as the input source delivers them.
#[derive(Clone, Copy, Debug, PartialEq, Eq, Structural)]
pub struct ControllerState {
    pub x_axis: u16,
    pub y_axis: u16,
    /// Set by the first active E-stop observation and never cleared.
    pub estop_latched: bool,
    pub autonomous_toggle: bool,
}

/// What the input source delivers in one tick. A digital input is `true`
/// while it is pressed, whatever the wiring's polarity.
#[derive(Clone, Copy, Debug, PartialEq, Eq, Structural)]
pub struct InputSample {
    pub x_axis: u16,
    pub y_axis: u16,
    pub estop_active: bool,
    pub autonomous_active: bool,
}

/// The input source could not deliver a sample in this tick.
#[derive(Clone, Copy, Debug, PartialEq, Eq, Structural)]
pub struct InputReadError;

/// The sampler as the contracts see it: the committed state and the count
/// of active autonomous observations since the last toggle.
pub struct SamplerModel {
    pub state: ControllerState,
    pub debounce: nat,
}

/// The sampler: owner of the controller state and of the debounce counter.
/// The counter always stays below [`DEBOUNCE_THRESHOLD`].
pub struct Sampler {
    state: ControllerState,
    debounce: u8,
}

/// The state at startup: axes at zero, nothing latched, nothing toggled.
pub open spec fn initial_state() -> ControllerState {
    ControllerState { x_axis: 0, y_axis: 0, estop_latched: false, autonomous_toggle: false }
}

/// Whether this sample completes the debounce, so that the toggle flips.
pub open spec fn fires(debounce: nat, sample: InputSample) -> bool {
    sample.autonomous_active && debounce + 1 >= DEBOUNCE_THRESHOLD
}

/// The counter after a sample: one more for an active observation, zero
/// when the toggle flips, unchanged for an inactive observation.
pub open spec fn debounce_after(debounce: nat, sample: InputSample) -> nat {
    if !sample.autonomous_active {
        debounce
    } else if fires(debounce, sample) {
        0
    } else {
        debounce + 1
    }
}

/// The state that a sample commits.
pub open spec fn state_after(m: SamplerModel, sample: InputSample) -> ControllerState {
    ControllerState {
        x_axis: sample.x_axis,
        y_axis: sample.y_axis,
        estop_latched: m.state.estop_latched || sample.estop_active,
        autonomous_toggle: if fires(m.debounce, sample) {
            !m.state.autonomous_toggle
        } else {
            m.state.autonomous_toggle
        },
    }
}

/// The sampler after one tick. A failed read commits nothing.
pub open spec fn tick(m: SamplerModel, reading: Result<InputSample, InputReadError>)
    -> SamplerModel {
    match reading {
        Ok(sample) => SamplerModel {
            state: state_after(m, sample),
            debounce: debounce_after(m.debounce, sample),
        },
        Err(_) => m,
    }
}

/// The snapshot that one tick hands to the transmitter: the committed state
/// where it differs from the one before, nothing otherwise.
pub open spec fn forwarded(m: SamplerModel, reading: Result<InputSample, InputReadError>)
    -> Option<ControllerState> {
    if tick(m, reading).state != m.state {
        Some(tick(m, reading).state)
    } else {
        None
    }
}

/// The sampler after a run of ticks, the first reading first.
pub open spec fn run(m: SamplerModel, readings: Seq<Result<InputSample, InputReadError>>)
    -> SamplerModel
    decreases readings.len(),
{
    if readings.len() == 0 {
        m
    } else {
        tick(run(m, readings.drop_last()), readings.last())
    }
}

impl SamplerModel {
    /// The counter is below the threshold.
    pub open spec fn wf(self) -> bool {
        self.debounce < DEBOUNCE_THRESHOLD
    }
}

impl View for Sampler {
    type V = SamplerModel;

    closed spec fn view(&self) -> SamplerModel {
        SamplerModel { state: self.state, debounce: self.debounce as nat }
    }
}

impl Sampler {
    #[verifier::type_invariant]
    spec fn counter_below_threshold(self) -> bool {
        self.debounce < DEBOUNCE_THRESHOLD
    }

    /// A sampler at startup.
    pub fn new() -> (sampler: Sampler)
        ensures
            sampler@.state == initial_state(),
            sampler@.debounce == 0,
            sampler@.wf(),
    {
        Sampler {
            state: ControllerState {
                x_axis: 0,
                y_axis: 0,
                estop_latched: false,
                autonomous_toggle: false,
            },
            debounce: 0,
        }
    }

    /// The count of active autonomous observations since the last toggle.
    pub fn debounce_count(&self) -> (count: u8)
        ensures
            count == self@.debounce,
            count < DEBOUNCE_THRESHOLD,
    {
        proof {
            use_type_invariant(self);
        }
        self.debounce
    }
}

/// A copy of the committed controller state.
pub fn get_controller_state(sampler: &Sampler) -> (state: ControllerState)
    ensures
        state == sampler@.state,
{
    sampler.state
}

/// One sampling tick.
///
/// Commits the sample to the state: the axes as read, the E-stop latched by
/// a single active observation and kept, the autonomous toggle flipped by
/// every third active observation. Returns the committed state where it
/// differs from the one before, for the caller to hand to the transmitter;
/// `None` where nothing changed or the read failed.
pub fn update_controller_state(
    sampler: &mut Sampler,
    reading: Result<InputSample, InputReadError>,
) -> (snapshot: Option<ControllerState>)
    ensures
        final(sampler)@ == tick(old(sampler)@, reading),
        final(sampler)@.wf(),
        snapshot == forwarded(old(sampler)@, reading),
        snapshot is Some <==> final(sampler)@.state != old(sampler)@.state,
        snapshot matches Some(s) ==> s == final(sampler)@.state,
        reading is Err ==> final(sampler)@ == old(sampler)@ && snapshot is None,
        old(sampler)@.state.estop_latched ==> final(sampler)@.state.estop_latched,
        reading matches Ok(sample) && sample.estop_active ==> final(sampler)@.state.estop_latched,
{
    proof {
        use_type_invariant(&*sampler);
    }
    let sample = match reading {
        Ok(sample) => sample,
        Err(_) => {
            return None;
        },
    };
    let before = sampler.state;
    let count: u8 = if sample.autonomous_active {
        sampler.debounce + 1
    } else {
        sampler.debounce
    };
    let flip = sample.autonomous_active && count >= DEBOUNCE_THRESHOLD;
    let after = ControllerState {
        x_axis: sample.x_axis,
        y_axis: sample.y_axis,
        estop_latched: before.estop_latched || sample.estop_active,
        autonomous_toggle: if flip {
            !before.autonomous_toggle
        } else {
            before.autonomous_toggle
        },
    };
    *sampler = Sampler { state: after, debounce: if flip { 0 } else { count } };
    if after.x_axis != before.x_axis || after.y_axis != before.y_axis || after.estop_latched
        != before.estop_latched || after.autonomous_toggle != before.autonomous_toggle {
        Some(after)
    } else {
        None
    }
}

/// Debounce: three active autonomous observations in a row flip the toggle
/// exactly once, the counter is zero right after the flip, and the three
/// together leave the counter where it was. Starting from a counter of
/// zero the flip comes with the third observation and leaves zero.
pub proof fn lemma_three_active_observations(
    m: SamplerModel,
    a: InputSample,
    b: InputSample,
    c: InputSample,
)
    requires
        m.wf(),
        a.autonomous_active,
        b.autonomous_active,
        c.autonomous_active,
    ensures
        ({
            let m1 = tick(m, Ok(a));
            let m2 = tick(m1, Ok(b));
            let m3 = tick(m2, Ok(c));
            let f1 = fires(m.debounce, a);
            let f2 = fires(m1.debounce, b);
            let f3 = fires(m2.debounce, c);
            &&& m3.state.autonomous_toggle == !m.state.autonomous_toggle
            &&& (f1 && !f2 && !f3) || (!f1 && f2 && !f3) || (!f1 && !f2 && f3)
            &&& f1 ==> m1.debounce == 0
            &&& f2 ==> m2.debounce == 0
            &&& f3 ==> m3.debounce == 0
            &&& m3.debounce == m.debounce
            &&& m.debounce == 0 ==> f3 && m1.state.autonomous_toggle == m.state.autonomous_toggle
                && m2.state.autonomous_toggle == m.state.autonomous_toggle
        }),
{
}

/// An inactive autonomous observation changes neither the toggle nor the
/// counter.
pub proof fn lemma_inactive_observation(m: SamplerModel, sample: InputSample)
    requires
        !sample.autonomous_active,
    ensures
        tick(m, Ok(sample)).debounce == m.debounce,
        tick(m, Ok(sample)).state.autonomous_toggle == m.state.autonomous_toggle,
{
}

/// Every tick keeps the counter below the threshold.
pub proof fn lemma_tick_keeps_counter_bounded(
    m: SamplerModel,
    reading: Result<InputSample, InputReadError>,
)
    requires
        m.wf(),
    ensures
        tick(m, reading).wf(),
{
}

/// The E-stop trips on a single active observation, in that same tick.
pub proof fn lemma_estop_trips_at_once(m: SamplerModel, sample: InputSample)
    requires
        sample.estop_active,
    ensures
        tick(m, Ok(sample)).state.estop_latched,
        !m.state.estop_latched ==> forwarded(m, Ok(sample)) == Some(tick(m, Ok(sample)).state),
{
}

/// Once latched, the E-stop stays latched through every later run of
/// ticks, whatever is read in them.
pub proof fn lemma_estop_stays_latched(
    m: SamplerModel,
    readings: Seq<Result<InputSample, InputReadError>>,
)
    requires
        m.state.estop_latched,
    ensures
        run(m, readings).state.estop_latched,
    decreases readings.len(),
{
    if readings.len() > 0 {
        lemma_estop_stays_latched(m, readings.drop_last());
    }
}

/// A snapshot is forwarded exactly when the tick changed some field of the
/// committed state, and it is then the newly committed state.
pub proof fn lemma_forwarded_iff_changed(
    m: SamplerModel,
    reading: Result<InputSample, InputReadError>,
)
    ensures
        forwarded(m, reading) is Some <==> {
            let n = tick(m, reading).state;
            ||| n.x_axis != m.state.x_axis
            ||| n.y_axis != m.state.y_axis
            ||| n.estop_latched != m.state.estop_latched
            ||| n.autonomous_toggle != m.state.autonomous_toggle
        },
        forwarded(m, reading) matches Some(s) ==> s == tick(m, reading).state,
        reading is Err ==> forwarded(m, reading) is None,
{
}

/// The same sample read twice in a row is forwarded at most once: the
/// second tick forwards nothing, unless it is the one that completes the
/// debounce and flips the toggle.
pub proof fn lemma_repeated_sample_is_silent(m: SamplerModel, sample: InputSample)
    requires
        m.wf(),
        !fires(tick(m, Ok(sample)).debounce, sample),
    ensures
        forwarded(tick(m, Ok(sample)), Ok(sample)) is None,
        tick(tick(m, Ok(sample)), Ok(sample)).state == tick(m, Ok(sample)).state,
{
}

} // verus!
