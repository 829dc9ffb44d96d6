//! Which devices may be given new work.
//!
//! No device is asked how much memory it has. What is tracked instead is what becomes of the
//! operations on it, such as failed allocations: these signals decide whether the device may be
//! given more work.
use vstd::arithmetic::power2::{lemma2_to64, lemma_pow2_adds, lemma_pow2_pos, pow2};
use vstd::hash_map::StringHashMap;
use vstd::prelude::*;
use vstd::string::*;

verus! {

/// Whether a device may be given new work.
#[derive(Debug, Clone, Copy, PartialEq, Eq, Structural)]
pub enum Admission {
    /// The device may be given new work.
    Allow,
    /// The device should be given no new work for now.
    Backpressure,
}

/// The kinds of pressure on a device, each of which weighs differently.
#[derive(Debug, Clone, Copy, PartialEq, Eq, Structural)]
pub enum PressureSignal {
    /// Memory could not be allocated or reserved.
    AllocationFailure,
    /// Work could not be enqueued.
    EnqueueFailure,
    /// Data could not be transferred.
    TransferFailure,
    /// The device is saturated.
    Saturation,
}

impl PressureSignal {
    /// How much this signal adds to the score of a device, in hundredths.
    pub open spec fn spec_weight(self) -> u32 {
        match self {
            PressureSignal::AllocationFailure => 100,
            PressureSignal::EnqueueFailure => 75,
            PressureSignal::TransferFailure => 50,
            PressureSignal::Saturation => 60,
        }
    }

    /// How much this signal adds to the score of a device, in hundredths.
    #[verifier::when_used_as_spec(spec_weight)]
    pub fn weight(self) -> (hundredths: u32)
        ensures
            hundredths == self.weight(),
    {
        match self {
            PressureSignal::AllocationFailure => 100,
            PressureSignal::EnqueueFailure => 75,
            PressureSignal::TransferFailure => 50,
            PressureSignal::Saturation => 60,
        }
    }
}

/// How much a success takes off the score of a device, in hundredths.
pub const SUCCESS_CREDIT: u32 = 50;

/// A score: a single-precision number, as its IEEE 754 encoding.
#[derive(Debug, Clone, Copy, PartialEq, Eq, Structural)]
pub struct Score {
    pub bits: u32,
}

/// How many encodings there are of either sign.
pub open spec fn sign_bit() -> nat {
    0x8000_0000
}

/// The encoding of infinity. Of either sign, what lies above it is not a number.
pub open spec fn infinity() -> nat {
    0x7f80_0000
}

/// The number which `bits` encode but for the sign, as a multiple of the least positive one.
/// Infinity is larger than any finite number.
pub open spec fn magnitude(bits: nat) -> nat {
    let exponent = bits / 0x80_0000;
    let fraction = bits % 0x80_0000;
    if exponent == 0 {
        fraction
    } else {
        (0x80_0000 + fraction) * pow2((exponent - 1) as nat)
    }
}

impl Score {
    /// The value of this score, as a multiple of the least positive one, if it is a number.
    pub open spec fn value(self) -> Option<int> {
        let unsigned = self.bits as nat % sign_bit();
        if unsigned > infinity() {
            None
        } else if self.bits < sign_bit() {
            Some(magnitude(unsigned) as int)
        } else {
            Some(-(magnitude(unsigned) as int))
        }
    }

    /// This score is above `threshold`.
    pub open spec fn spec_exceeds(self, threshold: Score) -> bool {
        self.value() matches Some(value) && threshold.value() matches Some(limit) && value > limit
    }

    /// This score is at most `other`, and both are numbers.
    pub open spec fn at_most(self, other: Score) -> bool {
        self.value() matches Some(value) && other.value() matches Some(limit) && value <= limit
    }

    /// This score is at most zero.
    pub open spec fn spec_is_clear(self) -> bool {
        self.value() matches Some(value) && value <= 0
    }

    /// Whether this score is above `threshold`.
    #[verifier::when_used_as_spec(spec_exceeds)]
    pub fn exceeds(self, threshold: Score) -> (exceeds: bool)
        ensures
            exceeds == self.exceeds(threshold),
    {
        let left: u32 = self.bits % 0x8000_0000;
        let right: u32 = threshold.bits % 0x8000_0000;
        proof {
            lemma_magnitude_orders_encodings(left as nat, right as nat);
            lemma_magnitude_orders_encodings(0, left as nat);
            lemma_magnitude_orders_encodings(0, right as nat);
        }
        if left > 0x7f80_0000 || right > 0x7f80_0000 {
            false
        } else if threshold.bits >= 0x8000_0000 {
            if self.bits >= 0x8000_0000 {
                left < right
            } else {
                left > 0 || right > 0
            }
        } else {
            self.bits < 0x8000_0000 && left > right
        }
    }

    /// Whether this score is at most zero.
    #[verifier::when_used_as_spec(spec_is_clear)]
    pub fn is_clear(self) -> (clear: bool)
        ensures
            clear == self.is_clear(),
    {
        let unsigned: u32 = self.bits % 0x8000_0000;
        proof {
            lemma_magnitude_orders_encodings(0, unsigned as nat);
        }
        unsigned <= 0x7f80_0000 && (unsigned == 0 || self.bits >= 0x8000_0000)
    }
}

/// The encodings of the numbers of one sign are in the order of the numbers.
pub proof fn lemma_magnitude_orders_encodings(left: nat, right: nat)
    ensures
        left < right ==> magnitude(left) < magnitude(right),
        left == right ==> magnitude(left) == magnitude(right),
        left > right ==> magnitude(left) > magnitude(right),
        magnitude(0) == 0,
{
    if left < right {
        lemma_magnitude_increases(left, right);
    }
    if right < left {
        lemma_magnitude_increases(right, left);
    }
}

proof fn lemma_magnitude_increases(left: nat, right: nat)
    requires
        left < right,
    ensures
        magnitude(left) < magnitude(right),
{
    let step: nat = 0x80_0000;
    let left_exponent = left / step;
    let left_fraction = left % step;
    let right_exponent = right / step;
    let right_fraction = right % step;
    if left_exponent == right_exponent {
        if left_exponent > 0 {
            let unit = pow2((left_exponent - 1) as nat);
            lemma_pow2_pos((left_exponent - 1) as nat);
            assert((step + left_fraction) * unit < (step + right_fraction) * unit)
                by (nonlinear_arith)
                requires
                    left_fraction < right_fraction,
                    unit > 0,
            ;
        }
    } else {
        let right_unit = pow2((right_exponent - 1) as nat);
        lemma_pow2_pos((right_exponent - 1) as nat);
        assert(step * right_unit <= (step + right_fraction) * right_unit) by (nonlinear_arith);
        if left_exponent == 0 {
            assert(left_fraction < step * right_unit) by (nonlinear_arith)
                requires
                    left_fraction < step,
                    right_unit > 0,
            ;
        } else {
            let unit = pow2((left_exponent - 1) as nat);
            lemma_pow2_pos((left_exponent - 1) as nat);
            lemma_pow2_adds((left_exponent - 1) as nat, 1);
            lemma_pow2_adds(left_exponent, (right_exponent - 1 - left_exponent) as nat);
            lemma_pow2_pos((right_exponent - 1 - left_exponent) as nat);
            assert(pow2(1) == 2) by {
                lemma2_to64();
            }
            let gap = pow2((right_exponent - 1 - left_exponent) as nat);
            assert(right_unit == unit * 2 * gap);
            assert((step + left_fraction) * unit < step * right_unit) by (nonlinear_arith)
                requires
                    left_fraction < step,
                    unit > 0,
                    gap > 0,
                    right_unit == unit * 2 * gap,
            ;
        }
    }
}

/// How pressure on devices is tracked.
#[derive(Debug, Clone, Copy, PartialEq, Eq, Structural)]
pub struct BackpressureConfig {
    /// How many signals of pressure in a row deny a device new work.
    pub hard_threshold: u32,
    /// How many successes in a row clear the denial of new work.
    pub recover_threshold: u32,
    /// The score above which a device is denied new work.
    pub score_threshold: Score,
    /// How many operations may be under way on a device at once.
    pub max_inflight: u32,
    /// How long it takes a score to halve, in nanoseconds.
    pub decay_half_life: u128,
}

/// The usual configuration. The score above which work is denied is one and a half.
pub open spec fn default_config() -> BackpressureConfig {
    BackpressureConfig {
        hard_threshold: 3,
        recover_threshold: 2,
        score_threshold: Score { bits: 0x3fc0_0000 },
        max_inflight: 64,
        decay_half_life: 500_000_000,
    }
}

impl Default for BackpressureConfig {
    fn default() -> (config: Self)
        ensures
            config == default_config(),
    {
        BackpressureConfig {
            hard_threshold: 3,
            recover_threshold: 2,
            score_threshold: Score { bits: 0x3fc0_0000 },
            max_inflight: 64,
            decay_half_life: 500_000_000,
        }
    }
}

/// What is known of a device.
#[derive(Debug, Clone, Copy, PartialEq, Eq, Structural)]
pub struct DeviceState {
    /// How many signals of pressure there were in a row, until a success broke the run or the denial
    /// which it led to was cleared.
    pub pressure_streak: u32,
    /// How many successes there were in a row.
    pub recovery_streak: u32,
    /// How many operations are under way.
    pub inflight: u32,
    /// How much pressure there is.
    pub score: Score,
    /// When the score was last brought up to date, in nanoseconds.
    pub last_decay: u128,
}

/// A device of which nothing is known.
pub open spec fn fresh_device() -> DeviceState {
    DeviceState {
        pressure_streak: 0,
        recovery_streak: 0,
        inflight: 0,
        score: Score { bits: 0 },
        last_decay: 0,
    }
}

impl Default for DeviceState {
    fn default() -> (state: Self)
        ensures
            state == fresh_device(),
    {
        DeviceState {
            pressure_streak: 0,
            recovery_streak: 0,
            inflight: 0,
            score: Score { bits: 0 },
            last_decay: 0,
        }
    }
}

/// What has to be computed to bring the score of a device up to date.
#[derive(Debug, Clone, Copy, PartialEq, Eq, Structural)]
pub enum Rescore {
    /// Nothing: `score` stays.
    Keep { score: Score },
    /// Halve `score` once per `half_life`, after `elapsed`, both in nanoseconds.
    Decay { score: Score, elapsed: u128, half_life: u128 },
    /// Add hundredths to `score`.
    Raise { score: Score, hundredths: u32 },
    /// Take hundredths off `score`, but leave no less than zero.
    Lower { score: Score, hundredths: u32 },
}

/// `n` plus one, unless that does not fit.
pub open spec fn up(n: u32) -> u32 {
    if n < u32::MAX {
        (n + 1) as u32
    } else {
        n
    }
}

/// `n` minus one, unless that does not fit.
pub open spec fn down(n: u32) -> u32 {
    if n > 0 {
        (n - 1) as u32
    } else {
        n
    }
}

impl DeviceState {
    /// The device is denied new work: as many operations are under way as may be, or there were
    /// too many signals of pressure, or its score is too high.
    pub open spec fn spec_is_denied(self, config: BackpressureConfig) -> bool {
        ||| self.inflight >= config.max_inflight
        ||| self.pressure_streak >= config.hard_threshold
        ||| self.score.exceeds(config.score_threshold)
    }

    /// Whether the device is denied new work.
    #[verifier::when_used_as_spec(spec_is_denied)]
    pub fn is_denied(self, config: BackpressureConfig) -> (denied: bool)
        ensures
            denied == self.is_denied(config),
    {
        self.inflight >= config.max_inflight || self.pressure_streak >= config.hard_threshold
            || self.score.exceeds(config.score_threshold)
    }

    /// The device once one more operation is under way.
    pub open spec fn acquired(self) -> DeviceState {
        DeviceState { inflight: up(self.inflight), ..self }
    }

    /// The device once one operation less is under way.
    pub open spec fn released(self) -> DeviceState {
        DeviceState { inflight: down(self.inflight), ..self }
    }

    /// The device after a signal of pressure, but for its score.
    pub open spec fn signalled(self) -> DeviceState {
        DeviceState { pressure_streak: up(self.pressure_streak), recovery_streak: 0, ..self }
    }

    /// The device after a success, but for its score. A success breaks a run of signals which has
    /// not led to denial. One which has is cleared by enough successes in a row.
    pub open spec fn succeeded(self, config: BackpressureConfig) -> DeviceState {
        let recovered = up(self.recovery_streak) >= config.recover_threshold;
        DeviceState {
            pressure_streak: if recovered || self.pressure_streak < config.hard_threshold {
                0
            } else {
                self.pressure_streak
            },
            recovery_streak: if recovered {
                0
            } else {
                up(self.recovery_streak)
            },
            ..self
        }
    }

    /// The device once its score has been brought up to date.
    pub open spec fn decayed(self, now: u128, score: Score) -> DeviceState {
        DeviceState { score, last_decay: now, ..self }
    }

    /// How long ago the score was brought up to date.
    pub open spec fn elapsed(self, now: u128) -> u128 {
        if now > self.last_decay {
            (now - self.last_decay) as u128
        } else {
            0
        }
    }

    /// What has to be computed to bring the score up to date: nothing, if no time has passed, or
    /// scores do not decay, or there is no pressure.
    pub open spec fn decaying(self, config: BackpressureConfig, now: u128) -> Rescore {
        if self.elapsed(now) == 0 || config.decay_half_life == 0 || self.score.is_clear() {
            Rescore::Keep { score: self.score }
        } else {
            Rescore::Decay {
                score: self.score,
                elapsed: self.elapsed(now),
                half_life: config.decay_half_life,
            }
        }
    }
}

/// Tracks the pressure on any number of devices, each by itself.
pub struct BackpressureManager {
    config: BackpressureConfig,
    state: StringHashMap<DeviceState>,
}

/// What is known of the devices.
#[verifier::ext_equal]
pub struct ManagerView {
    pub config: BackpressureConfig,
    pub devices: Map<Seq<char>, DeviceState>,
}

impl ManagerView {
    /// What is known of `device`.
    pub open spec fn device(self, device: Seq<char>) -> DeviceState {
        if self.devices.contains_key(device) {
            self.devices[device]
        } else {
            fresh_device()
        }
    }

    /// The devices with `device` in another state.
    pub open spec fn with_device(self, device: Seq<char>, state: DeviceState) -> ManagerView {
        ManagerView { devices: self.devices.insert(device, state), ..self }
    }

    /// No more operations are under way on any device than may be.
    pub open spec fn within_budget(self) -> bool {
        forall|device: Seq<char>|
            (#[trigger] self.device(device)).inflight <= self.config.max_inflight
    }
}

impl View for BackpressureManager {
    type V = ManagerView;

    closed spec fn view(&self) -> ManagerView {
        ManagerView { config: self.config, devices: self.state@ }
    }
}

impl BackpressureManager {
    /// A manager which knows nothing of any device.
    pub fn new(config: BackpressureConfig) -> (manager: Self)
        ensures
            manager@ == (ManagerView { config, devices: Map::empty() }),
            manager@.within_budget(),
    {
        BackpressureManager { config, state: StringHashMap::new() }
    }

    fn device(&self, device: &str) -> (state: DeviceState)
        ensures
            state == self@.device(device@),
            self@.within_budget() ==> state.inflight <= self@.config.max_inflight,
    {
        match self.state.get(device) {
            Some(state) => *state,
            None => DeviceState::default(),
        }
    }

    fn set_device(&mut self, device: &str, state: DeviceState)
        ensures
            final(self)@ == old(self)@.with_device(device@, state),
            old(self)@.within_budget() && state.inflight <= old(self)@.config.max_inflight
                ==> final(self)@.within_budget(),
    {
        proof {
            if self@.within_budget() && state.inflight <= self@.config.max_inflight {
                lemma_budget_is_kept(self@, device@, state);
            }
        }
        self.state.insert(device.to_owned(), state);
    }

    /// Say what has to be computed to bring the score of `device` up to date. Whatever is done with
    /// the device takes the result.
    pub fn decay(&self, device: &str, now: u128) -> (rescore: Rescore)
        ensures
            rescore == self@.device(device@).decaying(self@.config, now),
    {
        let state = self.device(device);
        let elapsed = now.saturating_sub(state.last_decay);
        if elapsed == 0 || self.config.decay_half_life == 0 || state.score.is_clear() {
            Rescore::Keep { score: state.score }
        } else {
            Rescore::Decay {
                score: state.score,
                elapsed,
                half_life: self.config.decay_half_life,
            }
        }
    }

    /// What is known of `device`, once its score has been brought up to date.
    fn decayed(&self, device: &str, now: u128, score: Score) -> (state: DeviceState)
        ensures
            state == self@.device(device@).decayed(now, score),
            self@.within_budget() ==> state.inflight <= self@.config.max_inflight,
    {
        let mut state = self.device(device);
        state.score = score;
        state.last_decay = now;
        state
    }

    /// The score of `device` is now `score`.
    pub fn rescore(&mut self, device: &str, score: Score)
        ensures
            final(self)@ == old(self)@.with_device(
                device@,
                DeviceState { score, ..old(self)@.device(device@) },
            ),
            old(self)@.within_budget() ==> final(self)@.within_budget(),
            final(self)@.device(device@).inflight == old(self)@.device(device@).inflight,
    {
        let mut state = self.device(device);
        state.score = score;
        self.set_device(device, state);
    }

    /// Say whether `device` may be given new work. `score` is what [`Self::decay`] has led to `now`.
    pub fn admission(&mut self, device: &str, now: u128, score: Score) -> (admission: Admission)
        ensures
            ({
                let state = old(self)@.device(device@).decayed(now, score);
                &&& admission == if state.is_denied(old(self)@.config) {
                    Admission::Backpressure
                } else {
                    Admission::Allow
                }
                &&& final(self)@ == old(self)@.with_device(device@, state)
            }),
            old(self)@.within_budget() ==> final(self)@.within_budget(),
            final(self)@.device(device@).inflight == old(self)@.device(device@).inflight,
            admission == Admission::Allow <==> {
                &&& old(self)@.device(device@).inflight < old(self)@.config.max_inflight
                &&& old(self)@.device(device@).pressure_streak < old(self)@.config.hard_threshold
                &&& !score.exceeds(old(self)@.config.score_threshold)
            },
    {
        let state = self.decayed(device, now, score);
        self.set_device(device, state);
        if state.is_denied(self.config) {
            Admission::Backpressure
        } else {
            Admission::Allow
        }
    }

    /// Begin an operation on `device`, if it may be given new work. `score` is what
    /// [`Self::decay`] has led to `now`.
    pub fn try_acquire(&mut self, device: &str, now: u128, score: Score) -> (acquired: bool)
        ensures
            ({
                let state = old(self)@.device(device@).decayed(now, score);
                &&& acquired == !state.is_denied(old(self)@.config)
                &&& final(self)@ == old(self)@.with_device(
                    device@,
                    if acquired {
                        state.acquired()
                    } else {
                        state
                    },
                )
            }),
            old(self)@.within_budget() ==> final(self)@.within_budget(),
            acquired <==> {
                &&& old(self)@.device(device@).inflight < old(self)@.config.max_inflight
                &&& old(self)@.device(device@).pressure_streak < old(self)@.config.hard_threshold
                &&& !score.exceeds(old(self)@.config.score_threshold)
            },
            final(self)@.device(device@).inflight == old(self)@.device(device@).inflight + if acquired {
                1int
            } else {
                0
            },
    {
        let mut state = self.decayed(device, now, score);
        let acquired = !state.is_denied(self.config);
        if acquired {
            state.inflight = state.inflight.saturating_add(1);
        }
        self.set_device(device, state);
        acquired
    }

    /// An operation on `device` is over.
    pub fn release(&mut self, device: &str)
        ensures
            final(self)@ == old(self)@.with_device(device@, old(self)@.device(device@).released()),
            old(self)@.within_budget() ==> final(self)@.within_budget(),
            old(self)@.device(device@).inflight > 0 ==> final(self)@.device(device@).inflight == old(self)@.device(device@).inflight - 1,
            old(self)@.device(device@).inflight == 0 ==> final(self)@.device(device@).inflight == 0,
    {
        let mut state = self.device(device);
        state.inflight = state.inflight.saturating_sub(1);
        self.set_device(device, state);
    }

    /// `device` is saturated. `score` is what [`Self::decay`] has led to `now`. Say what has to be
    /// computed from it: the result belongs into [`Self::rescore`].
    pub fn report_pressure(&mut self, device: &str, now: u128, score: Score) -> (rescore: Rescore)
        ensures
            rescore == (Rescore::Raise { score, hundredths: PressureSignal::Saturation.weight() }),
            final(self)@ == old(self)@.with_device(
                device@,
                old(self)@.device(device@).decayed(now, score).signalled(),
            ),
            old(self)@.within_budget() ==> final(self)@.within_budget(),
            final(self)@.device(device@).inflight == old(self)@.device(device@).inflight,
            old(self)@.device(device@).pressure_streak < u32::MAX ==> final(self)@.device(
                device@,
            ).pressure_streak == old(self)@.device(device@).pressure_streak + 1,
            final(self)@.device(device@).recovery_streak == 0,
    {
        self.report_signal(device, now, score, PressureSignal::Saturation)
    }

    /// There is pressure on `device`. `score` is what [`Self::decay`] has led to `now`. Say what has
    /// to be computed from it: the result belongs into [`Self::rescore`].
    pub fn report_signal(
        &mut self,
        device: &str,
        now: u128,
        score: Score,
        signal: PressureSignal,
    ) -> (rescore: Rescore)
        ensures
            rescore == (Rescore::Raise { score, hundredths: signal.weight() }),
            final(self)@ == old(self)@.with_device(
                device@,
                old(self)@.device(device@).decayed(now, score).signalled(),
            ),
            old(self)@.within_budget() ==> final(self)@.within_budget(),
            final(self)@.device(device@).inflight == old(self)@.device(device@).inflight,
            old(self)@.device(device@).pressure_streak < u32::MAX ==> final(self)@.device(
                device@,
            ).pressure_streak == old(self)@.device(device@).pressure_streak + 1,
            final(self)@.device(device@).recovery_streak == 0,
    {
        let mut state = self.decayed(device, now, score);
        state.pressure_streak = state.pressure_streak.saturating_add(1);
        state.recovery_streak = 0;
        self.set_device(device, state);
        Rescore::Raise { score, hundredths: signal.weight() }
    }

    /// An operation on `device` was a success. `score` is what [`Self::decay`] has led to `now`. Say
    /// what has to be computed from it: the result belongs into [`Self::rescore`].
    pub fn report_success(&mut self, device: &str, now: u128, score: Score) -> (rescore: Rescore)
        ensures
            rescore == (Rescore::Lower { score, hundredths: SUCCESS_CREDIT }),
            final(self)@ == old(self)@.with_device(
                device@,
                old(self)@.device(device@).decayed(now, score).succeeded(old(self)@.config),
            ),
            old(self)@.within_budget() ==> final(self)@.within_budget(),
            final(self)@.device(device@).inflight == old(self)@.device(device@).inflight,
            old(self)@.device(device@).pressure_streak < old(self)@.config.hard_threshold ==> final(self)@.device(device@).pressure_streak == 0,
    {
        let mut state = self.decayed(device, now, score);
        state.recovery_streak = state.recovery_streak.saturating_add(1);
        let recovered = state.recovery_streak >= self.config.recover_threshold;
        if recovered || state.pressure_streak < self.config.hard_threshold {
            state.pressure_streak = 0;
        }
        if recovered {
            state.recovery_streak = 0;
        }
        self.set_device(device, state);
        Rescore::Lower { score, hundredths: SUCCESS_CREDIT }
    }
}

impl Default for BackpressureManager {
    fn default() -> (manager: Self)
        ensures
            manager@ == (ManagerView { config: default_config(), devices: Map::empty() }),
            manager@.within_budget(),
    {
        BackpressureManager::new(BackpressureConfig::default())
    }
}

/// The device after `n` signals of pressure in a row, but for its score.
pub open spec fn signalled_times(state: DeviceState, n: nat) -> DeviceState
    decreases n,
{
    if n == 0 {
        state
    } else {
        signalled_times(state, (n - 1) as nat).signalled()
    }
}

/// The device after `n` successes in a row, but for its score.
pub open spec fn succeeded_times(
    state: DeviceState,
    config: BackpressureConfig,
    n: nat,
) -> DeviceState
    decreases n,
{
    if n == 0 {
        state
    } else {
        succeeded_times(state, config, (n - 1) as nat).succeeded(config)
    }
}

proof fn lemma_signals_add_up(state: DeviceState, n: nat)
    ensures
        signalled_times(state, n).pressure_streak == (if state.pressure_streak + n <= u32::MAX {
            state.pressure_streak + n
        } else {
            u32::MAX as int
        }),
    decreases n,
{
    if n > 0 {
        lemma_signals_add_up(state, (n - 1) as nat);
    }
}

/// As many signals of pressure in a row as the hard threshold asks for deny a device new work,
/// whatever its score.
pub proof fn lemma_signals_in_a_row_deny(state: DeviceState, config: BackpressureConfig, score: Score)
    ensures
        (DeviceState {
            score,
            ..signalled_times(state, config.hard_threshold as nat)
        }).is_denied(config),
{
    lemma_signals_add_up(state, config.hard_threshold as nat);
}

/// Something that is reported of a device.
pub enum Report {
    /// A signal of pressure.
    Signal,
    /// A success.
    Success,
}

/// The device after all `reports`, but for its score.
pub open spec fn reported(
    state: DeviceState,
    config: BackpressureConfig,
    reports: Seq<Report>,
) -> DeviceState
    decreases reports.len(),
{
    if reports.len() == 0 {
        state
    } else {
        let before = reported(state, config, reports.drop_last());
        match reports.last() {
            Report::Signal => before.signalled(),
            Report::Success => before.succeeded(config),
        }
    }
}

/// How many signals in a row `reports` end with.
pub open spec fn run(reports: Seq<Report>) -> nat
    decreases reports.len(),
{
    if reports.len() > 0 && reports.last() is Signal {
        run(reports.drop_last()) + 1
    } else {
        0
    }
}

/// Only signals of pressure in a row count towards the hard threshold: as long as no run of them
/// reaches it, they do not deny a device new work, however many there are.
pub proof fn lemma_only_signals_in_a_row_deny(
    state: DeviceState,
    config: BackpressureConfig,
    reports: Seq<Report>,
)
    requires
        state.pressure_streak == 0,
        forall|n: int|
            0 <= n <= reports.len() ==> run(#[trigger] reports.take(n)) < config.hard_threshold,
    ensures
        reported(state, config, reports).pressure_streak == run(reports),
        reported(state, config, reports).pressure_streak < config.hard_threshold,
    decreases reports.len(),
{
    assert(reports.take(reports.len() as int) =~= reports);
    if reports.len() > 0 {
        let before = reports.drop_last();
        assert forall|n: int| 0 <= n <= before.len() implies run(#[trigger] before.take(n))
            < config.hard_threshold by {
            assert(before.take(n) =~= reports.take(n));
        }
        lemma_only_signals_in_a_row_deny(state, config, before);
    }
}

/// How many successes in a row clear the denial of new work: at least one.
pub open spec fn successes_to_recover(config: BackpressureConfig) -> nat {
    if config.recover_threshold == 0 {
        1
    } else {
        config.recover_threshold as nat
    }
}

proof fn lemma_successes_add_up(state: DeviceState, config: BackpressureConfig, n: nat)
    requires
        state.recovery_streak == 0,
        state.pressure_streak >= config.hard_threshold,
        n < successes_to_recover(config),
    ensures
        succeeded_times(state, config, n) == (DeviceState { recovery_streak: n as u32, ..state }),
    decreases n,
{
    if n > 0 {
        lemma_successes_add_up(state, config, (n - 1) as nat);
    }
}

/// A run of signals which has led to denial is cleared by as many successes in a row as the
/// configuration asks for, however long the run was, and by no fewer. The device is then given work
/// again, if its score and the operations under way allow it.
pub proof fn lemma_successes_clear_denial(
    state: DeviceState,
    config: BackpressureConfig,
    n: nat,
    score: Score,
)
    requires
        state.signalled().pressure_streak >= config.hard_threshold,
        n <= successes_to_recover(config),
    ensures
        state.signalled().is_denied(config),
        ({
            let after = succeeded_times(state.signalled(), config, n);
            if n < successes_to_recover(config) {
                &&& after.pressure_streak == state.signalled().pressure_streak
                &&& after.is_denied(config)
            } else {
                &&& after.pressure_streak == 0
                &&& config.hard_threshold > 0 && state.inflight < config.max_inflight
                    && !score.exceeds(config.score_threshold) ==> !(DeviceState {
                    score,
                    ..after
                }).is_denied(config)
            }
        }),
{
    let denied = state.signalled();
    if n < successes_to_recover(config) {
        lemma_successes_add_up(denied, config, n);
    } else {
        lemma_successes_add_up(denied, config, (n - 1) as nat);
    }
}

/// A success never denies a device new work which it had before: neither does it lengthen a run of
/// signals nor raise the score.
pub proof fn lemma_success_keeps_admission(
    state: DeviceState,
    config: BackpressureConfig,
    score: Score,
)
    requires
        score.at_most(state.score),
    ensures
        ({
            let after = DeviceState { score, ..state.succeeded(config) };
            &&& after.pressure_streak <= state.pressure_streak
            &&& after.inflight == state.inflight
            &&& !state.is_denied(config) ==> !after.is_denied(config)
        }),
{
}

/// Bringing a score up to date, which does not raise it, changes nothing else but the time at which
/// that was done, and never denies a device new work which it had before. The score stays if scores
/// do not decay or no time has passed.
pub proof fn lemma_decay_keeps_admission(
    state: DeviceState,
    config: BackpressureConfig,
    now: u128,
    score: Score,
)
    requires
        score.at_most(state.score),
    ensures
        ({
            let after = state.decayed(now, score);
            &&& after.last_decay == now
            &&& after.pressure_streak == state.pressure_streak
            &&& after.recovery_streak == state.recovery_streak
            &&& after.inflight == state.inflight
            &&& !state.is_denied(config) ==> !after.is_denied(config)
        }),
        config.decay_half_life == 0 || now <= state.last_decay ==> state.decaying(config, now)
            == (Rescore::Keep { score: state.score }),
{
}

/// The time over which a score decays is counted once: bringing it up to date in between does not
/// change how long it decays in all.
pub proof fn lemma_decay_times_add_up(state: DeviceState, score: Score, first: u128, second: u128)
    requires
        state.last_decay <= first <= second,
    ensures
        state.elapsed(first) + state.decayed(first, score).elapsed(second) == state.elapsed(second),
{
}

/// A change to one device on which no more operations are under way than may be keeps all devices
/// within their budgets.
pub proof fn lemma_budget_is_kept(manager: ManagerView, device: Seq<char>, state: DeviceState)
    requires
        manager.within_budget(),
        state.inflight <= manager.config.max_inflight,
    ensures
        manager.with_device(device, state).within_budget(),
{
    let after = manager.with_device(device, state);
    assert forall|other: Seq<char>| (#[trigger] after.device(other)).inflight
        <= after.config.max_inflight by {
        if other != device {
            lemma_devices_are_isolated(manager, device, state, other);
            assert(manager.device(other).inflight <= manager.config.max_inflight);
        }
    }
}

/// The end of an operation undoes its beginning.
pub proof fn lemma_release_undoes_acquire(state: DeviceState, config: BackpressureConfig)
    requires
        !state.is_denied(config),
    ensures
        state.acquired().released() == state,
{
}

/// Pressure on one device is none of another's: whatever becomes of a device, what is known of
/// the others stays.
pub proof fn lemma_devices_are_isolated(
    manager: ManagerView,
    device: Seq<char>,
    state: DeviceState,
    other: Seq<char>,
)
    requires
        device != other,
    ensures
        manager.with_device(device, state).device(other) == manager.device(other),
        manager.with_device(device, state).config == manager.config,
{
}

} // verus!
