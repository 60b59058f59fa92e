//! Commands to several motors that hold together.

use vstd::prelude::*;
use vstd::string::*;

use crate::hat::lease;
use crate::hat::lease::{Lease, Leases};
use crate::ipc::state::{Handler, HandlerView};
use crate::number::Real;
use crate::text;

verus! {

// ---------------------------------------------------------------------------
// Outcomes
// ---------------------------------------------------------------------------

/// What came of commands, in order: done, or the text of an error.
pub type Outcomes = Seq<Result<(), Seq<char>>>;

/// An outcome with its text as a sequence of characters.
pub open spec fn outcome_view(outcome: Result<(), String>) -> Result<(), Seq<char>> {
    match outcome {
        Ok(_) => Ok(()),
        Err(e) => Err(e@),
    }
}

/// Outcomes with their texts as sequences of characters.
pub open spec fn outcomes_view(v: Seq<Result<(), String>>) -> Outcomes {
    Seq::new(v.len(), |i: int| outcome_view(v[i]))
}

/// The channels whose commands succeeded, in order. `outcomes[i]` is that of
/// `channels[i]`.
pub open spec fn succeeded_channels(channels: Seq<u8>, outcomes: Outcomes) -> Seq<u8>
    decreases outcomes.len(),
{
    if outcomes.len() == 0 {
        Seq::empty()
    } else {
        let before = succeeded_channels(channels, outcomes.drop_last());
        if outcomes.last() is Ok {
            before.push(channels[outcomes.len() - 1])
        } else {
            before
        }
    }
}

/// How the failure of one command is told.
pub open spec fn failure_text(channel: u8, error: Seq<char>, rollback: bool) -> Seq<char> {
    if rollback {
        "channel "@ + text::decimal_of(channel as nat) + ": rollback failed: "@ + error
    } else {
        "channel "@ + text::decimal_of(channel as nat) + ": "@ + error
    }
}

/// How the failures are told, in order.
pub open spec fn failure_texts(channels: Seq<u8>, outcomes: Outcomes, rollback: bool) -> Seq<
    Seq<char>,
>
    decreases outcomes.len(),
{
    if outcomes.len() == 0 {
        Seq::empty()
    } else {
        let before = failure_texts(channels, outcomes.drop_last(), rollback);
        match outcomes.last() {
            Ok(_) => before,
            Err(e) => before.push(failure_text(channels[outcomes.len() - 1], e, rollback)),
        }
    }
}

fn describe(channel: u8, error: &str, rollback: bool) -> (r: String)
    ensures
        r@ == failure_text(channel, error@, rollback),
{
    let head = "channel ".to_owned().concat(text::decimal(channel as u64).as_str());
    if rollback {
        head.concat(": rollback failed: ").concat(error)
    } else {
        head.concat(": ").concat(error)
    }
}

/// The channels whose commands succeeded.
fn successes(channels: &Vec<u8>, outcomes: &Vec<Result<(), String>>) -> (r: Vec<u8>)
    requires
        outcomes.len() <= channels.len(),
    ensures
        r@ == succeeded_channels(channels@, outcomes_view(outcomes@)),
{
    let ghost all = outcomes_view(outcomes@);
    let mut out: Vec<u8> = Vec::new();
    let mut i: usize = 0;
    assert(all.take(0) =~= Seq::<Result<(), Seq<char>>>::empty());
    while i < outcomes.len()
        invariant
            i <= outcomes.len() <= channels.len(),
            all == outcomes_view(outcomes@),
            out@ == succeeded_channels(channels@, all.take(i as int)),
        decreases outcomes.len() - i,
    {
        assert(all.take(i + 1).drop_last() =~= all.take(i as int));
        if outcomes[i].is_ok() {
            out.push(channels[i]);
        }
        i = i + 1;
    }
    assert(all.take(all.len() as int) =~= all);
    out
}

/// Append how the failures are told.
fn describe_failures(
    texts: &mut Vec<String>,
    channels: &Vec<u8>,
    outcomes: &Vec<Result<(), String>>,
    rollback: bool,
)
    requires
        outcomes.len() <= channels.len(),
    ensures
        text::texts(final(texts)@) == text::texts(old(texts)@) + failure_texts(
            channels@,
            outcomes_view(outcomes@),
            rollback,
        ),
{
    let ghost all = outcomes_view(outcomes@);
    let ghost start = text::texts(texts@);
    let mut i: usize = 0;
    assert(all.take(0) =~= Seq::<Result<(), Seq<char>>>::empty());
    assert(text::texts(texts@) =~= start + failure_texts(channels@, all.take(0), rollback));
    while i < outcomes.len()
        invariant
            i <= outcomes.len() <= channels.len(),
            all == outcomes_view(outcomes@),
            text::texts(texts@) == start + failure_texts(channels@, all.take(i as int), rollback),
        decreases outcomes.len() - i,
    {
        assert(all.take(i + 1).drop_last() =~= all.take(i as int));
        if let Err(e) = &outcomes[i] {
            let ghost before = texts@;
            texts.push(describe(channels[i], e.as_str(), rollback));
            assert(text::texts(texts@) =~= text::texts(before).push(
                failure_text(channels@[i as int], e@, rollback),
            ));
            assert(text::texts(texts@) =~= start + failure_texts(
                channels@,
                all.take(i + 1),
                rollback,
            ));
        }
        i = i + 1;
    }
    assert(all.take(all.len() as int) =~= all);
}

// ---------------------------------------------------------------------------
// All or nothing
// ---------------------------------------------------------------------------

/// What one motor is to be told: the speed that was asked for, and the
/// calibration that it is to be adjusted by.
#[derive(Debug, Clone, Copy, PartialEq, Eq, Structural)]
pub struct MotorCommand {
    pub pwm_channel: u8,
    pub dir_pin_bcm: u8,
    pub reversed: bool,
    pub speed_pct: Real,
    pub speed_scale: Real,
    pub deadband_pct: Real,
}

/// The next thing to do for an operation on motors.
#[derive(Debug, Clone, Copy, PartialEq, Eq, Structural)]
pub enum MotorStep {
    /// Set a motor in motion, and record what came of it.
    Command(MotorCommand),
    /// Idle a motor that was set in motion, and record what came of it.
    Idle { pwm_channel: u8 },
    /// Nothing more.
    Done,
}

/// Several motors that are set in motion together. If one fails, those that did
/// start are idled again.
#[derive(Debug)]
pub struct MotorOperation {
    /// The motors, by index.
    pub channels: Vec<u8>,
    /// Their speeds.
    pub speeds: Vec<Real>,
    pub conn_id: u64,
    pub ttl_ms: u64,
    /// What came of the commands so far.
    pub outcomes: Vec<Result<(), String>>,
    /// What came of idling those that did start, so far.
    pub rollbacks: Vec<Result<(), String>>,
}

/// A `MotorOperation` over sequences.
pub struct MotorOperationView {
    pub channels: Seq<u8>,
    pub speeds: Seq<Real>,
    pub conn_id: u64,
    pub ttl_ms: u64,
    pub outcomes: Outcomes,
    pub rollbacks: Outcomes,
}

impl View for MotorOperation {
    type V = MotorOperationView;

    open spec fn view(&self) -> MotorOperationView {
        MotorOperationView {
            channels: self.channels@,
            speeds: self.speeds@,
            conn_id: self.conn_id,
            ttl_ms: self.ttl_ms,
            outcomes: outcomes_view(self.outcomes@),
            rollbacks: outcomes_view(self.rollbacks@),
        }
    }
}

/// The calibration and the configuration of a motor both have a say in its
/// direction: each turns it round.
pub open spec fn command_for(h: HandlerView, channel: u8, speed_pct: Real) -> MotorCommand {
    let config = h.config.motors[channel as int];
    let calibration = h.calibration.motors[channel as int];
    MotorCommand {
        pwm_channel: config.pwm_channel,
        dir_pin_bcm: config.dir_pin_bcm,
        reversed: calibration.reversed != config.reversed,
        speed_pct,
        speed_scale: calibration.speed_scale,
        deadband_pct: calibration.deadband_pct,
    }
}

impl MotorOperationView {
    /// The motors that did start.
    pub open spec fn started(self) -> Seq<u8> {
        succeeded_channels(self.channels, self.outcomes)
    }

    /// How the commands that failed are told.
    pub open spec fn failures(self) -> Seq<Seq<char>> {
        failure_texts(self.channels, self.outcomes, false)
    }

    /// There is a speed for each motor, every motor is configured, and no more is
    /// recorded than was to be done.
    pub open spec fn fits(self, h: HandlerView) -> bool {
        &&& self.speeds.len() == self.channels.len()
        &&& forall|i: int|
            0 <= i < self.channels.len() ==> #[trigger] self.channels[i] < h.config.motors.len()
        &&& self.outcomes.len() <= self.channels.len()
        &&& self.rollbacks.len() <= self.started().len()
        &&& self.rollbacks.len() > 0 ==> self.outcomes.len() == self.channels.len()
            && self.failures().len() > 0
    }

    /// The next thing to do.
    pub open spec fn next(self, h: HandlerView) -> MotorStep {
        let n = self.outcomes.len() as int;
        let k = self.rollbacks.len() as int;
        if n < self.channels.len() {
            MotorStep::Command(command_for(h, self.channels[n], self.speeds[n]))
        } else if self.failures().len() > 0 && k < self.started().len() {
            MotorStep::Idle { pwm_channel: h.config.motors[self.started()[k] as int].pwm_channel }
        } else {
            MotorStep::Done
        }
    }

    /// What came of the whole: the motors that are in motion, or the failures.
    pub open spec fn result(self) -> Result<Seq<u8>, Seq<Seq<char>>> {
        if self.failures().len() == 0 {
            Ok(self.started())
        } else {
            Err(self.failures() + failure_texts(self.started(), self.rollbacks, true))
        }
    }
}

impl MotorOperationView {
    /// This operation with one more outcome recorded.
    pub open spec fn recorded(self, outcome: Result<(), Seq<char>>) -> MotorOperationView {
        if self.outcomes.len() < self.channels.len() {
            MotorOperationView { outcomes: self.outcomes.push(outcome), ..self }
        } else {
            MotorOperationView { rollbacks: self.rollbacks.push(outcome), ..self }
        }
    }

    /// Whether any command failed.
    pub open spec fn any_failed(self) -> bool {
        exists|i: int| 0 <= i < self.outcomes.len() && #[trigger] self.outcomes[i] is Err
    }
}

/// The leases once a connection has leased every channel of a list.
pub open spec fn leased(leases: Leases, channels: Seq<u8>, lease: Lease) -> Leases {
    Map::new(
        |ch: u8| leases.dom().contains(ch) || channels.contains(ch),
        |ch: u8|
            if channels.contains(ch) {
                lease
            } else {
                leases[ch]
            },
    )
}

/// The result of an operation, with texts as sequences of characters.
pub open spec fn result_view(r: Result<Vec<u8>, Vec<String>>) -> Result<Seq<u8>, Seq<Seq<char>>> {
    match r {
        Ok(v) => Ok(v@),
        Err(v) => Err(text::texts(v@)),
    }
}

/// Whether the command for a channel succeeded.
pub open spec fn did_start(channels: Seq<u8>, outcomes: Outcomes, ch: u8) -> bool {
    exists|k: int| 0 <= k < outcomes.len() && #[trigger] outcomes[k] is Ok && channels[k] == ch
}

proof fn lemma_started(channels: Seq<u8>, outcomes: Outcomes)
    requires
        outcomes.len() <= channels.len(),
    ensures
        succeeded_channels(channels, outcomes).len() <= outcomes.len(),
        forall|i: int|
            0 <= i < succeeded_channels(channels, outcomes).len() ==> did_start(
                channels,
                outcomes,
                #[trigger] succeeded_channels(channels, outcomes)[i],
            ),
    decreases outcomes.len(),
{
    if outcomes.len() > 0 {
        let less = outcomes.drop_last();
        lemma_started(channels, less);
        let s = succeeded_channels(channels, outcomes);
        let t = succeeded_channels(channels, less);
        assert forall|i: int| 0 <= i < s.len() implies did_start(
            channels,
            outcomes,
            #[trigger] s[i],
        ) by {
            if i < t.len() {
                assert(did_start(channels, less, t[i]));
                let k = choose|k: int|
                    0 <= k < less.len() && #[trigger] less[k] is Ok && channels[k] == t[i];
                assert(outcomes[k] is Ok);
            } else {
                assert(outcomes[outcomes.len() - 1] is Ok);
            }
        }
    }
}

impl MotorOperation {
    /// One motor.
    pub fn single(channel: u8, speed_pct: Real, conn_id: u64, ttl_ms: u64) -> (r: MotorOperation)
        ensures
            r@ == (MotorOperationView {
                channels: seq![channel],
                speeds: seq![speed_pct],
                conn_id,
                ttl_ms,
                outcomes: Seq::empty(),
                rollbacks: Seq::empty(),
            }),
    {
        let mut channels: Vec<u8> = Vec::new();
        channels.push(channel);
        let mut speeds: Vec<Real> = Vec::new();
        speeds.push(speed_pct);
        let r = MotorOperation {
            channels,
            speeds,
            conn_id,
            ttl_ms,
            outcomes: Vec::new(),
            rollbacks: Vec::new(),
        };
        assert(r@.channels =~= seq![channel]);
        assert(r@.speeds =~= seq![speed_pct]);
        assert(r@.outcomes =~= Seq::empty());
        assert(r@.rollbacks =~= Seq::empty());
        r
    }

    /// The first `motors` motors, all at the same speed.
    pub fn all(motors: usize, speed_pct: Real, conn_id: u64, ttl_ms: u64) -> (r: MotorOperation)
        requires
            motors <= 256,
        ensures
            r@ == (MotorOperationView {
                channels: Seq::new(motors as nat, |i: int| i as u8),
                speeds: Seq::new(motors as nat, |i: int| speed_pct),
                conn_id,
                ttl_ms,
                outcomes: Seq::empty(),
                rollbacks: Seq::empty(),
            }),
    {
        let mut channels: Vec<u8> = Vec::new();
        let mut speeds: Vec<Real> = Vec::new();
        let mut i: usize = 0;
        while i < motors
            invariant
                i <= motors <= 256,
                channels@ =~= Seq::new(i as nat, |k: int| k as u8),
                speeds@ =~= Seq::new(i as nat, |k: int| speed_pct),
            decreases motors - i,
        {
            channels.push(i as u8);
            speeds.push(speed_pct);
            i = i + 1;
        }
        let r = MotorOperation {
            channels,
            speeds,
            conn_id,
            ttl_ms,
            outcomes: Vec::new(),
            rollbacks: Vec::new(),
        };
        assert(r@.outcomes =~= Seq::empty());
        assert(r@.rollbacks =~= Seq::empty());
        r
    }

    /// Record what came of the step that `atomic_motor_operation` named.
    pub fn record(&mut self, outcome: Result<(), String>)
        ensures
            final(self)@ == old(self)@.recorded(outcome_view(outcome)),
    {
        let ghost o = outcome_view(outcome);
        if self.outcomes.len() < self.channels.len() {
            self.outcomes.push(outcome);
            assert(self@.outcomes =~= old(self)@.outcomes.push(o));
        } else {
            self.rollbacks.push(outcome);
            assert(self@.rollbacks =~= old(self)@.rollbacks.push(o));
        }
    }
}

impl Handler {
    /// The command for one motor: its configuration, and its calibration at this
    /// moment.
    pub fn calibrated_speed(&self, channel: u8, speed_pct: Real) -> (r: MotorCommand)
        requires
            self@.wf(),
            channel < self@.config.motors.len(),
        ensures
            r == command_for(self@, channel, speed_pct),
            r.pwm_channel == self.config.motors@[channel as int].pwm_channel,
            r.dir_pin_bcm == self.config.motors@[channel as int].dir_pin_bcm,
            r.reversed <==> self.config.motors@[channel as int].reversed
                != self.calibration.motors@[channel as int].reversed,
            r.speed_pct == speed_pct,
            r.speed_scale == self.calibration.motors@[channel as int].speed_scale,
            r.deadband_pct == self.calibration.motors@[channel as int].deadband_pct,
    {
        let config = self.config.motors[channel as usize];
        let calibration = self.calibration.motors[channel as usize];
        MotorCommand {
            pwm_channel: config.pwm_channel,
            dir_pin_bcm: config.dir_pin_bcm,
            reversed: calibration.reversed != config.reversed,
            speed_pct,
            speed_scale: calibration.speed_scale,
            deadband_pct: calibration.deadband_pct,
        }
    }

    /// The next step of an operation on motors: every motor is commanded, also
    /// after one has failed. If any has, those that did start are idled.
    pub fn atomic_motor_operation(&self, operation: &MotorOperation) -> (r: MotorStep)
        requires
            self@.wf(),
            operation@.fits(self@),
        ensures
            r == operation@.next(self@),
    {
        let n: usize = operation.outcomes.len();
        if n < operation.channels.len() {
            assert(operation@.channels[n as int] < self@.config.motors.len());
            return MotorStep::Command(
                self.calibrated_speed(operation.channels[n], operation.speeds[n]),
            );
        }
        let mut failures: Vec<String> = Vec::new();
        describe_failures(&mut failures, &operation.channels, &operation.outcomes, false);
        assert(text::texts(failures@) =~= operation@.failures());
        assert(text::texts(failures@).len() == failures@.len());
        let started = successes(&operation.channels, &operation.outcomes);
        let k: usize = operation.rollbacks.len();
        if failures.len() > 0 && k < started.len() {
            proof {
                lemma_started(operation@.channels, operation@.outcomes);
                assert(did_start(
                    operation@.channels,
                    operation@.outcomes,
                    operation@.started()[k as int],
                ));
            }
            let motor: usize = started[k] as usize;
            MotorStep::Idle { pwm_channel: self.config.motors[motor].pwm_channel }
        } else {
            MotorStep::Done
        }
    }

    /// The end of an operation on motors. If every motor was set in motion, the
    /// connection leases them all; else it leases none, and the failures are
    /// told.
    pub fn finish_motor_operation(&mut self, operation: &MotorOperation, now_ms: u64) -> (r: Result<
        Vec<u8>,
        Vec<String>,
    >)
        requires
            operation@.fits(old(self)@),
            operation@.next(old(self)@) is Done,
        ensures
            old(self)@.wf() ==> final(self)@.wf(),
            result_view(r) == operation@.result(),
            final(self)@ == (HandlerView {
                motor_leases: if r is Ok {
                    leased(
                        old(self)@.motor_leases,
                        operation@.started(),
                        Lease {
                            conn_id: operation@.conn_id,
                            expires_at_ms: lease::later(now_ms, operation@.ttl_ms),
                        },
                    )
                } else {
                    old(self)@.motor_leases
                },
                ..old(self)@
            }),
    {
        let mut failures: Vec<String> = Vec::new();
        describe_failures(&mut failures, &operation.channels, &operation.outcomes, false);
        assert(text::texts(failures@) =~= operation@.failures());
        assert(text::texts(failures@).len() == failures@.len());
        let started = successes(&operation.channels, &operation.outcomes);
        if failures.len() > 0 {
            describe_failures(&mut failures, &started, &operation.rollbacks, true);
            return Err(failures);
        }
        let ghost lease = Lease {
            conn_id: operation@.conn_id,
            expires_at_ms: lease::later(now_ms, operation@.ttl_ms),
        };
        let mut i: usize = 0;
        assert(self@.motor_leases =~= leased(old(self)@.motor_leases, started@.take(0), lease));
        while i < started.len()
            invariant
                i <= started@.len(),
                lease == (Lease {
                    conn_id: operation@.conn_id,
                    expires_at_ms: lease::later(now_ms, operation@.ttl_ms),
                }),
                self@ == (HandlerView {
                    motor_leases: leased(
                        old(self)@.motor_leases,
                        started@.take(i as int),
                        lease,
                    ),
                    ..old(self)@
                }),
            decreases started@.len() - i,
        {
            let ghost before = self@.motor_leases;
            self.motor_leases.set_lease(started[i], operation.conn_id, operation.ttl_ms, now_ms);
            proof {
                lemma_leased_push(
                    old(self)@.motor_leases,
                    started@.take(i as int),
                    started@[i as int],
                    lease,
                );
            }
            assert(started@.take(i + 1) =~= started@.take(i as int).push(started@[i as int]));
            i = i + 1;
        }
        assert(started@.take(started@.len() as int) =~= started@);
        Ok(started)
    }
}

proof fn lemma_leased_push(leases: Leases, channels: Seq<u8>, ch: u8, lease: Lease)
    ensures
        leased(leases, channels.push(ch), lease) == leased(leases, channels, lease).insert(
            ch,
            lease,
        ),
{
    let more = channels.push(ch);
    assert forall|x: u8| #[trigger] more.contains(x) <==> channels.contains(x) || x == ch by {
        if channels.contains(x) {
            let k = choose|k: int| 0 <= k < channels.len() && channels[k] == x;
            assert(more[k] == x);
        }
        assert(more[more.len() - 1] == ch);
    }
    assert(leased(leases, more, lease) =~= leased(leases, channels, lease).insert(ch, lease));
}

// ---------------------------------------------------------------------------
// Stopping
// ---------------------------------------------------------------------------

/// The indices of so many motors.
pub open spec fn motor_indices(motors: nat) -> Seq<u8> {
    Seq::new(motors, |i: int| i as u8)
}

/// The leases once motors have been told to stop, in order from the first: a
/// motor that did is free.
pub open spec fn after_stops(leases: Leases, outcomes: Outcomes) -> Leases
    decreases outcomes.len(),
{
    if outcomes.len() == 0 {
        leases
    } else {
        let before = after_stops(leases, outcomes.drop_last());
        if outcomes.last() is Ok {
            before.remove((outcomes.len() - 1) as u8)
        } else {
            before
        }
    }
}

/// The PWM channel of the next motor to stop, once `told` motors have been told
/// to.
pub open spec fn next_to_stop(h: HandlerView, told: nat) -> Option<u8> {
    if told < h.config.motors.len() {
        Some(h.config.motors[told as int].pwm_channel)
    } else {
        None
    }
}

impl Handler {
    /// The PWM channel of the next motor to stop, once so many have been told to.
    /// Every motor is, also after one has failed.
    pub fn next_motor_to_stop(&self, outcomes: &Vec<Result<(), String>>) -> (r: Option<u8>)
        ensures
            r == next_to_stop(self@, outcomes.len() as nat),
    {
        let n: usize = outcomes.len();
        if n < self.config.motors.len() {
            Some(self.config.motors[n].pwm_channel)
        } else {
            None
        }
    }

    /// Record what came of stopping that motor. One that did stop is free.
    pub fn record_motor_stop(
        &mut self,
        outcomes: &mut Vec<Result<(), String>>,
        outcome: Result<(), String>,
    )
        requires
            old(self)@.wf(),
            old(outcomes).len() < old(self)@.config.motors.len(),
        ensures
            final(self)@.wf(),
            final(outcomes)@ == old(outcomes)@.push(outcome),
            final(self)@ == (HandlerView {
                motor_leases: if outcome is Ok {
                    old(self)@.motor_leases.remove(old(outcomes).len() as u8)
                } else {
                    old(self)@.motor_leases
                },
                ..old(self)@
            }),
    {
        if outcome.is_ok() {
            self.motor_leases.revoke_channel(outcomes.len() as u8);
        }
        outcomes.push(outcome);
    }

    /// How the failures to stop motors are told.
    pub(crate) fn stop_failures(&self, outcomes: &Vec<Result<(), String>>) -> (r: Vec<String>)
        requires
            self@.wf(),
            outcomes.len() == self@.config.motors.len(),
        ensures
            text::texts(r@) == failure_texts(
                motor_indices(self@.config.motors.len()),
                outcomes_view(outcomes@),
                false,
            ),
    {
        let mut indices: Vec<u8> = Vec::new();
        let mut i: usize = 0;
        while i < outcomes.len()
            invariant
                i <= outcomes.len() <= 256,
                indices@ =~= motor_indices(i as nat),
            decreases outcomes.len() - i,
        {
            indices.push(i as u8);
            i = i + 1;
        }
        let mut failures: Vec<String> = Vec::new();
        describe_failures(&mut failures, &indices, outcomes, false);
        assert(text::texts(failures@) =~= failure_texts(
            motor_indices(self@.config.motors.len()),
            outcomes_view(outcomes@),
            false,
        ));
        failures
    }
}

// ---------------------------------------------------------------------------
// Laws
// ---------------------------------------------------------------------------

/// There are failures to tell exactly if some outcome is one, and each outcome either is
/// told or is a success.
pub proof fn lemma_failures(channels: Seq<u8>, outcomes: Outcomes, rollback: bool)
    ensures
        failure_texts(channels, outcomes, rollback).len() > 0 <==> exists|i: int|
            0 <= i < outcomes.len() && #[trigger] outcomes[i] is Err,
        failure_texts(channels, outcomes, rollback).len() + succeeded_channels(
            channels,
            outcomes,
        ).len() == outcomes.len(),
    decreases outcomes.len(),
{
    if outcomes.len() > 0 {
        let less = outcomes.drop_last();
        lemma_failures(channels, less, rollback);
        if outcomes.last() is Err {
            assert(outcomes[outcomes.len() - 1] is Err);
        } else if exists|i: int| 0 <= i < outcomes.len() && #[trigger] outcomes[i] is Err {
            let i = choose|i: int| 0 <= i < outcomes.len() && #[trigger] outcomes[i] is Err;
            assert(less[i] is Err);
        } else {
            assert forall|i: int| 0 <= i < less.len() implies !(#[trigger] less[i] is Err) by {
                assert(less[i] == outcomes[i]);
            }
        }
    }
}

proof fn lemma_all_started(channels: Seq<u8>, outcomes: Outcomes)
    requires
        outcomes.len() <= channels.len(),
        forall|i: int| 0 <= i < outcomes.len() ==> #[trigger] outcomes[i] is Ok,
    ensures
        succeeded_channels(channels, outcomes) == channels.take(outcomes.len() as int),
    decreases outcomes.len(),
{
    if outcomes.len() == 0 {
        assert(channels.take(0) =~= Seq::<u8>::empty());
    } else {
        let less = outcomes.drop_last();
        assert forall|i: int| 0 <= i < less.len() implies #[trigger] less[i] is Ok by {
            assert(less[i] == outcomes[i]);
        }
        lemma_all_started(channels, less);
        assert(outcomes[outcomes.len() - 1] is Ok);
        assert(channels.take(outcomes.len() as int) =~= channels.take(less.len() as int).push(
            channels[less.len() as int],
        ));
    }
}

/// An operation whose steps are done and recorded one after the other stays in
/// order, whatever comes of them, and is at its end after at most two steps for
/// each motor.
pub proof fn law_operation_comes_to_an_end(
    h: HandlerView,
    op: MotorOperationView,
    outcome: Result<(), Seq<char>>,
)
    requires
        op.fits(h),
        !(op.next(h) is Done),
    ensures
        op.recorded(outcome).fits(h),
        op.recorded(outcome).outcomes.len() + op.recorded(outcome).rollbacks.len()
            == op.outcomes.len() + op.rollbacks.len() + 1,
        op.outcomes.len() + op.rollbacks.len() < 2 * op.channels.len(),
{
    lemma_started(op.channels, op.outcomes);
    if op.outcomes.len() < op.channels.len() {
        assert(op.outcomes.push(outcome).drop_last() =~= op.outcomes);
    }
}

/// If one motor fails, the operation as a whole does: it is told as a failure, so
/// that nothing is leased, and by its end every motor that did start has been
/// told to idle.
pub proof fn law_failure_is_atomic(h: HandlerView, op: MotorOperationView)
    requires
        op.fits(h),
        op.next(h) is Done,
        op.any_failed(),
    ensures
        op.result() is Err,
        op.rollbacks.len() == op.started().len(),
        forall|k: int|
            0 <= k < op.started().len() ==> #[trigger] (MotorOperationView {
                rollbacks: op.rollbacks.take(k),
                ..op
            }).next(h) == (MotorStep::Idle {
                pwm_channel: h.config.motors[op.started()[k] as int].pwm_channel,
            }),
{
    lemma_failures(op.channels, op.outcomes, false);
}

/// If no motor fails, the connection holds every motor of the operation, each for
/// the time to live, and no other lease has changed.
pub proof fn law_success_leases_all(
    h: HandlerView,
    op: MotorOperationView,
    leases: Leases,
    lease: Lease,
    ch: u8,
)
    requires
        op.fits(h),
        op.next(h) is Done,
        !op.any_failed(),
    ensures
        op.result() == Ok::<Seq<u8>, Seq<Seq<char>>>(op.channels),
        ({
            let after = leased(leases, op.channels, lease);
            &&& op.channels.contains(ch) ==> after.dom().contains(ch) && after[ch] == lease
            &&& !op.channels.contains(ch) ==> after.dom().contains(ch) == leases.dom().contains(ch)
                && (after.dom().contains(ch) ==> after[ch] == leases[ch])
        }),
{
    lemma_failures(op.channels, op.outcomes, false);
    assert forall|i: int| 0 <= i < op.outcomes.len() implies #[trigger] op.outcomes[i] is Ok by {
        assert(!(op.outcomes[i] is Err));
    }
    lemma_all_started(op.channels, op.outcomes);
    assert(op.channels.take(op.channels.len() as int) =~= op.channels);
}

/// Calibration and configuration each turn a motor round: if both do, it runs as
/// if neither did.
pub proof fn law_two_reversals_cancel(h: HandlerView, channel: u8, speed_pct: Real)
    requires
        h.wf(),
        channel < h.config.motors.len(),
    ensures
        ({
            let reversed = command_for(h, channel, speed_pct).reversed;
            let by_config = h.config.motors[channel as int].reversed;
            let by_calibration = h.calibration.motors[channel as int].reversed;
            &&& reversed <==> (by_config || by_calibration) && !(by_config && by_calibration)
        }),
{
}

/// Stopping frees a motor exactly if it did stop; all other leases stay.
pub proof fn law_stopping_frees_what_stopped(leases: Leases, outcomes: Outcomes, ch: u8)
    requires
        outcomes.len() <= 256,
    ensures
        ({
            let after = after_stops(leases, outcomes);
            &&& ch < outcomes.len() && outcomes[ch as int] is Ok ==> !after.dom().contains(ch)
            &&& !(ch < outcomes.len() && outcomes[ch as int] is Ok) ==> after.dom().contains(ch)
                == leases.dom().contains(ch) && after[ch] == leases[ch]
        }),
    decreases outcomes.len(),
{
    if outcomes.len() > 0 {
        let less = outcomes.drop_last();
        law_stopping_frees_what_stopped(leases, less, ch);
        if ch < less.len() {
            assert(less[ch as int] == outcomes[ch as int]);
        }
    }
}

/// To record what came of stopping the next motor is one step of `after_stops`.
pub proof fn law_stops_add_up(leases: Leases, outcomes: Outcomes, outcome: Result<(), Seq<char>>)
    ensures
        after_stops(leases, outcomes.push(outcome)) == (if outcome is Ok {
            after_stops(leases, outcomes).remove(outcomes.len() as u8)
        } else {
            after_stops(leases, outcomes)
        }),
{
    assert(outcomes.push(outcome).drop_last() =~= outcomes);
}

/// To stop the next motor, from the first on, as long as there is a next one,
/// comes to an end once every motor has been told to, and no sooner.
pub proof fn law_stopping_comes_to_an_end(h: HandlerView, told: nat)
    requires
        told <= h.config.motors.len(),
    ensures
        next_to_stop(h, told) is Some ==> told + 1 <= h.config.motors.len(),
        next_to_stop(h, told) is None ==> told == h.config.motors.len(),
{
}

/// The next command of an operation goes to the motor whose turn it is: to its own
/// PWM channel and its own direction pin, at the speed that was asked for it, to be
/// adjusted by its own calibration.
pub proof fn law_commands_reach_their_own_motor(h: HandlerView, op: MotorOperationView)
    requires
        h.wf(),
        op.fits(h),
        op.outcomes.len() < op.channels.len(),
    ensures
        ({
            let n = op.outcomes.len() as int;
            let motor = op.channels[n] as int;
            &&& op.next(h) matches MotorStep::Command(c) && {
                &&& c.pwm_channel == h.config.motors[motor].pwm_channel
                &&& c.dir_pin_bcm == h.config.motors[motor].dir_pin_bcm
                &&& c.speed_pct == op.speeds[n]
                &&& c.speed_scale == h.calibration.motors[motor].speed_scale
                &&& c.deadband_pct == h.calibration.motors[motor].deadband_pct
                &&& c.reversed == (h.config.motors[motor].reversed
                    != h.calibration.motors[motor].reversed)
            }
        }),
{
}

/// With a valid configuration, commands to two motors share neither a PWM channel
/// nor a direction pin.
pub proof fn law_commands_share_nothing(
    h: HandlerView,
    a: u8,
    b: u8,
    speed_a: Real,
    speed_b: Real,
)
    requires
        h.wf(),
        h.config.valid(),
        a < h.config.motors.len(),
        b < h.config.motors.len(),
        a != b,
    ensures
        command_for(h, a, speed_a).pwm_channel != command_for(h, b, speed_b).pwm_channel,
        command_for(h, a, speed_a).dir_pin_bcm != command_for(h, b, speed_b).dir_pin_bcm,
{
    assert(h.config.motors[a as int].pwm_channel != h.config.motors[b as int].pwm_channel);
}

/// A motor is commanded first of all, one after the other, whatever comes of it; a
/// motor is idled only once all have been commanded and one of them has failed.
pub proof fn law_all_are_commanded_before_any_is_idled(h: HandlerView, op: MotorOperationView)
    requires
        op.fits(h),
    ensures
        op.next(h) is Command <==> op.outcomes.len() < op.channels.len(),
        op.next(h) is Idle ==> op.outcomes.len() == op.channels.len() && op.any_failed(),
        op.next(h) is Done ==> op.outcomes.len() == op.channels.len(),
{
    lemma_failures(op.channels, op.outcomes, false);
}

/// The motor that is idled next is one that did start, and every motor that did is
/// in its turn: those of the outcomes that are `Ok`, in their order.
pub proof fn law_what_started_is_idled(h: HandlerView, op: MotorOperationView)
    requires
        op.fits(h),
    ensures
        op.next(h) matches MotorStep::Idle { pwm_channel } ==> exists|k: int|
            0 <= k < op.outcomes.len() && #[trigger] op.outcomes[k] is Ok && pwm_channel
                == h.config.motors[op.channels[k] as int].pwm_channel,
        forall|k: int|
            0 <= k < op.outcomes.len() && (#[trigger] op.outcomes[k]) is Ok
                ==> op.started().contains(op.channels[k]),
        forall|ch: u8| #[trigger]
            op.started().contains(ch) ==> exists|k: int|
                0 <= k < op.outcomes.len() && (#[trigger] op.outcomes[k]) is Ok && op.channels[k]
                    == ch,
{
    lemma_started(op.channels, op.outcomes);
    lemma_started_complete(op.channels, op.outcomes);
    if let MotorStep::Idle { pwm_channel } = op.next(h) {
        let ch = op.started()[op.rollbacks.len() as int];
        assert(did_start(op.channels, op.outcomes, ch));
        let k = choose|k: int|
            0 <= k < op.outcomes.len() && #[trigger] op.outcomes[k] is Ok && op.channels[k] == ch;
        assert(op.outcomes[k] is Ok);
    }
    assert forall|ch: u8| #[trigger] op.started().contains(ch) implies exists|k: int|
        0 <= k < op.outcomes.len() && (#[trigger] op.outcomes[k]) is Ok && op.channels[k]
            == ch by {
        let i = choose|i: int| 0 <= i < op.started().len() && op.started()[i] == ch;
        assert(did_start(op.channels, op.outcomes, op.started()[i]));
    }
}

proof fn lemma_started_complete(channels: Seq<u8>, outcomes: Outcomes)
    ensures
        forall|k: int|
            0 <= k < outcomes.len() && (#[trigger] outcomes[k]) is Ok ==> succeeded_channels(
                channels,
                outcomes,
            ).contains(channels[k]),
    decreases outcomes.len(),
{
    if outcomes.len() > 0 {
        let less = outcomes.drop_last();
        lemma_started_complete(channels, less);
        let s = succeeded_channels(channels, outcomes);
        let t = succeeded_channels(channels, less);
        assert forall|k: int| 0 <= k < outcomes.len() && (#[trigger] outcomes[k]) is Ok implies
            s.contains(channels[k]) by {
            if k < less.len() {
                assert(less[k] is Ok);
                assert(t.contains(channels[k]));
                let i = choose|i: int| 0 <= i < t.len() && t[i] == channels[k];
                assert(s[i] == channels[k]);
            } else {
                assert(s[s.len() - 1] == channels[k]);
            }
        }
    }
}

/// Every failure is told in its place, under the index of its motor, and nothing
/// else is: one more outcome tells one more failure, or none if it is not one.
pub proof fn law_failures_are_told_one_by_one(
    channels: Seq<u8>,
    outcomes: Outcomes,
    outcome: Result<(), Seq<char>>,
)
    requires
        outcomes.len() < channels.len(),
    ensures
        failure_texts(channels, Seq::empty(), false).len() == 0,
        failure_texts(channels, Seq::empty(), true).len() == 0,
        failure_texts(channels, outcomes.push(outcome), false) == (match outcome {
            Ok(_) => failure_texts(channels, outcomes, false),
            Err(e) => failure_texts(channels, outcomes, false).push(
                "channel "@ + text::decimal_of(channels[outcomes.len() as int] as nat) + ": "@ + e,
            ),
        }),
        failure_texts(channels, outcomes.push(outcome), true) == (match outcome {
            Ok(_) => failure_texts(channels, outcomes, true),
            Err(e) => failure_texts(channels, outcomes, true).push(
                "channel "@ + text::decimal_of(channels[outcomes.len() as int] as nat)
                    + ": rollback failed: "@ + e,
            ),
        }),
        succeeded_channels(channels, Seq::empty()).len() == 0,
        succeeded_channels(channels, outcomes.push(outcome)) == (match outcome {
            Ok(_) => succeeded_channels(channels, outcomes).push(
                channels[outcomes.len() as int],
            ),
            Err(_) => succeeded_channels(channels, outcomes),
        }),
{
    assert(outcomes.push(outcome).drop_last() =~= outcomes);
}

/// A failed operation is told by the commands that failed, and then by the motors
/// that could not be idled again; as many are told as there are of both.
pub proof fn law_a_failed_operation_tells_all(h: HandlerView, op: MotorOperationView)
    requires
        op.fits(h),
        op.any_failed(),
    ensures
        op.result() matches Err(told) && {
            &&& told.len() >= failure_texts(op.channels, op.outcomes, false).len()
            &&& told == failure_texts(op.channels, op.outcomes, false) + failure_texts(
                succeeded_channels(op.channels, op.outcomes),
                op.rollbacks,
                true,
            )
        },
{
    lemma_failures(op.channels, op.outcomes, false);
}

/// An outcome is recorded behind those that are there, as one of a command while
/// there are motors to command, and then as one of idling; nothing else changes.
pub proof fn law_recording_adds_one(op: MotorOperationView, outcome: Result<(), Seq<char>>)
    ensures
        ({
            let r = op.recorded(outcome);
            &&& r.channels == op.channels && r.speeds == op.speeds
            &&& r.conn_id == op.conn_id && r.ttl_ms == op.ttl_ms
            &&& op.outcomes.len() < op.channels.len() ==> r.outcomes == op.outcomes.push(outcome)
                && r.rollbacks == op.rollbacks
            &&& op.outcomes.len() >= op.channels.len() ==> r.outcomes == op.outcomes && r.rollbacks
                == op.rollbacks.push(outcome)
        }),
{
}

/// Motors are stopped from the first to the last, each by its own PWM channel.
pub proof fn law_motors_are_stopped_in_turn(h: HandlerView, told: nat)
    requires
        told < h.config.motors.len(),
    ensures
        next_to_stop(h, told) == Some(h.config.motors[told as int].pwm_channel),
{
}

/// An operation on one motor, or on all of them, fits from its start, and nothing of it is
/// done yet.
pub proof fn law_a_new_operation_fits(
    h: HandlerView,
    channel: u8,
    speed_pct: Real,
    conn_id: u64,
    ttl_ms: u64,
)
    requires
        h.wf(),
        channel < h.config.motors.len(),
    ensures
        (MotorOperationView {
            channels: seq![channel],
            speeds: seq![speed_pct],
            conn_id,
            ttl_ms,
            outcomes: Seq::empty(),
            rollbacks: Seq::empty(),
        }).fits(h),
        (MotorOperationView {
            channels: Seq::new(h.config.motors.len(), |i: int| i as u8),
            speeds: Seq::new(h.config.motors.len(), |i: int| speed_pct),
            conn_id,
            ttl_ms,
            outcomes: Seq::empty(),
            rollbacks: Seq::empty(),
        }).fits(h),
{
}

} // verus!
