//! What the daemon remembers between requests.

use vstd::prelude::*;
use vstd::string::*;

use crate::calibration;
use crate::calibration::{CalibrationStore, CalibrationView};
use crate::config::{Config, ConfigView};
use crate::hat::lease;
use crate::hat::lease::{Lease, LeaseManager, Leases};

verus! {

/// The connection under which a routine holds its leases.
pub const ROUTINE_CONN_ID: u64 = 0;

/// How long a routine that was told to stop is waited for.
pub const ROUTINE_STOP_TIMEOUT_MS: u64 = 2000;

/// The shortest time between two resets of the microcontroller.
pub const RESET_MIN_INTERVAL_MS: u64 = 1000;

/// The resets of the microcontroller so far.
#[derive(Debug, Clone, Copy, PartialEq, Eq, Structural)]
pub struct McuState {
    pub reset_count: u64,
    pub last_reset_at_ms: Option<u64>,
}

/// Decides on requests. Times are milliseconds since the daemon started.
#[derive(Debug)]
pub struct Handler {
    pub config: Config,
    pub version: String,
    /// Leases on servo channels.
    pub leases: LeaseManager,
    /// Leases on motors, by motor index.
    pub motor_leases: LeaseManager,
    pub mcu: McuState,
    pub calibration: CalibrationStore,
    /// The name of the routine that was started and not yet stopped.
    pub routine: Option<String>,
}

/// A `Handler` over sequences and maps.
pub struct HandlerView {
    pub config: ConfigView,
    pub version: Seq<char>,
    pub leases: Leases,
    pub motor_leases: Leases,
    pub mcu: McuState,
    pub calibration: CalibrationView,
    pub routine: Option<Seq<char>>,
}

impl View for Handler {
    type V = HandlerView;

    open spec fn view(&self) -> HandlerView {
        HandlerView {
            config: self.config@,
            version: self.version@,
            leases: self.leases@,
            motor_leases: self.motor_leases@,
            mcu: self.mcu,
            calibration: self.calibration@,
            routine: match self.routine {
                Some(name) => Some(name@),
                None => None,
            },
        }
    }
}

impl HandlerView {
    /// Every motor has its calibration and an index that fits in a byte, and all
    /// calibration is within its bounds.
    pub open spec fn wf(self) -> bool {
        &&& self.config.motors.len() <= 256
        &&& self.calibration.motors.len() == self.config.motors.len()
        &&& self.calibration.valid()
    }

    /// This state once a connection has leased a servo channel.
    pub open spec fn with_lease(
        self,
        channel: u8,
        conn_id: u64,
        ttl_ms: u64,
        now_ms: u64,
    ) -> HandlerView {
        HandlerView {
            leases: self.leases.insert(
                channel,
                Lease { conn_id, expires_at_ms: lease::later(now_ms, ttl_ms) },
            ),
            ..self
        }
    }
}

/// The PWM channels of the motors in a list that are configured, in order.
pub open spec fn configured_pwm(config: ConfigView, motors: Seq<u8>) -> Seq<u8>
    decreases motors.len(),
{
    if motors.len() == 0 {
        Seq::empty()
    } else {
        let before = configured_pwm(config, motors.drop_last());
        if motors.last() < config.motors.len() {
            before.push(config.motors[motors.last() as int].pwm_channel)
        } else {
            before
        }
    }
}

impl Handler {
    /// A daemon that has just started: no leases, no resets, no routine, and the
    /// calibration that was loaded, where it can be used.
    pub fn new(config: Config, version: String, loaded: Option<CalibrationStore>) -> (r: Handler)
        requires
            config.motors.len() <= 256,
        ensures
            r@.wf(),
            r@.config == config@,
            r@.version == version@,
            r@.leases == Map::<u8, Lease>::empty(),
            r@.motor_leases == Map::<u8, Lease>::empty(),
            r@.mcu == (McuState { reset_count: 0, last_reset_at_ms: None }),
            r@.routine is None,
            r@.calibration == calibration::starting_calibration(
                calibration::loaded_view(loaded),
                config.motors.len() as nat,
            ),
    {
        let calibration = CalibrationStore::load_or_default(loaded, config.motors.len());
        Handler {
            config,
            version,
            leases: LeaseManager::new(),
            motor_leases: LeaseManager::new(),
            mcu: McuState { reset_count: 0, last_reset_at_ms: None },
            calibration,
            routine: None,
        }
    }

    /// The leases on servo channels.
    pub fn lease_manager(&self) -> (r: &LeaseManager)
        ensures
            *r == self.leases,
    {
        &self.leases
    }

    /// The leases on motors.
    pub fn motor_lease_manager(&self) -> (r: &LeaseManager)
        ensures
            *r == self.motor_leases,
    {
        &self.motor_leases
    }

    /// The configuration.
    pub fn config(&self) -> (r: &Config)
        ensures
            *r == self.config,
    {
        &self.config
    }

    /// A client has disconnected: take its servo channels from it. Returns the
    /// channels to idle. Once they are, `on_servos_idled` does the same for its
    /// motors.
    pub fn on_client_disconnect(&mut self, conn_id: u64) -> (r: Vec<u8>)
        ensures
            old(self)@.wf() ==> final(self)@.wf(),
            r@ == lease::held_by(old(self)@.leases, conn_id),
            final(self)@ == (HandlerView {
                leases: lease::without_connection(old(self)@.leases, conn_id),
                ..old(self)@
            }),
    {
        self.leases.release_connection(conn_id)
    }

    /// A client has disconnected and its servo channels are idle: take its
    /// motors from it. Returns the PWM channels to idle, those of the motors that
    /// are configured.
    pub fn on_servos_idled(&mut self, conn_id: u64) -> (r: Vec<u8>)
        ensures
            old(self)@.wf() ==> final(self)@.wf(),
            forall|i: u8|
                i < old(self).config.motors@.len() && #[trigger] old(
                    self,
                ).motor_leases@.dom().contains(i) && old(self).motor_leases@[i].conn_id == conn_id
                    ==> r@.contains(old(self).config.motors@[i as int].pwm_channel),
            r@ == configured_pwm(
                old(self)@.config,
                lease::held_by(old(self)@.motor_leases, conn_id),
            ),
            final(self)@ == (HandlerView {
                motor_leases: lease::without_connection(old(self)@.motor_leases, conn_id),
                ..old(self)@
            }),
    {
        let motors = self.motor_leases.release_connection(conn_id);
        let mut out: Vec<u8> = Vec::new();
        let mut i: usize = 0;
        assert(motors@.take(0) =~= Seq::<u8>::empty());
        while i < motors.len()
            invariant
                i <= motors@.len(),
                out@ == configured_pwm(self@.config, motors@.take(i as int)),
            decreases motors@.len() - i,
        {
            assert(motors@.take(i + 1).drop_last() =~= motors@.take(i as int));
            let m: usize = motors[i] as usize;
            if m < self.config.motors.len() {
                out.push(self.config.motors[m].pwm_channel);
            }
            i = i + 1;
        }
        assert(motors@.take(motors@.len() as int) =~= motors@);
        proof {
            law_disconnect_idles_every_motor(old(self)@.config, old(self)@.motor_leases, conn_id);
        }
        out
    }
}

// ---------------------------------------------------------------------------
// Laws
// ---------------------------------------------------------------------------

/// A PWM channel is among those to idle exactly if it is that of a configured motor
/// that the connection held; and where every motor that it held is configured, as
/// many are idled as it held.
pub proof fn law_disconnect_idles_every_motor(
    config: ConfigView,
    motor_leases: Leases,
    conn_id: u64,
)
    ensures
        ({
            let idled = configured_pwm(config, lease::held_by(motor_leases, conn_id));
            &&& forall|i: u8|
                i < config.motors.len() && #[trigger] motor_leases.dom().contains(i)
                    && motor_leases[i].conn_id == conn_id ==> idled.contains(
                    config.motors[i as int].pwm_channel,
                )
            &&& forall|k: int|
                0 <= k < idled.len() ==> exists|i: u8|
                    #![trigger motor_leases.dom().contains(i)]
                    {
                        &&& i < config.motors.len()
                        &&& motor_leases.dom().contains(i)
                        &&& motor_leases[i].conn_id == conn_id
                        &&& #[trigger] idled[k] == config.motors[i as int].pwm_channel
                    }
            &&& idled.len() <= lease::held_by(motor_leases, conn_id).len()
            &&& (forall|i: u8| #[trigger]
                motor_leases.dom().contains(i) && motor_leases[i].conn_id == conn_id ==> i
                    < config.motors.len()) ==> idled.len() == lease::held_by(
                motor_leases,
                conn_id,
            ).len()
        }),
{
    let held = lease::held_by(motor_leases, conn_id);
    let idled = configured_pwm(config, held);
    lemma_configured_pwm(config, held);
    assert forall|i: u8|
        i < config.motors.len() && #[trigger] motor_leases.dom().contains(i)
            && motor_leases[i].conn_id == conn_id implies idled.contains(
        config.motors[i as int].pwm_channel,
    ) by {
        lease::law_release_is_exact(motor_leases, conn_id, i);
        assert(held.contains(i));
        let k = choose|k: int| 0 <= k < held.len() && held[k] == i;
        assert(held[k] < config.motors.len());
    }
    assert forall|k: int| 0 <= k < idled.len() implies exists|i: u8|
        #![trigger motor_leases.dom().contains(i)]
        {
            &&& i < config.motors.len()
            &&& motor_leases.dom().contains(i)
            &&& motor_leases[i].conn_id == conn_id
            &&& #[trigger] idled[k] == config.motors[i as int].pwm_channel
        } by {
        assert(pwm_of_some(config, held, idled[k]));
        let j = choose|j: int|
            0 <= j < held.len() && #[trigger] held[j] < config.motors.len() && idled[k]
                == config.motors[held[j] as int].pwm_channel;
        lease::law_release_is_exact(motor_leases, conn_id, held[j]);
        assert(held.contains(held[j]));
        assert(motor_leases.dom().contains(held[j]));
    }
    if forall|i: u8| #[trigger]
        motor_leases.dom().contains(i) && motor_leases[i].conn_id == conn_id ==> i
            < config.motors.len() {
        assert forall|j: int| 0 <= j < held.len() implies #[trigger] held[j]
            < config.motors.len() by {
            lease::law_release_is_exact(motor_leases, conn_id, held[j]);
            assert(held.contains(held[j]));
            assert(motor_leases.dom().contains(held[j]));
        }
    }
}

/// Whether `pwm` is the PWM channel of a configured motor in a list.
spec fn pwm_of_some(config: ConfigView, motors: Seq<u8>, pwm: u8) -> bool {
    exists|j: int|
        0 <= j < motors.len() && #[trigger] motors[j] < config.motors.len() && pwm
            == config.motors[motors[j] as int].pwm_channel
}

proof fn lemma_configured_pwm(config: ConfigView, motors: Seq<u8>)
    ensures
        forall|j: int|
            0 <= j < motors.len() && #[trigger] motors[j] < config.motors.len()
                ==> configured_pwm(config, motors).contains(
                config.motors[motors[j] as int].pwm_channel,
            ),
        forall|k: int|
            0 <= k < configured_pwm(config, motors).len() ==> pwm_of_some(
                config,
                motors,
                #[trigger] configured_pwm(config, motors)[k],
            ),
        configured_pwm(config, motors).len() <= motors.len(),
        (forall|j: int| 0 <= j < motors.len() ==> #[trigger] motors[j] < config.motors.len())
            ==> configured_pwm(config, motors).len() == motors.len(),
    decreases motors.len(),
{
    if motors.len() > 0 {
        let less = motors.drop_last();
        lemma_configured_pwm(config, less);
        let s = configured_pwm(config, motors);
        let t = configured_pwm(config, less);
        assert forall|j: int| 0 <= j < motors.len() && #[trigger] motors[j]
            < config.motors.len() implies s.contains(
            config.motors[motors[j] as int].pwm_channel,
        ) by {
            if j < less.len() {
                assert(less[j] == motors[j]);
                let pwm = config.motors[motors[j] as int].pwm_channel;
                assert(t.contains(pwm));
                let i = choose|i: int| 0 <= i < t.len() && t[i] == pwm;
                assert(s[i] == pwm);
            } else {
                assert(s[s.len() - 1] == config.motors[motors[j] as int].pwm_channel);
            }
        }
        assert forall|k: int| 0 <= k < s.len() implies pwm_of_some(
            config,
            motors,
            #[trigger] s[k],
        ) by {
            if k < t.len() {
                assert(s[k] == t[k]);
                assert(pwm_of_some(config, less, t[k]));
                let j = choose|j: int|
                    0 <= j < less.len() && #[trigger] less[j] < config.motors.len() && t[k]
                        == config.motors[less[j] as int].pwm_channel;
                assert(motors[j] == less[j]);
            } else {
                assert(motors[motors.len() - 1] < config.motors.len());
            }
        }
        if forall|j: int| 0 <= j < motors.len() ==> #[trigger] motors[j] < config.motors.len() {
            assert forall|j: int| 0 <= j < less.len() implies #[trigger] less[j]
                < config.motors.len() by {
                assert(less[j] == motors[j]);
            }
            assert(motors[motors.len() - 1] < config.motors.len());
        }
    }
}

/// To lease a servo channel gives it to the connection until the time to live is
/// over. Nothing else changes.
pub proof fn law_a_lease_is_one_channel(
    h: HandlerView,
    channel: u8,
    conn_id: u64,
    ttl_ms: u64,
    now_ms: u64,
    other: u8,
)
    requires
        now_ms + ttl_ms <= u64::MAX,
        other != channel,
    ensures
        ({
            let after = h.with_lease(channel, conn_id, ttl_ms, now_ms);
            &&& after.leases.dom().contains(channel)
            &&& after.leases[channel].conn_id == conn_id
            &&& after.leases[channel].expires_at_ms == now_ms + ttl_ms
            &&& after.leases.dom().contains(other) == h.leases.dom().contains(other)
            &&& after.leases[other] == h.leases[other]
            &&& after.motor_leases == h.motor_leases
            &&& after.mcu == h.mcu
            &&& after.calibration == h.calibration
            &&& after.config == h.config
            &&& after.version == h.version
            &&& after.routine == h.routine
        }),
{
}

} // verus!
