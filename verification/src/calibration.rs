//! Calibration of motors, servos and grayscale sensors: values that change
//! while the daemon runs, each within its bounds at all times.

use vstd::prelude::*;
use vstd::string::*;

use crate::number;
use crate::number::Real;
use crate::text;

verus! {

// ---------------------------------------------------------------------------
// The parts
// ---------------------------------------------------------------------------

/// Calibration of one motor.
#[derive(Debug, Clone, Copy, PartialEq, Eq, Structural)]
pub struct MotorCalibration {
    /// Factor on the speed (0.5 to 2.0).
    pub speed_scale: Real,
    /// Speed percentage below which the motor stays stopped (0 to 20).
    pub deadband_pct: Real,
    /// Flip the direction, whatever the configuration says of it.
    pub reversed: bool,
}

/// The calibration of a motor that was never calibrated.
pub open spec fn default_motor() -> MotorCalibration {
    MotorCalibration {
        speed_scale: Real { bits: number::ONE },
        deadband_pct: Real { bits: number::ZERO },
        reversed: false,
    }
}

impl Default for MotorCalibration {
    fn default() -> (r: Self)
        ensures
            r == default_motor(),
    {
        MotorCalibration {
            speed_scale: Real::from_bits(number::ONE),
            deadband_pct: Real::from_bits(number::ZERO),
            reversed: false,
        }
    }
}

impl MotorCalibration {
    /// Scale and deadband are within their bounds.
    pub open spec fn valid(self) -> bool {
        &&& self.speed_scale.within(number::ONE_HALF, number::TWO)
        &&& self.deadband_pct.within(number::ZERO, number::TWENTY)
    }
}

/// Calibration of one grayscale sensor: what it reads over white and over black.
#[derive(Debug, Clone, Copy, PartialEq, Eq, Structural)]
pub struct GrayscaleCalibration {
    pub white_raw: u16,
    pub black_raw: u16,
}

/// The calibration of a sensor that was never calibrated.
pub open spec fn default_sensor() -> GrayscaleCalibration {
    GrayscaleCalibration { white_raw: 100, black_raw: 3000 }
}

impl Default for GrayscaleCalibration {
    fn default() -> (r: Self)
        ensures
            r == default_sensor(),
    {
        GrayscaleCalibration { white_raw: 100, black_raw: 3000 }
    }
}

/// A number from 0 to 1, as a fraction.
#[derive(Debug, Clone, Copy, PartialEq, Eq, Structural)]
pub struct Fraction {
    pub numerator: u16,
    pub denominator: u16,
}

/// `raw` as a part of the way from `white` to `black`: 0 at or before the one,
/// 1 at or past the other.
pub open spec fn normalized_of(c: GrayscaleCalibration, raw: u16) -> Fraction {
    let span = (c.black_raw - c.white_raw) as u16;
    if raw <= c.white_raw {
        Fraction { numerator: 0, denominator: span }
    } else if raw >= c.black_raw {
        Fraction { numerator: span, denominator: span }
    } else {
        Fraction { numerator: (raw - c.white_raw) as u16, denominator: span }
    }
}

impl GrayscaleCalibration {
    /// White reads lower than black.
    pub open spec fn valid(self) -> bool {
        self.white_raw < self.black_raw
    }

    /// A reading as a part of the way from white to black, from 0 to 1.
    pub fn normalized(&self, raw: u16) -> (r: Fraction)
        requires
            self.valid(),
        ensures
            r == normalized_of(*self, raw),
            r.numerator <= r.denominator,
            r.denominator > 0,
    {
        let span: u16 = self.black_raw - self.white_raw;
        if raw <= self.white_raw {
            Fraction { numerator: 0, denominator: span }
        } else if raw >= self.black_raw {
            Fraction { numerator: span, denominator: span }
        } else {
            Fraction { numerator: raw - self.white_raw, denominator: span }
        }
    }
}

/// Trim of one named servo, in microseconds of pulse width.
#[derive(Debug)]
pub struct ServoTrim {
    pub name: String,
    pub trim_us: i16,
}

impl Clone for ServoTrim {
    fn clone(&self) -> (r: Self)
        ensures
            r == *self,
    {
        ServoTrim { name: self.name.clone(), trim_us: self.trim_us }
    }
}

/// The bounds of a trim.
pub open spec fn trim_in_range(trim_us: int) -> bool {
    -500 <= trim_us <= 500
}

/// A pulse width with a trim on it, kept within what a servo takes.
pub open spec fn trimmed(pulse_us: u16, trim_us: i16) -> int {
    let p = pulse_us + trim_us;
    if p < 500 {
        500
    } else if p > 2500 {
        2500
    } else {
        p
    }
}

/// Put a trim on a pulse width. The result is within 500 to 2500.
pub fn trimmed_pulse_us(pulse_us: u16, trim_us: i16) -> (r: u16)
    ensures
        r == trimmed(pulse_us, trim_us),
        500 <= r <= 2500,
{
    let p: i32 = pulse_us as i32 + trim_us as i32;
    if p < 500 {
        500
    } else if p > 2500 {
        2500
    } else {
        p as u16
    }
}

/// The servos that have a name.
#[derive(Debug, Clone, Copy, PartialEq, Eq, Structural)]
pub enum ServoName {
    Steering,
    CameraPan,
    CameraTilt,
}

/// The servo that a name stands for.
pub open spec fn servo_named(name: Seq<char>) -> Option<ServoName> {
    if name == "steering"@ {
        Some(ServoName::Steering)
    } else if name == "camera_pan"@ {
        Some(ServoName::CameraPan)
    } else if name == "camera_tilt"@ {
        Some(ServoName::CameraTilt)
    } else {
        None
    }
}

impl ServoName {
    /// The name of the servo.
    pub open spec fn name_of(self) -> Seq<char> {
        match self {
            ServoName::Steering => "steering"@,
            ServoName::CameraPan => "camera_pan"@,
            ServoName::CameraTilt => "camera_tilt"@,
        }
    }

    /// The name of the servo.
    pub fn name(&self) -> (r: &'static str)
        ensures
            r@ == self.name_of(),
    {
        match self {
            ServoName::Steering => "steering",
            ServoName::CameraPan => "camera_pan",
            ServoName::CameraTilt => "camera_tilt",
        }
    }

    /// The servo that a name stands for.
    pub fn from_name(name: &str) -> (r: Option<ServoName>)
        ensures
            r == servo_named(name@),
    {
        if text::same_text(name, "steering") {
            Some(ServoName::Steering)
        } else if text::same_text(name, "camera_pan") {
            Some(ServoName::CameraPan)
        } else if text::same_text(name, "camera_tilt") {
            Some(ServoName::CameraTilt)
        } else {
            None
        }
    }
}

// ---------------------------------------------------------------------------
// The store
// ---------------------------------------------------------------------------

/// The calibration of everything.
#[derive(Debug)]
pub struct CalibrationStore {
    /// By motor index.
    pub motors: Vec<MotorCalibration>,
    /// Left, center, right.
    pub grayscale: [GrayscaleCalibration; 3],
    /// By servo name; no name occurs twice.
    pub servos: Vec<ServoTrim>,
}

/// A `CalibrationStore`, with the trims as a map from servo names.
pub struct CalibrationView {
    pub motors: Seq<MotorCalibration>,
    pub grayscale: Seq<GrayscaleCalibration>,
    pub trims: Map<Seq<char>, i16>,
}

/// The trims of a list, by name. A later entry prevails.
pub open spec fn trims_of(list: Seq<ServoTrim>) -> Map<Seq<char>, i16>
    decreases list.len(),
{
    if list.len() == 0 {
        Map::empty()
    } else {
        trims_of(list.drop_last()).insert(list.last().name@, list.last().trim_us)
    }
}

impl View for CalibrationStore {
    type V = CalibrationView;

    open spec fn view(&self) -> CalibrationView {
        CalibrationView {
            motors: self.motors@,
            grayscale: self.grayscale@,
            trims: trims_of(self.servos@),
        }
    }
}

/// The trims of servos that were never calibrated.
pub open spec fn default_trims() -> Map<Seq<char>, i16> {
    Map::<Seq<char>, i16>::empty().insert("steering"@, 0).insert("camera_pan"@, 0).insert(
        "camera_tilt"@,
        0,
    )
}

/// The calibration of a robot that was never calibrated.
pub open spec fn default_calibration(motors: nat) -> CalibrationView {
    CalibrationView {
        motors: Seq::new(motors, |i: int| default_motor()),
        grayscale: Seq::new(3, |i: int| default_sensor()),
        trims: default_trims(),
    }
}

/// The calibration to start with: what was loaded, if there is any, every value of
/// it is within its bounds and it is for so many motors; else the default.
pub open spec fn starting_calibration(
    loaded: Option<CalibrationView>,
    motors: nat,
) -> CalibrationView {
    match loaded {
        Some(c) => if c.valid() && c.motors.len() == motors {
            c
        } else {
            default_calibration(motors)
        },
        None => default_calibration(motors),
    }
}

/// What was loaded, if anything was.
pub open spec fn loaded_view(loaded: Option<CalibrationStore>) -> Option<CalibrationView> {
    match loaded {
        Some(store) => Some(store@),
        None => None,
    }
}

impl CalibrationView {
    /// Every value is within its bounds.
    pub open spec fn valid(self) -> bool {
        &&& forall|i: int| 0 <= i < self.motors.len() ==> (#[trigger] self.motors[i]).valid()
        &&& self.grayscale.len() == 3
        &&& forall|i: int| 0 <= i < self.grayscale.len() ==> (#[trigger] self.grayscale[i]).valid()
        &&& forall|name: Seq<char>| #[trigger]
            self.trims.dom().contains(name) ==> trim_in_range(self.trims[name] as int)
    }

    /// The trim of a servo: none, unless one is stored.
    pub open spec fn trim(self, name: Seq<char>) -> i16 {
        if self.trims.dom().contains(name) {
            self.trims[name]
        } else {
            0
        }
    }
}

proof fn lemma_trims(list: Seq<ServoTrim>)
    ensures
        forall|name: Seq<char>| #[trigger]
            trims_of(list).dom().contains(name) ==> exists|i: int|
                0 <= i < list.len() && (#[trigger] list[i]).name@ == name && list[i].trim_us
                    == trims_of(list)[name],
        forall|i: int|
            0 <= i < list.len() ==> trims_of(list).dom().contains((#[trigger] list[i]).name@),
    decreases list.len(),
{
    if list.len() > 0 {
        let less = list.drop_last();
        lemma_trims(less);
        assert forall|name: Seq<char>| #[trigger]
            trims_of(list).dom().contains(name) implies exists|i: int|
            0 <= i < list.len() && (#[trigger] list[i]).name@ == name && list[i].trim_us
                == trims_of(list)[name] by {
            if name == list.last().name@ {
                assert(list[list.len() - 1].name@ == name);
            } else {
                assert(trims_of(less).dom().contains(name));
                let i = choose|i: int|
                    0 <= i < less.len() && (#[trigger] less[i]).name@ == name && less[i].trim_us
                        == trims_of(less)[name];
                assert(list[i] == less[i]);
            }
        }
        assert forall|i: int| 0 <= i < list.len() implies trims_of(list).dom().contains(
            (#[trigger] list[i]).name@,
        ) by {
            if i < less.len() {
                assert(less[i] == list[i]);
            }
        }
    }
}

/// Where no name occurs twice, to change one entry is to change the trim of its
/// name.
proof fn lemma_trim_changed(list: Seq<ServoTrim>, i: int, changed: ServoTrim)
    requires
        0 <= i < list.len(),
        changed.name@ == list[i].name@,
        forall|k: int| i < k < list.len() ==> (#[trigger] list[k]).name@ != list[i].name@,
    ensures
        trims_of(list.update(i, changed)) == trims_of(list).insert(changed.name@, changed.trim_us),
    decreases list.len(),
{
    let updated = list.update(i, changed);
    if i == list.len() - 1 {
        assert(updated.drop_last() =~= list.drop_last());
        assert(trims_of(updated) =~= trims_of(list).insert(changed.name@, changed.trim_us));
    } else {
        let less = list.drop_last();
        assert(updated.drop_last() =~= less.update(i, changed));
        assert forall|k: int| i < k < less.len() implies (#[trigger] less[k]).name@
            != less[i].name@ by {
            assert(less[k] == list[k]);
        }
        lemma_trim_changed(less, i, changed);
        assert(list.last().name@ != list[i].name@);
        assert(trims_of(updated) =~= trims_of(list).insert(changed.name@, changed.trim_us));
    }
}

/// The entry that a name was last given is the one that counts.
proof fn lemma_trim_found(list: Seq<ServoTrim>, i: int)
    requires
        0 <= i < list.len(),
        forall|k: int| i < k < list.len() ==> (#[trigger] list[k]).name@ != list[i].name@,
    ensures
        trims_of(list).dom().contains(list[i].name@),
        trims_of(list)[list[i].name@] == list[i].trim_us,
    decreases list.len(),
{
    if i < list.len() - 1 {
        let less = list.drop_last();
        assert forall|k: int| i < k < less.len() implies (#[trigger] less[k]).name@
            != less[i].name@ by {
            assert(less[k] == list[k]);
        }
        lemma_trim_found(less, i);
        assert(list.last().name@ != list[i].name@);
    }
}

impl CalibrationStore {
    /// The calibration of a robot with so many motors that was never
    /// calibrated.
    pub fn default_for(n_motors: usize) -> (r: CalibrationStore)
        ensures
            r@ == default_calibration(n_motors as nat),
    {
        let mut motors: Vec<MotorCalibration> = Vec::new();
        while motors.len() < n_motors
            invariant
                motors@.len() <= n_motors,
                forall|i: int| 0 <= i < motors@.len() ==> motors@[i] == default_motor(),
            decreases n_motors - motors@.len(),
        {
            motors.push(MotorCalibration::default());
        }
        let grayscale = [
            GrayscaleCalibration::default(),
            GrayscaleCalibration::default(),
            GrayscaleCalibration::default(),
        ];
        let mut servos: Vec<ServoTrim> = Vec::new();
        servos.push(ServoTrim { name: "steering".to_owned(), trim_us: 0 });
        servos.push(ServoTrim { name: "camera_pan".to_owned(), trim_us: 0 });
        servos.push(ServoTrim { name: "camera_tilt".to_owned(), trim_us: 0 });
        let r = CalibrationStore { motors, grayscale, servos };
        assert(r@.motors =~= default_calibration(n_motors as nat).motors);
        assert(r@.grayscale =~= default_calibration(n_motors as nat).grayscale);
        proof {
            reveal_with_fuel(trims_of, 4);
            let list = r.servos@;
            assert(list.drop_last().last() == list[1]);
            assert(list.drop_last().drop_last().last() == list[0]);
            assert(trims_of(list) =~= default_trims());
        }
        r
    }

    /// Whether a speed factor is within its bounds.
    pub fn valid_speed_scale(v: Real) -> (r: bool)
        ensures
            r == v.within(number::ONE_HALF, number::TWO),
    {
        v.is_within(number::ONE_HALF, number::TWO)
    }

    /// Whether a deadband is within its bounds.
    pub fn valid_deadband_pct(v: Real) -> (r: bool)
        ensures
            r == v.within(number::ZERO, number::TWENTY),
    {
        v.is_within(number::ZERO, number::TWENTY)
    }

    /// Whether white reads lower than black.
    pub fn valid_grayscale(white_raw: u16, black_raw: u16) -> (r: bool)
        ensures
            r == (GrayscaleCalibration { white_raw, black_raw }).valid(),
    {
        white_raw < black_raw
    }

    /// The last entry with a name.
    fn find_servo(&self, name: &str) -> (r: Option<usize>)
        ensures
            match r {
                Some(i) => {
                    &&& i < self.servos@.len()
                    &&& self.servos@[i as int].name@ == name@
                    &&& forall|k: int|
                        i < k < self.servos@.len() ==> (#[trigger] self.servos@[k]).name@ != name@
                },
                None => !self@.trims.dom().contains(name@),
            },
    {
        let mut i: usize = self.servos.len();
        while i > 0
            invariant
                i <= self.servos@.len(),
                forall|k: int|
                    i <= k < self.servos@.len() ==> (#[trigger] self.servos@[k]).name@ != name@,
            decreases i,
        {
            if text::same_text(self.servos[i - 1].name.as_str(), name) {
                return Some(i - 1);
            }
            i = i - 1;
        }
        proof {
            lemma_trims(self.servos@);
        }
        None
    }

    /// The trim of a servo: none, unless one is stored.
    pub fn trim_us(&self, name: &str) -> (r: i16)
        ensures
            r == self@.trim(name@),
    {
        match self.find_servo(name) {
            Some(i) => {
                proof {
                    lemma_trim_found(self.servos@, i as int);
                }
                self.servos[i].trim_us
            },
            None => 0,
        }
    }

    /// Store the trim of a servo.
    pub fn set_trim_us(&mut self, name: &str, trim_us: i16)
        ensures
            final(self)@ == (CalibrationView {
                trims: old(self)@.trims.insert(name@, trim_us),
                ..old(self)@
            }),
    {
        match self.find_servo(name) {
            Some(i) => {
                let changed = ServoTrim { name: name.to_owned(), trim_us };
                proof {
                    lemma_trim_changed(self.servos@, i as int, changed);
                }
                self.servos.set(i, changed);
            },
            None => {
                let ghost before = self.servos@;
                self.servos.push(ServoTrim { name: name.to_owned(), trim_us });
                assert(self.servos@.drop_last() =~= before);
            },
        }
    }

    /// Whether every value is within its bounds.
    pub fn is_valid(&self) -> (r: bool)
        ensures
            r == self@.valid(),
    {
        let mut i: usize = 0;
        while i < self.motors.len()
            invariant
                i <= self.motors@.len(),
                forall|k: int| 0 <= k < i ==> (#[trigger] self.motors@[k]).valid(),
            decreases self.motors@.len() - i,
        {
            if !Self::valid_speed_scale(self.motors[i].speed_scale) || !Self::valid_deadband_pct(
                self.motors[i].deadband_pct,
            ) {
                assert(!self@.motors[i as int].valid());
                return false;
            }
            i = i + 1;
        }
        let mut j: usize = 0;
        while j < 3
            invariant
                j <= 3,
                forall|k: int| 0 <= k < j ==> (#[trigger] self.grayscale@[k]).valid(),
            decreases 3 - j,
        {
            if !Self::valid_grayscale(self.grayscale[j].white_raw, self.grayscale[j].black_raw) {
                assert(!self@.grayscale[j as int].valid());
                return false;
            }
            j = j + 1;
        }
        proof {
            lemma_trims(self.servos@);
        }
        let mut k: usize = 0;
        while k < self.servos.len()
            invariant
                k <= self.servos@.len(),
                forall|h: int|
                    0 <= h < self.servos@.len() ==> self@.trims.dom().contains(
                        (#[trigger] self.servos@[h]).name@,
                    ),
                forall|h: int|
                    0 <= h < k ==> trim_in_range(
                        self@.trims[(#[trigger] self.servos@[h]).name@] as int,
                    ),
            decreases self.servos@.len() - k,
        {
            let trim_us: i16 = self.trim_us(self.servos[k].name.as_str());
            assert(self@.trims.dom().contains(self.servos@[k as int].name@));
            if trim_us < -500 || trim_us > 500 {
                return false;
            }
            k = k + 1;
        }
        true
    }

    /// The calibration to start with: what was loaded, if there is any, every
    /// value of it is within its bounds and it is for so many motors; else the
    /// default.
    pub fn load_or_default(loaded: Option<CalibrationStore>, n_motors: usize) -> (r:
        CalibrationStore)
        ensures
            r@ == starting_calibration(loaded_view(loaded), n_motors as nat),
            r@.valid(),
            r@.motors.len() == n_motors,
    {
        proof {
            law_default_calibration_is_valid(n_motors as nat);
        }
        if let Some(store) = loaded {
            if store.is_valid() && store.motors.len() == n_motors {
                return store;
            }
        }
        Self::default_for(n_motors)
    }
}

// ---------------------------------------------------------------------------
// Laws
// ---------------------------------------------------------------------------

/// The default calibration is within its bounds, for any number of motors.
pub proof fn law_default_calibration_is_valid(motors: nat)
    ensures
        default_calibration(motors).valid(),
        default_calibration(motors).motors.len() == motors,
{
}

/// A normalised reading never falls as the reading rises; white gives 0 and
/// black gives 1.
pub proof fn law_normalized_is_monotone(c: GrayscaleCalibration, a: u16, b: u16)
    requires
        c.valid(),
        a <= b,
    ensures
        normalized_of(c, a).denominator == normalized_of(c, b).denominator,
        normalized_of(c, a).numerator <= normalized_of(c, b).numerator,
        normalized_of(c, b).numerator <= normalized_of(c, b).denominator,
        normalized_of(c, c.white_raw).numerator == 0,
        normalized_of(c, c.black_raw).numerator == normalized_of(c, c.black_raw).denominator,
{
}

/// A servo is found under its own name, and under no other.
pub proof fn law_servo_names(servo: ServoName, name: Seq<char>)
    ensures
        servo_named(servo.name_of()) == Some(servo),
        servo_named(name) == Some(servo) ==> name == servo.name_of(),
{
    reveal_strlit("steering");
    reveal_strlit("camera_pan");
    reveal_strlit("camera_tilt");
    assert("steering"@.len() == 8 && "camera_pan"@.len() == 10 && "camera_tilt"@.len() == 11);
}

/// A trim reads back as it was stored, and no other servo's trim changes.
pub proof fn law_trim_reads_back(
    c: CalibrationView,
    name: Seq<char>,
    trim_us: i16,
    other: Seq<char>,
)
    requires
        other != name,
    ensures
        (CalibrationView { trims: c.trims.insert(name, trim_us), ..c }).trim(name) == trim_us,
        (CalibrationView { trims: c.trims.insert(name, trim_us), ..c }).trim(other) == c.trim(
            other,
        ),
{
}

/// What was never calibrated: every motor runs at the speed that it is given, without
/// a deadband and not reversed; every sensor reads 100 over white and 3000 over black;
/// and the three named servos, and no others, have a trim, which is 0.
pub proof fn law_the_default_adjusts_nothing(motors: nat, i: int, name: Seq<char>)
    ensures
        ({
            let d = default_calibration(motors);
            &&& d.motors.len() == motors
            &&& 0 <= i < motors ==> d.motors[i].speed_scale.bits == number::ONE
                && d.motors[i].deadband_pct.bits == number::ZERO && !d.motors[i].reversed
            &&& d.grayscale.len() == 3
            &&& 0 <= i < 3 ==> d.grayscale[i].white_raw == 100 && d.grayscale[i].black_raw == 3000
            &&& d.trims.dom().contains(name) <==> name == "steering"@ || name == "camera_pan"@
                || name == "camera_tilt"@
            &&& d.trim(name) == 0
        }),
{
}

/// A reading between white and black is normalised in proportion: what it is above
/// white, to the whole of what black is above white. Below white it is 0, above black
/// it is 1.
pub proof fn law_normalized_is_in_proportion(c: GrayscaleCalibration, raw: u16)
    requires
        c.valid(),
    ensures
        ({
            let f = normalized_of(c, raw);
            &&& f.denominator == c.black_raw - c.white_raw
            &&& f.denominator > 0
            &&& c.white_raw <= raw <= c.black_raw ==> f.numerator == raw - c.white_raw
            &&& raw < c.white_raw ==> f.numerator == 0
            &&& raw > c.black_raw ==> f.numerator == f.denominator
        }),
{
}

/// A trim moves a pulse by just so much, as far as 500 to 2500 allow; past them it
/// stays at the bound on that side.
pub proof fn law_a_trim_moves_the_pulse(pulse_us: u16, trim_us: i16)
    ensures
        500 <= pulse_us + trim_us <= 2500 ==> trimmed(pulse_us, trim_us) == pulse_us + trim_us,
        pulse_us + trim_us < 500 ==> trimmed(pulse_us, trim_us) == 500,
        pulse_us + trim_us > 2500 ==> trimmed(pulse_us, trim_us) == 2500,
{
}

/// A list of trims holds each under its name, and no others.
pub proof fn law_trims_stand_under_their_names(list: Seq<ServoTrim>, name: Seq<char>)
    requires
        forall|i: int, j: int|
            0 <= i < list.len() && 0 <= j < list.len() && i != j ==> (#[trigger] list[i]).name@
                != (#[trigger] list[j]).name@,
    ensures
        forall|i: int|
            0 <= i < list.len() ==> trims_of(list).dom().contains((#[trigger] list[i]).name@)
                && trims_of(list)[list[i].name@] == list[i].trim_us,
        trims_of(list).dom().contains(name) ==> exists|i: int|
            0 <= i < list.len() && (#[trigger] list[i]).name@ == name,
{
    lemma_trims(list);
    assert forall|i: int| 0 <= i < list.len() implies trims_of(list).dom().contains(
        (#[trigger] list[i]).name@,
    ) && trims_of(list)[list[i].name@] == list[i].trim_us by {
        assert forall|k: int| i < k < list.len() implies (#[trigger] list[k]).name@
            != list[i].name@ by {}
        lemma_trim_found(list, i);
    }
}

/// The calibration to start with is the one that was loaded, if it is within its
/// bounds and for as many motors as there are; it is the default in every other case.
pub proof fn law_what_is_loaded_is_used_if_it_can_be(loaded: CalibrationView, motors: nat)
    ensures
        loaded.valid() && loaded.motors.len() == motors ==> starting_calibration(
            Some(loaded),
            motors,
        ) == loaded,
        !loaded.valid() || loaded.motors.len() != motors ==> starting_calibration(
            Some(loaded),
            motors,
        ) == default_calibration(motors),
        starting_calibration(None, motors) == default_calibration(motors),
{
}

/// A calibration is valid exactly if every speed factor is from 0.5 to 2, every
/// deadband from 0 to 20, every sensor reads lower over white than over black, and
/// every trim is from -500 to 500.
pub proof fn law_what_calibration_is_valid(c: CalibrationView)
    requires
        c.grayscale.len() == 3,
    ensures
        c.valid() <==> {
            &&& forall|i: int|
                0 <= i < c.motors.len() ==> (#[trigger] c.motors[i]).speed_scale.within(
                    number::ONE_HALF,
                    number::TWO,
                ) && c.motors[i].deadband_pct.within(number::ZERO, number::TWENTY)
            &&& c.grayscale[0].white_raw < c.grayscale[0].black_raw
            &&& c.grayscale[1].white_raw < c.grayscale[1].black_raw
            &&& c.grayscale[2].white_raw < c.grayscale[2].black_raw
            &&& forall|name: Seq<char>| #[trigger]
                c.trims.dom().contains(name) ==> -500 <= c.trims[name] <= 500
        },
{
    if c.valid() {
        assert(c.grayscale[0].valid() && c.grayscale[1].valid() && c.grayscale[2].valid());
        assert forall|i: int| 0 <= i < c.motors.len() implies (
        #[trigger] c.motors[i]).speed_scale.within(number::ONE_HALF, number::TWO)
            && c.motors[i].deadband_pct.within(number::ZERO, number::TWENTY) by {
            assert(c.motors[i].valid());
        }
    }
}

} // verus!
