//! What each method promises, from the request to the job or the answer.

use vstd::prelude::*;
use vstd::string::*;

use crate::calibration::ServoName;
use crate::config;
use crate::hat::gpio;
use crate::hat::gpio::GpioPin;
use crate::hat::lease;
use crate::hat::lease::{LeaseStatus, Leases};
use crate::ipc::handler;
use crate::ipc::params;
use crate::ipc::params::ParamsView;
use crate::ipc::plan;
use crate::ipc::plan::{Job, StepView};
use crate::ipc::schema::{ReplyView, RequestView, Surface};
use crate::ipc::state::HandlerView;
use crate::number;
use crate::text;

verus! {

/// The request is answered with a refusal of its parameters.
pub open spec fn refused(step: StepView, id: Seq<char>) -> bool {
    step matches StepView::Answer(r) && r.id == id && (r.outcome matches Err(f) && f.code
        == "INVALID_PARAMS"@)
}

/// The request is answered with a refusal that says just this.
pub open spec fn refused_for(step: StepView, id: Seq<char>, message: Seq<char>) -> bool {
    step matches StepView::Answer(r) && r.id == id && (r.outcome matches Err(f) && f.code
        == "INVALID_PARAMS"@ && f.message == message)
}

/// There is a pin of this name.
pub open spec fn is_pin(name: Option<Seq<char>>) -> bool {
    name == Some("D2"@) || name == Some("D3"@) || name == Some("D4"@) || name == Some("D5"@) || name
        == Some("MCURST"@) || name == Some("SW"@) || name == Some("LED"@) || name == Some(
        "SPEAKER_EN"@,
    )
}

/// The request has this job done first.
pub open spec fn acts(step: StepView, id: Seq<char>, job: Job) -> bool {
    step == (StepView::Act { id, job })
}

/// The request asks for no time to live, or for one from 100 to 5000 ms.
pub open spec fn ttl_fine(params: ParamsView) -> bool {
    params.dom().contains("ttl_ms"@) && !(params["ttl_ms"@] is Null) ==> {
        let asked = params::unsigned_at(params, "ttl_ms"@);
        asked is Some && 100 <= asked->0 <= 5000
    }
}

/// The time to live is the one that the request asks for; where it asks for none, it is
/// the default, or the nearest to that from 100 to 5000 ms.
pub open spec fn ttl_granted(params: ParamsView, default_ttl_ms: u64, ttl_ms: u64) -> bool {
    if params.dom().contains("ttl_ms"@) && !(params["ttl_ms"@] is Null) {
        params::unsigned_at(params, "ttl_ms"@) == Some(ttl_ms)
    } else {
        &&& 100 <= default_ttl_ms <= 5000 ==> ttl_ms == default_ttl_ms
        &&& default_ttl_ms < 100 ==> ttl_ms == 100
        &&& default_ttl_ms > 5000 ==> ttl_ms == 5000
    }
}

/// A list shows every lease, with its channel, its holder and the time that it has left,
/// and nothing else.
pub open spec fn shows_leases(list: Seq<LeaseStatus>, leases: Leases, now_ms: u64) -> bool {
    &&& forall|i: int|
        0 <= i < list.len() ==> {
            let s = #[trigger] list[i];
            &&& leases.dom().contains(s.channel)
            &&& s.conn_id == leases[s.channel].conn_id
            &&& now_ms <= leases[s.channel].expires_at_ms ==> now_ms + s.ttl_remaining_ms
                == leases[s.channel].expires_at_ms
            &&& now_ms > leases[s.channel].expires_at_ms ==> s.ttl_remaining_ms == 0
        }
    &&& forall|ch: u8| #[trigger]
        leases.dom().contains(ch) ==> exists|i: int|
            0 <= i < list.len() && #[trigger] list[i].channel == ch
    &&& forall|i: int, j: int|
        0 <= i < j < list.len() ==> (#[trigger] list[i]).channel != (#[trigger] list[j]).channel
}

proof fn lemma_shows_leases(leases: Leases, now_ms: u64)
    ensures
        shows_leases(lease::listed(leases, now_ms), leases, now_ms),
{
    lease::law_every_lease_is_listed(leases, now_ms);
}

// ---------------------------------------------------------------------------
// Laws
// ---------------------------------------------------------------------------

/// `health` answers with the state of the daemon: its version, the address and the bus of the
/// board, and for how many whole seconds it has been up.
pub proof fn law_health(
    h: HandlerView,
    req: RequestView,
    conn_id: u64,
    now_ms: u64,
)
    requires
        req.method == "health"@,
    ensures
        ({
            let (after, step) = handler::dispatched(h, req, conn_id, now_ms);
            &&& after == h
            &&& step matches StepView::Answer(r) && r.id == req.id && (r.outcome matches Ok(
                ReplyView::Health {
                    schema_version,
                    status,
                    version,
                    hat_address,
                    i2c_bus,
                    uptime_s,
                },
            ) && schema_version == "1.0.0"@ && status == "ok"@ && version == h.version
                && config::address_of(hat_address) == Some(h.config.hat_address as int)
                && hat_address.len() == 4 && i2c_bus == h.config.i2c_bus && uptime_s * 1000
                <= now_ms < uptime_s * 1000 + 1000)
        }),
{
    lemma_health(h, req, conn_id, now_ms);
    config::law_address_in_either_form(h.config.hat_address);
}

/// `get_battery_voltage` reads the battery.
pub proof fn law_get_battery_voltage(
    h: HandlerView,
    req: RequestView,
    conn_id: u64,
    now_ms: u64,
)
    requires
        req.method == "get_battery_voltage"@,
    ensures
        ({
            let (after, step) = handler::dispatched(h, req, conn_id, now_ms);
            &&& after == h
            &&& acts(step, req.id, Job::ReadBatteryVoltage)
        }),
{
    lemma_get_battery_voltage(h, req, conn_id, now_ms);
}

/// `read_adc` reads the channel that the request names, and refuses one above 7 or none.
pub proof fn law_read_adc(
    h: HandlerView,
    req: RequestView,
    conn_id: u64,
    now_ms: u64,
)
    requires
        req.method == "read_adc"@,
    ensures
        ({
            let (after, step) = handler::dispatched(h, req, conn_id, now_ms);
            let channel = params::unsigned_at(req.params, "channel"@);
            &&& after == h
            &&& channel is Some && channel->0 <= 7 ==> acts(
                step,
                req.id,
                Job::ReadAdc { channel: channel->0 as u8 },
            )
            &&& !(channel is Some && channel->0 <= 7) ==> refused_for(
                step,
                req.id,
                "channel is required and must be 0–7"@,
            )
        }),
{
    lemma_read_adc(h, req, conn_id, now_ms);
}

/// `read_gpio` reads the pin of the name that the request gives, and refuses a name that is none
/// of a pin's.
pub proof fn law_read_gpio(
    h: HandlerView,
    req: RequestView,
    conn_id: u64,
    now_ms: u64,
)
    requires
        req.method == "read_gpio"@,
    ensures
        ({
            let (after, step) = handler::dispatched(h, req, conn_id, now_ms);
            let name = params::text_at(req.params, "pin"@);
            &&& after == h
            &&& name == Some("D2"@) ==> acts(step, req.id, Job::ReadGpio { pin: GpioPin::D2 })
            &&& name == Some("D3"@) ==> acts(step, req.id, Job::ReadGpio { pin: GpioPin::D3 })
            &&& name == Some("D4"@) ==> acts(step, req.id, Job::ReadGpio { pin: GpioPin::D4 })
            &&& name == Some("D5"@) ==> acts(step, req.id, Job::ReadGpio { pin: GpioPin::D5 })
            &&& name == Some("MCURST"@) ==> acts(
                step,
                req.id,
                Job::ReadGpio { pin: GpioPin::McuRst },
            )
            &&& name == Some("SW"@) ==> acts(step, req.id, Job::ReadGpio { pin: GpioPin::Sw })
            &&& name == Some("LED"@) ==> acts(step, req.id, Job::ReadGpio { pin: GpioPin::Led })
            &&& name == Some("SPEAKER_EN"@) ==> acts(
                step,
                req.id,
                Job::ReadGpio { pin: GpioPin::SpeakerEn },
            )
            &&& !is_pin(name) ==> refused(step, req.id)
            &&& name is None ==> refused_for(step, req.id, "pin is required"@)
            &&& name is Some && !is_pin(name) ==> refused_for(
                step,
                req.id,
                "unknown pin '"@ + name->0
                    + "'; valid: D2, D3, D4, D5, MCURST, SW, LED, SPEAKER_EN"@,
            )
        }),
{
    lemma_read_gpio(h, req, conn_id, now_ms);
    lemma_pin_literals();
}

/// `write_gpio` drives the pin of the name that the request gives to the level that it gives, and
/// refuses a request without either.
pub proof fn law_write_gpio(
    h: HandlerView,
    req: RequestView,
    conn_id: u64,
    now_ms: u64,
)
    requires
        req.method == "write_gpio"@,
    ensures
        ({
            let (after, step) = handler::dispatched(h, req, conn_id, now_ms);
            let name = params::text_at(req.params, "pin"@);
            let high = params::bool_at(req.params, "high"@);
            &&& after == h
            &&& high is Some && name == Some("D2"@) ==> acts(
                step,
                req.id,
                Job::WriteGpio { pin: GpioPin::D2, high: high->0 },
            )
            &&& high is Some && name == Some("D3"@) ==> acts(
                step,
                req.id,
                Job::WriteGpio { pin: GpioPin::D3, high: high->0 },
            )
            &&& high is Some && name == Some("D4"@) ==> acts(
                step,
                req.id,
                Job::WriteGpio { pin: GpioPin::D4, high: high->0 },
            )
            &&& high is Some && name == Some("D5"@) ==> acts(
                step,
                req.id,
                Job::WriteGpio { pin: GpioPin::D5, high: high->0 },
            )
            &&& high is Some && name == Some("MCURST"@) ==> acts(
                step,
                req.id,
                Job::WriteGpio { pin: GpioPin::McuRst, high: high->0 },
            )
            &&& high is Some && name == Some("SW"@) ==> acts(
                step,
                req.id,
                Job::WriteGpio { pin: GpioPin::Sw, high: high->0 },
            )
            &&& high is Some && name == Some("LED"@) ==> acts(
                step,
                req.id,
                Job::WriteGpio { pin: GpioPin::Led, high: high->0 },
            )
            &&& high is Some && name == Some("SPEAKER_EN"@) ==> acts(
                step,
                req.id,
                Job::WriteGpio { pin: GpioPin::SpeakerEn, high: high->0 },
            )
            &&& high is None ==> refused(step, req.id)
            &&& !is_pin(name) ==> refused(step, req.id)
            &&& name is None ==> refused_for(step, req.id, "pin is required"@)
            &&& name is Some && !is_pin(name) ==> refused_for(
                step,
                req.id,
                "unknown pin '"@ + name->0
                    + "'; valid output pins: D2, D4, D5, MCURST, LED, SPEAKER_EN"@,
            )
            &&& name is Some && is_pin(name) && high is None ==> refused_for(
                step,
                req.id,
                "high is required and must be a boolean"@,
            )
        }),
{
    lemma_write_gpio(h, req, conn_id, now_ms);
    lemma_pin_literals();
}

/// `reset_mcu` resets the microcontroller, unless it was reset within the last second; the refusal
/// then says for how many milliseconds yet.
pub proof fn law_reset_mcu(
    h: HandlerView,
    req: RequestView,
    conn_id: u64,
    now_ms: u64,
)
    requires
        req.method == "reset_mcu"@,
    ensures
        ({
            let (after, step) = handler::dispatched(h, req, conn_id, now_ms);
            &&& after == h
            &&& h.mcu.last_reset_at_ms is None ==> acts(
                step,
                req.id,
                Job::ResetMcu { requested_at_ms: now_ms },
            )
            &&& h.mcu.last_reset_at_ms matches Some(last) ==> {
                &&& now_ms >= last + 1000 ==> acts(
                    step,
                    req.id,
                    Job::ResetMcu { requested_at_ms: now_ms },
                )
                &&& last <= now_ms < last + 1000 ==> (step matches StepView::Answer(r) && r.id
                    == req.id && (r.outcome matches Err(f) && f.code == "HARDWARE_ERROR"@
                    && f.message == "MCU reset rate-limited; retry after "@ + text::decimal_of(
                    (last + 1000 - now_ms) as nat,
                ) + " ms"@))
                &&& now_ms < last ==> (step matches StepView::Answer(r) && r.outcome is Err)
            }
        }),
{
    lemma_reset_mcu(h, req, conn_id, now_ms);
}

/// `get_mcu_status` answers how often the microcontroller was reset, and how many whole seconds ago
/// the last time was.
pub proof fn law_get_mcu_status(
    h: HandlerView,
    req: RequestView,
    conn_id: u64,
    now_ms: u64,
)
    requires
        req.method == "get_mcu_status"@,
    ensures
        ({
            let (after, step) = handler::dispatched(h, req, conn_id, now_ms);
            &&& after == h
            &&& step matches StepView::Answer(r) && r.id == req.id && (r.outcome matches Ok(
                ReplyView::McuStatus { resets_since_start, last_reset_s_ago },
            ) && resets_since_start == h.mcu.reset_count && (last_reset_s_ago is None
                <==> h.mcu.last_reset_at_ms is None) && (h.mcu.last_reset_at_ms matches Some(
                last,
            ) ==> last <= now_ms ==> last_reset_s_ago->0 * 1000 <= now_ms - last
                < last_reset_s_ago->0 * 1000 + 1000))
        }),
{
    lemma_get_mcu_status(h, req, conn_id, now_ms);
}

/// `set_servo_pulse_us` gives the channel that the request names the pulse width that it names, for
/// the connection and for the time to live that it asks for; a channel above 11, a width outside
/// 500 to 2500 and a time that cannot be granted are refused.
pub proof fn law_set_servo_pulse_us(
    h: HandlerView,
    req: RequestView,
    conn_id: u64,
    now_ms: u64,
)
    requires
        req.method == "set_servo_pulse_us"@,
    ensures
        ({
            let (after, step) = handler::dispatched(h, req, conn_id, now_ms);
            let channel = params::unsigned_at(req.params, "channel"@);
            let pulse = params::unsigned_at(req.params, "pulse_us"@);
            let accepted = channel is Some && channel->0 <= 11 && pulse is Some && 500 <= pulse->0
                <= 2500 && ttl_fine(req.params);
            &&& after == h
            &&& accepted ==> (step matches StepView::Act {
                id,
                job: Job::SetServoPulse { channel: ch, pulse_us, conn_id: c, ttl_ms },
            } && id == req.id && ch == channel->0 && pulse_us == pulse->0 && c == conn_id
                && ttl_granted(req.params, h.config.servo_default_ttl_ms, ttl_ms))
            &&& !accepted ==> refused(step, req.id)
            &&& !(channel is Some && channel->0 <= 11) ==> refused_for(
                step,
                req.id,
                "channel is required and must be 0–11"@,
            )
            &&& channel is Some && channel->0 <= 11 && !(pulse is Some && 500 <= pulse->0 <= 2500)
                ==> refused_for(step, req.id, "pulse_us is required and must be 500–2500"@)
            &&& channel is Some && channel->0 <= 11 && pulse is Some && 500 <= pulse->0 <= 2500
                && !accepted ==> refused_for(step, req.id, "ttl_ms must be an integer 100–5000"@)
        }),
{
    lemma_set_servo_pulse_us(h, req, conn_id, now_ms);
}

/// `set_servo_angle` gives the channel that the request names the angle that it names, for the
/// connection and for the time to live that it asks for; a channel above 11, an angle outside 0 to
/// 180 and a time that cannot be granted are refused.
pub proof fn law_set_servo_angle(
    h: HandlerView,
    req: RequestView,
    conn_id: u64,
    now_ms: u64,
)
    requires
        req.method == "set_servo_angle"@,
    ensures
        ({
            let (after, step) = handler::dispatched(h, req, conn_id, now_ms);
            let channel = params::unsigned_at(req.params, "channel"@);
            let angle = params::number_at(req.params, "angle_deg"@);
            let accepted = channel is Some && channel->0 <= 11 && angle is Some
                && angle->0.value.within(number::ZERO, number::HUNDRED_EIGHTY) && ttl_fine(
                req.params,
            );
            &&& after == h
            &&& accepted ==> (step matches StepView::Act {
                id,
                job: Job::SetServoAngle { channel: ch, angle_deg, conn_id: c, ttl_ms },
            } && id == req.id && ch == channel->0 && angle_deg == angle->0.value && c == conn_id
                && ttl_granted(req.params, h.config.servo_default_ttl_ms, ttl_ms))
            &&& !accepted ==> refused(step, req.id)
            &&& !(channel is Some && channel->0 <= 11) ==> refused_for(
                step,
                req.id,
                "channel is required and must be 0–11"@,
            )
            &&& channel is Some && channel->0 <= 11 && !(angle is Some && angle->0.value.within(
                number::ZERO,
                number::HUNDRED_EIGHTY,
            )) ==> refused_for(step, req.id, "angle_deg is required and must be 0.0–180.0"@)
            &&& channel is Some && channel->0 <= 11 && angle is Some && angle->0.value.within(
                number::ZERO,
                number::HUNDRED_EIGHTY,
            ) && !accepted ==> refused_for(step, req.id, "ttl_ms must be an integer 100–5000"@)
        }),
{
    lemma_set_servo_angle(h, req, conn_id, now_ms);
}

/// `get_servo_status` lists the leases, each with its channel, its holder and the time that it has
/// left, and no others.
pub proof fn law_get_servo_status(
    h: HandlerView,
    req: RequestView,
    conn_id: u64,
    now_ms: u64,
)
    requires
        req.method == "get_servo_status"@,
    ensures
        ({
            let (after, step) = handler::dispatched(h, req, conn_id, now_ms);
            &&& after == h
            &&& step matches StepView::Answer(r) && r.id == req.id && (r.outcome matches Ok(
                ReplyView::ActiveLeases { active_leases },
            ) && shows_leases(active_leases, h.leases, now_ms))
        }),
{
    lemma_get_servo_status(h, req, conn_id, now_ms);
    lemma_shows_leases(h.leases, now_ms);
    let list = lease::listed(h.leases, now_ms);
    assert(handler::dispatched(h, req, conn_id, now_ms).1 == plan::answer(
        req,
        ReplyView::ActiveLeases { active_leases: list },
    ));
}

/// `steer` gives the servo of that purpose the angle that the request names, on the
/// channel that is configured for it and with its own trim; it is refused where no channel is
/// configured, and for an angle outside 0 to 180.
pub proof fn law_steer(
    h: HandlerView,
    req: RequestView,
    conn_id: u64,
    now_ms: u64,
)
    requires
        req.method == "steer"@,
    ensures
        ({
            let (after, step) = handler::dispatched(h, req, conn_id, now_ms);
            let channel = h.config.servos.steering;
            let angle = params::number_at(req.params, "angle_deg"@);
            let accepted = channel is Some && angle is Some && angle->0.value.within(
                number::ZERO,
                number::HUNDRED_EIGHTY,
            ) && ttl_fine(req.params);
            &&& after == h
            &&& accepted ==> (step matches StepView::Act {
                id,
                job: Job::SetNamedServo {
                    servo,
                    channel: ch,
                    angle_deg,
                    trim_us,
                    conn_id: c,
                    ttl_ms,
                },
            } && id == req.id && servo == ServoName::Steering && ch == channel->0 && angle_deg
                == angle->0.value && c == conn_id && ttl_granted(
                req.params,
                h.config.servo_default_ttl_ms,
                ttl_ms,
            ) && (h.calibration.trims.dom().contains("steering"@) ==> trim_us
                == h.calibration.trims["steering"@]) && (!h.calibration.trims.dom().contains(
                "steering"@,
            ) ==> trim_us == 0))
            &&& !accepted ==> refused(step, req.id)
            &&& channel is None ==> refused_for(
                step,
                req.id,
                "steering"@ + " servo is not configured"@,
            )
            &&& channel is Some && !(angle is Some && angle->0.value.within(
                number::ZERO,
                number::HUNDRED_EIGHTY,
            )) ==> refused_for(step, req.id, "angle_deg is required and must be 0.0–180.0"@)
            &&& channel is Some && angle is Some && angle->0.value.within(
                number::ZERO,
                number::HUNDRED_EIGHTY,
            ) && !accepted ==> refused_for(step, req.id, "ttl_ms must be an integer 100–5000"@)
        }),
{
    lemma_steer(h, req, conn_id, now_ms);
}

/// `pan_camera` gives the servo of that purpose the angle that the request names, on the
/// channel that is configured for it and with its own trim; it is refused where no channel is
/// configured, and for an angle outside 0 to 180.
pub proof fn law_pan_camera(
    h: HandlerView,
    req: RequestView,
    conn_id: u64,
    now_ms: u64,
)
    requires
        req.method == "pan_camera"@,
    ensures
        ({
            let (after, step) = handler::dispatched(h, req, conn_id, now_ms);
            let channel = h.config.servos.camera_pan;
            let angle = params::number_at(req.params, "angle_deg"@);
            let accepted = channel is Some && angle is Some && angle->0.value.within(
                number::ZERO,
                number::HUNDRED_EIGHTY,
            ) && ttl_fine(req.params);
            &&& after == h
            &&& accepted ==> (step matches StepView::Act {
                id,
                job: Job::SetNamedServo {
                    servo,
                    channel: ch,
                    angle_deg,
                    trim_us,
                    conn_id: c,
                    ttl_ms,
                },
            } && id == req.id && servo == ServoName::CameraPan && ch == channel->0 && angle_deg
                == angle->0.value && c == conn_id && ttl_granted(
                req.params,
                h.config.servo_default_ttl_ms,
                ttl_ms,
            ) && (h.calibration.trims.dom().contains("camera_pan"@) ==> trim_us
                == h.calibration.trims["camera_pan"@]) && (!h.calibration.trims.dom().contains(
                "camera_pan"@,
            ) ==> trim_us == 0))
            &&& !accepted ==> refused(step, req.id)
            &&& channel is None ==> refused_for(
                step,
                req.id,
                "camera_pan"@ + " servo is not configured"@,
            )
            &&& channel is Some && !(angle is Some && angle->0.value.within(
                number::ZERO,
                number::HUNDRED_EIGHTY,
            )) ==> refused_for(step, req.id, "angle_deg is required and must be 0.0–180.0"@)
            &&& channel is Some && angle is Some && angle->0.value.within(
                number::ZERO,
                number::HUNDRED_EIGHTY,
            ) && !accepted ==> refused_for(step, req.id, "ttl_ms must be an integer 100–5000"@)
        }),
{
    lemma_pan_camera(h, req, conn_id, now_ms);
}

/// `tilt_camera` gives the servo of that purpose the angle that the request names, on the
/// channel that is configured for it and with its own trim; it is refused where no channel is
/// configured, and for an angle outside 0 to 180.
pub proof fn law_tilt_camera(
    h: HandlerView,
    req: RequestView,
    conn_id: u64,
    now_ms: u64,
)
    requires
        req.method == "tilt_camera"@,
    ensures
        ({
            let (after, step) = handler::dispatched(h, req, conn_id, now_ms);
            let channel = h.config.servos.camera_tilt;
            let angle = params::number_at(req.params, "angle_deg"@);
            let accepted = channel is Some && angle is Some && angle->0.value.within(
                number::ZERO,
                number::HUNDRED_EIGHTY,
            ) && ttl_fine(req.params);
            &&& after == h
            &&& accepted ==> (step matches StepView::Act {
                id,
                job: Job::SetNamedServo {
                    servo,
                    channel: ch,
                    angle_deg,
                    trim_us,
                    conn_id: c,
                    ttl_ms,
                },
            } && id == req.id && servo == ServoName::CameraTilt && ch == channel->0 && angle_deg
                == angle->0.value && c == conn_id && ttl_granted(
                req.params,
                h.config.servo_default_ttl_ms,
                ttl_ms,
            ) && (h.calibration.trims.dom().contains("camera_tilt"@) ==> trim_us
                == h.calibration.trims["camera_tilt"@]) && (!h.calibration.trims.dom().contains(
                "camera_tilt"@,
            ) ==> trim_us == 0))
            &&& !accepted ==> refused(step, req.id)
            &&& channel is None ==> refused_for(
                step,
                req.id,
                "camera_tilt"@ + " servo is not configured"@,
            )
            &&& channel is Some && !(angle is Some && angle->0.value.within(
                number::ZERO,
                number::HUNDRED_EIGHTY,
            )) ==> refused_for(step, req.id, "angle_deg is required and must be 0.0–180.0"@)
            &&& channel is Some && angle is Some && angle->0.value.within(
                number::ZERO,
                number::HUNDRED_EIGHTY,
            ) && !accepted ==> refused_for(step, req.id, "ttl_ms must be an integer 100–5000"@)
        }),
{
    lemma_tilt_camera(h, req, conn_id, now_ms);
}

/// `set_motor_speed` gives the motor that the request names the speed that it names, for the
/// connection and for the time to live that it asks for; a motor that is not configured, a speed
/// outside -100 to 100 and a time that cannot be granted are refused.
pub proof fn law_set_motor_speed(
    h: HandlerView,
    req: RequestView,
    conn_id: u64,
    now_ms: u64,
)
    requires
        req.method == "set_motor_speed"@,
        h.wf(),
    ensures
        ({
            let (after, step) = handler::dispatched(h, req, conn_id, now_ms);
            let channel = params::unsigned_at(req.params, "channel"@);
            let speed = params::number_at(req.params, "speed_pct"@);
            let accepted = channel is Some && channel->0 < h.config.motors.len() && speed is Some
                && speed->0.value.within(number::MINUS_HUNDRED, number::HUNDRED) && ttl_fine(
                req.params,
            );
            &&& after == h
            &&& accepted ==> (step matches StepView::Act {
                id,
                job: Job::SetMotorSpeed { channel: ch, speed_pct, conn_id: c, ttl_ms },
            } && id == req.id && ch == channel->0 && speed_pct == speed->0.value && c == conn_id
                && ttl_granted(req.params, h.config.motor_default_ttl_ms, ttl_ms))
            &&& !accepted ==> refused(step, req.id)
            &&& channel is None ==> refused_for(step, req.id, "channel is required"@)
            &&& channel is Some && channel->0 >= h.config.motors.len() ==> refused_for(
                step,
                req.id,
                "channel "@ + text::decimal_of(channel->0 as nat) + " is not configured; "@
                    + text::decimal_of(h.config.motors.len()) + " motor(s) available"@,
            )
            &&& channel is Some && channel->0 < h.config.motors.len() && speed is None
                ==> refused_for(step, req.id, "speed_pct is required"@)
            &&& channel is Some && channel->0 < h.config.motors.len() && speed is Some
                && !speed->0.value.within(number::MINUS_HUNDRED, number::HUNDRED) ==> refused_for(
                step,
                req.id,
                "speed_pct "@ + speed->0.text + " is out of range -100.0..=100.0"@,
            )
            &&& channel is Some && channel->0 < h.config.motors.len() && speed is Some
                && speed->0.value.within(number::MINUS_HUNDRED, number::HUNDRED) && !accepted
                ==> refused_for(step, req.id, "ttl_ms must be an integer 100–5000"@)
        }),
{
    lemma_set_motor_speed(h, req, conn_id, now_ms);
}

/// `stop_all_motors` stops the motors.
pub proof fn law_stop_all_motors(
    h: HandlerView,
    req: RequestView,
    conn_id: u64,
    now_ms: u64,
)
    requires
        req.method == "stop_all_motors"@,
    ensures
        ({
            let (after, step) = handler::dispatched(h, req, conn_id, now_ms);
            &&& after == h
            &&& acts(step, req.id, Job::StopAllMotors)
        }),
{
    lemma_stop_all_motors(h, req, conn_id, now_ms);
}

/// `get_motor_status` lists the leases, each with its channel, its holder and the time that it has
/// left, and no others.
pub proof fn law_get_motor_status(
    h: HandlerView,
    req: RequestView,
    conn_id: u64,
    now_ms: u64,
)
    requires
        req.method == "get_motor_status"@,
    ensures
        ({
            let (after, step) = handler::dispatched(h, req, conn_id, now_ms);
            &&& after == h
            &&& step matches StepView::Answer(r) && r.id == req.id && (r.outcome matches Ok(
                ReplyView::ActiveLeases { active_leases },
            ) && shows_leases(active_leases, h.motor_leases, now_ms))
        }),
{
    lemma_get_motor_status(h, req, conn_id, now_ms);
    lemma_shows_leases(h.motor_leases, now_ms);
    let list = lease::listed(h.motor_leases, now_ms);
    assert(handler::dispatched(h, req, conn_id, now_ms).1 == plan::answer(
        req,
        ReplyView::ActiveLeases { active_leases: list },
    ));
}

/// `drive` gives all motors the speed that the request names, for the connection and for the time
/// to live that it asks for; without motors, for a speed outside -100 to 100 and for a time that
/// cannot be granted it is refused.
pub proof fn law_drive(
    h: HandlerView,
    req: RequestView,
    conn_id: u64,
    now_ms: u64,
)
    requires
        req.method == "drive"@,
    ensures
        ({
            let (after, step) = handler::dispatched(h, req, conn_id, now_ms);
            let speed = params::number_at(req.params, "speed_pct"@);
            let accepted = h.config.motors.len() > 0 && speed is Some && speed->0.value.within(
                number::MINUS_HUNDRED,
                number::HUNDRED,
            ) && ttl_fine(req.params);
            &&& after == h
            &&& accepted ==> (step matches StepView::Act {
                id,
                job: Job::Drive { speed_pct, conn_id: c, ttl_ms },
            } && id == req.id && speed_pct == speed->0.value && c == conn_id && ttl_granted(
                req.params,
                h.config.motor_default_ttl_ms,
                ttl_ms,
            ))
            &&& !accepted ==> refused(step, req.id)
            &&& !(speed is Some && speed->0.value.within(number::MINUS_HUNDRED, number::HUNDRED))
                ==> refused_for(step, req.id, "speed_pct is required and must be -100.0–100.0"@)
            &&& speed is Some && speed->0.value.within(number::MINUS_HUNDRED, number::HUNDRED)
                && !ttl_fine(req.params) ==> refused_for(step, req.id, "ttl_ms must be an integer 100–5000"@)
            &&& speed is Some && speed->0.value.within(number::MINUS_HUNDRED, number::HUNDRED)
                && ttl_fine(req.params) && h.config.motors.len() == 0 ==> refused_for(
                step,
                req.id,
                "no motors configured"@,
            )
        }),
{
    lemma_drive(h, req, conn_id, now_ms);
}

/// `read_grayscale` reads the sensors.
pub proof fn law_read_grayscale(
    h: HandlerView,
    req: RequestView,
    conn_id: u64,
    now_ms: u64,
)
    requires
        req.method == "read_grayscale"@,
    ensures
        ({
            let (after, step) = handler::dispatched(h, req, conn_id, now_ms);
            &&& after == h
            &&& acts(step, req.id, Job::ReadGrayscale)
        }),
{
    lemma_read_grayscale(h, req, conn_id, now_ms);
}

/// `read_ultrasonic` measures with the trigger pin, the echo pin and the timeout that are
/// configured.
pub proof fn law_read_ultrasonic(
    h: HandlerView,
    req: RequestView,
    conn_id: u64,
    now_ms: u64,
)
    requires
        req.method == "read_ultrasonic"@,
    ensures
        ({
            let (after, step) = handler::dispatched(h, req, conn_id, now_ms);
            &&& after == h
            &&& step matches StepView::Act {
                id,
                job: Job::ReadUltrasonic { trig_pin_bcm, echo_pin_bcm, timeout_ms },
            } && id == req.id && trig_pin_bcm == h.config.ultrasonic.trig_pin_bcm && echo_pin_bcm
                == h.config.ultrasonic.echo_pin_bcm && timeout_ms
                == h.config.ultrasonic.timeout_ms
        }),
{
    lemma_read_ultrasonic(h, req, conn_id, now_ms);
}

/// `enable_speaker` drives the configured pin of the amplifier high.
pub proof fn law_enable_speaker(
    h: HandlerView,
    req: RequestView,
    conn_id: u64,
    now_ms: u64,
)
    requires
        req.method == "enable_speaker"@,
    ensures
        ({
            let (after, step) = handler::dispatched(h, req, conn_id, now_ms);
            &&& after == h
            &&& acts(
                step,
                req.id,
                Job::WriteSpeaker { enabled: true, pin_bcm: h.config.speaker_en_pin_bcm },
            )
        }),
{
    lemma_enable_speaker(h, req, conn_id, now_ms);
}

/// `disable_speaker` drives the configured pin of the amplifier low.
pub proof fn law_disable_speaker(
    h: HandlerView,
    req: RequestView,
    conn_id: u64,
    now_ms: u64,
)
    requires
        req.method == "disable_speaker"@,
    ensures
        ({
            let (after, step) = handler::dispatched(h, req, conn_id, now_ms);
            &&& after == h
            &&& acts(
                step,
                req.id,
                Job::WriteSpeaker { enabled: false, pin_bcm: h.config.speaker_en_pin_bcm },
            )
        }),
{
    lemma_disable_speaker(h, req, conn_id, now_ms);
}

/// `set_volume` sets the level that the request names, and refuses one above 100 or none.
pub proof fn law_set_volume(
    h: HandlerView,
    req: RequestView,
    conn_id: u64,
    now_ms: u64,
)
    requires
        req.method == "set_volume"@,
    ensures
        ({
            let (after, step) = handler::dispatched(h, req, conn_id, now_ms);
            let level = params::unsigned_at(req.params, "volume_pct"@);
            &&& after == h
            &&& level is Some && level->0 <= 100 ==> acts(
                step,
                req.id,
                Job::SetVolume { volume_pct: level->0 as u8 },
            )
            &&& !(level is Some && level->0 <= 100) ==> refused_for(
                step,
                req.id,
                "volume_pct is required and must be 0–100"@,
            )
        }),
{
    lemma_set_volume(h, req, conn_id, now_ms);
}

/// `get_volume` reads the volume.
pub proof fn law_get_volume(
    h: HandlerView,
    req: RequestView,
    conn_id: u64,
    now_ms: u64,
)
    requires
        req.method == "get_volume"@,
    ensures
        ({
            let (after, step) = handler::dispatched(h, req, conn_id, now_ms);
            &&& after == h
            &&& acts(step, req.id, Job::GetVolume)
        }),
{
    lemma_get_volume(h, req, conn_id, now_ms);
}

/// `set_mic_gain` sets the level that the request names, and refuses one above 100 or none.
pub proof fn law_set_mic_gain(
    h: HandlerView,
    req: RequestView,
    conn_id: u64,
    now_ms: u64,
)
    requires
        req.method == "set_mic_gain"@,
    ensures
        ({
            let (after, step) = handler::dispatched(h, req, conn_id, now_ms);
            let level = params::unsigned_at(req.params, "gain_pct"@);
            &&& after == h
            &&& level is Some && level->0 <= 100 ==> acts(
                step,
                req.id,
                Job::SetMicGain { gain_pct: level->0 as u8 },
            )
            &&& !(level is Some && level->0 <= 100) ==> refused_for(
                step,
                req.id,
                "gain_pct is required and must be 0–100"@,
            )
        }),
{
    lemma_set_mic_gain(h, req, conn_id, now_ms);
}

/// `get_mic_gain` reads the gain.
pub proof fn law_get_mic_gain(
    h: HandlerView,
    req: RequestView,
    conn_id: u64,
    now_ms: u64,
)
    requires
        req.method == "get_mic_gain"@,
    ensures
        ({
            let (after, step) = handler::dispatched(h, req, conn_id, now_ms);
            &&& after == h
            &&& acts(step, req.id, Job::GetMicGain)
        }),
{
    lemma_get_mic_gain(h, req, conn_id, now_ms);
}

/// `get_calibration` shows the calibration of every motor, of every servo and of every sensor, the
/// last with their ADC channels.
pub proof fn law_get_calibration(
    h: HandlerView,
    req: RequestView,
    conn_id: u64,
    now_ms: u64,
)
    requires
        req.method == "get_calibration"@,
    ensures
        ({
            let (after, step) = handler::dispatched(h, req, conn_id, now_ms);
            &&& after == h
            &&& step matches StepView::Answer(r) && r.id == req.id && (r.outcome matches Ok(
                ReplyView::Calibration { motors, trims, adc_channels, grayscale },
            ) && motors == h.calibration.motors && trims == h.calibration.trims && adc_channels
                == h.config.grayscale && grayscale == h.calibration.grayscale)
        }),
{
    lemma_get_calibration(h, req, conn_id, now_ms);
}

/// `set_motor_calibration` sets, for the motor that the request names, what the request gives, and
/// answers with the whole of its calibration. What it does not give, the other motors and all else
/// stay as they were. It is refused, and nothing changes, for a motor that is not configured, a
/// speed factor outside 0.5 to 2 and a deadband outside 0 to 20.
pub proof fn law_set_motor_calibration(
    h: HandlerView,
    req: RequestView,
    conn_id: u64,
    now_ms: u64,
)
    requires
        req.method == "set_motor_calibration"@,
        h.wf(),
    ensures
        ({
            let (after, step) = handler::dispatched(h, req, conn_id, now_ms);
            let channel = params::unsigned_at(req.params, "channel"@);
            let scale = params::number_at(req.params, "speed_scale"@);
            let deadband = params::number_at(req.params, "deadband_pct"@);
            let reversed = params::bool_at(req.params, "reversed"@);
            let accepted = channel is Some && channel->0 < h.config.motors.len() && (scale is Some
                ==> scale->0.value.within(number::ONE_HALF, number::TWO)) && (deadband is Some
                ==> deadband->0.value.within(number::ZERO, number::TWENTY));
            let i = channel->0 as int;
            &&& !accepted ==> refused(step, req.id) && after == h
            &&& channel is None ==> refused_for(step, req.id, "channel is required"@)
            &&& channel is Some && channel->0 >= h.config.motors.len() ==> refused_for(
                step,
                req.id,
                "channel "@ + text::decimal_of(channel->0 as nat) + " is not configured; "@
                    + text::decimal_of(h.config.motors.len()) + " motor(s) available"@,
            )
            &&& channel is Some && channel->0 < h.config.motors.len() && scale is Some
                && !scale->0.value.within(number::ONE_HALF, number::TWO) ==> refused_for(
                step,
                req.id,
                "speed_scale must be in [0.5, 2.0]"@,
            )
            &&& channel is Some && channel->0 < h.config.motors.len() && (scale is Some
                ==> scale->0.value.within(number::ONE_HALF, number::TWO)) && deadband is Some
                && !deadband->0.value.within(number::ZERO, number::TWENTY) ==> refused_for(
                step,
                req.id,
                "deadband_pct must be in [0.0, 20.0]"@,
            )
            &&& accepted ==> {
                let before = h.calibration.motors[i];
                let now = after.calibration.motors[i];
                &&& scale is Some ==> now.speed_scale == scale->0.value
                &&& scale is None ==> now.speed_scale == before.speed_scale
                &&& deadband is Some ==> now.deadband_pct == deadband->0.value
                &&& deadband is None ==> now.deadband_pct == before.deadband_pct
                &&& reversed is Some ==> now.reversed == reversed->0
                &&& reversed is None ==> now.reversed == before.reversed
                &&& after.calibration.motors.len() == h.calibration.motors.len()
                &&& forall|k: int|
                    0 <= k < h.calibration.motors.len() && k != i
                        ==> #[trigger] after.calibration.motors[k] == h.calibration.motors[k]
                &&& after.calibration.trims == h.calibration.trims
                &&& after.calibration.grayscale == h.calibration.grayscale
                &&& after.config == h.config && after.leases == h.leases && after.motor_leases
                    == h.motor_leases && after.mcu == h.mcu && after.routine == h.routine
                &&& step matches StepView::Answer(r) && r.id == req.id && (r.outcome matches Ok(
                    ReplyView::MotorCalibration { channel: told, calibration },
                ) && told == channel->0 && calibration == now)
            }
        }),
{
    lemma_set_motor_calibration(h, req, conn_id, now_ms);
}

/// `set_servo_calibration` stores the trim that the request gives for the servo that it names, and
/// answers with both. The trims of other servos and all else stay as they were. A name that is
/// none of the three, and a trim outside -500 to 500, are refused, and nothing changes.
pub proof fn law_set_servo_calibration(
    h: HandlerView,
    req: RequestView,
    conn_id: u64,
    now_ms: u64,
)
    requires
        req.method == "set_servo_calibration"@,
    ensures
        ({
            let (after, step) = handler::dispatched(h, req, conn_id, now_ms);
            let name = params::text_at(req.params, "servo"@);
            let trim = params::signed_at(req.params, "trim_us"@);
            let accepted = (name == Some("steering"@) || name == Some("camera_pan"@) || name == Some(
                "camera_tilt"@,
            )) && trim is Some && -500 <= trim->0 <= 500;
            &&& !accepted ==> refused(step, req.id) && after == h
            &&& name is None ==> refused_for(step, req.id, "servo is required"@)
            &&& name is Some && name->0 != "steering"@ && name->0 != "camera_pan"@ && name->0
                != "camera_tilt"@ ==> refused_for(
                step,
                req.id,
                "servo '"@ + name->0
                    + "' not recognised; valid: steering, camera_pan, camera_tilt"@,
            )
            &&& (name == Some("steering"@) || name == Some("camera_pan"@) || name == Some(
                "camera_tilt"@,
            )) && trim is None ==> refused_for(
                step,
                req.id,
                "trim_us is required and must be an integer"@,
            )
            &&& (name == Some("steering"@) || name == Some("camera_pan"@) || name == Some(
                "camera_tilt"@,
            )) && trim is Some && !(-500 <= trim->0 <= 500) ==> refused_for(
                step,
                req.id,
                "trim_us must be in [-500, 500]"@,
            )
            &&& accepted ==> {
                &&& after.calibration.trims.dom().contains(name->0)
                &&& after.calibration.trims[name->0] == trim->0
                &&& forall|other: Seq<char>|
                    other != name->0 ==> (#[trigger] after.calibration.trims.dom().contains(other)
                        <==> h.calibration.trims.dom().contains(other))
                        && after.calibration.trims[other] == h.calibration.trims[other]
                &&& after.calibration.motors == h.calibration.motors
                &&& after.calibration.grayscale == h.calibration.grayscale
                &&& after.config == h.config && after.leases == h.leases && after.motor_leases
                    == h.motor_leases && after.mcu == h.mcu && after.routine == h.routine
                &&& step matches StepView::Answer(r) && r.id == req.id && (r.outcome matches Ok(
                    ReplyView::ServoCalibration { servo, trim_us },
                ) && servo.name_of() == name->0 && trim_us == trim->0)
            }
        }),
{
    lemma_set_servo_calibration(h, req, conn_id, now_ms);
}

/// `calibrate_grayscale` reads the sensor at the place that the request names, on the ADC channel
/// that is configured for that place, over the surface that it names; a place above 2 and any
/// other surface than white and black are refused.
pub proof fn law_calibrate_grayscale(
    h: HandlerView,
    req: RequestView,
    conn_id: u64,
    now_ms: u64,
)
    requires
        req.method == "calibrate_grayscale"@,
    ensures
        ({
            let (after, step) = handler::dispatched(h, req, conn_id, now_ms);
            let channel = params::unsigned_at(req.params, "channel"@);
            let surface = params::text_at(req.params, "surface"@);
            let placed = channel is Some && channel->0 <= 2;
            &&& after == h
            &&& placed && surface == Some("white"@) ==> (step matches StepView::Act {
                id,
                job: Job::CalibrateGrayscale { channel: place, adc_channel, surface: s },
            } && id == req.id && place == channel->0 && adc_channel
                == h.config.grayscale[channel->0 as int] && s == Surface::White)
            &&& placed && surface == Some("black"@) ==> (step matches StepView::Act {
                id,
                job: Job::CalibrateGrayscale { channel: place, adc_channel, surface: s },
            } && id == req.id && place == channel->0 && adc_channel
                == h.config.grayscale[channel->0 as int] && s == Surface::Black)
            &&& !placed ==> refused_for(step, req.id, "channel is required and must be 0–2"@)
            &&& placed && surface is None ==> refused_for(step, req.id, "surface is required"@)
            &&& placed && surface is Some && surface->0 != "white"@ && surface->0 != "black"@
                ==> refused_for(
                step,
                req.id,
                "surface '"@ + surface->0 + "' not recognised; valid: white, black"@,
            )
        }),
{
    lemma_calibrate_grayscale(h, req, conn_id, now_ms);
    reveal_strlit("white");
    reveal_strlit("black");
    assert("white"@[0] != "black"@[0]);
}

/// `read_grayscale_normalized` reads the sensors, to be held each against its own calibration.
pub proof fn law_read_grayscale_normalized(
    h: HandlerView,
    req: RequestView,
    conn_id: u64,
    now_ms: u64,
)
    requires
        req.method == "read_grayscale_normalized"@,
    ensures
        ({
            let (after, step) = handler::dispatched(h, req, conn_id, now_ms);
            &&& after == h
            &&& step matches StepView::Act {
                id,
                job: Job::ReadGrayscaleNormalized { references },
            } && id == req.id && references.left == h.calibration.grayscale[0]
                && references.center == h.calibration.grayscale[1] && references.right
                == h.calibration.grayscale[2]
        }),
{
    lemma_read_grayscale_normalized(h, req, conn_id, now_ms);
}

/// `save_calibration` saves the calibration.
pub proof fn law_save_calibration(
    h: HandlerView,
    req: RequestView,
    conn_id: u64,
    now_ms: u64,
)
    requires
        req.method == "save_calibration"@,
    ensures
        ({
            let (after, step) = handler::dispatched(h, req, conn_id, now_ms);
            &&& after == h
            &&& acts(step, req.id, Job::SaveCalibration)
        }),
{
    lemma_save_calibration(h, req, conn_id, now_ms);
}

/// `reset_calibration` forgets all calibration: motors run as they are told, sensors read from 100
/// to 3000 and servos have no trim. All else stays as it was.
pub proof fn law_reset_calibration(
    h: HandlerView,
    req: RequestView,
    conn_id: u64,
    now_ms: u64,
)
    requires
        req.method == "reset_calibration"@,
    ensures
        ({
            let (after, step) = handler::dispatched(h, req, conn_id, now_ms);
            &&& after.calibration.motors.len() == h.config.motors.len()
            &&& forall|i: int|
                0 <= i < h.config.motors.len() ==> (
                #[trigger] after.calibration.motors[i]).speed_scale.bits == number::ONE
                    && after.calibration.motors[i].deadband_pct.bits == number::ZERO
                    && !after.calibration.motors[i].reversed
            &&& after.calibration.grayscale.len() == 3
            &&& forall|i: int|
                0 <= i < 3 ==> (#[trigger] after.calibration.grayscale[i]).white_raw == 100
                    && after.calibration.grayscale[i].black_raw == 3000
            &&& forall|name: Seq<char>| #[trigger] after.calibration.trim(name) == 0
            &&& after.config == h.config && after.leases == h.leases && after.motor_leases
                == h.motor_leases && after.mcu == h.mcu && after.routine == h.routine
            &&& step matches StepView::Answer(r) && r.id == req.id && (r.outcome matches Ok(
                ReplyView::CalibrationReset { reset },
            ) && reset)
        }),
{
    lemma_reset_calibration(h, req, conn_id, now_ms);
}

/// `start_routine` starts the routine that the request names. Each of the overrides is there
/// exactly if the request gives it as a number, and is then that number. A speed outside 1 to 100,
/// an obstacle threshold that is not above 0 and a cliff threshold outside 0 to 1 are refused, and
/// so is a request without a name.
pub proof fn law_start_routine(
    h: HandlerView,
    req: RequestView,
    conn_id: u64,
    now_ms: u64,
)
    requires
        req.method == "start_routine"@,
    ensures
        ({
            let (after, step) = handler::dispatched(h, req, conn_id, now_ms);
            let name = params::text_at(req.params, "name"@);
            let speed = params::number_at(req.params, "speed_pct"@);
            let obstacle = params::number_at(req.params, "obstacle_threshold_cm"@);
            let cliff = params::number_at(req.params, "cliff_threshold_normalized"@);
            let accepted = name is Some && (speed is Some ==> speed->0.value.within(
                number::ONE,
                number::HUNDRED,
            )) && (obstacle is Some ==> obstacle->0.value.positive()) && (cliff is Some
                ==> cliff->0.value.within(number::ZERO, number::ONE));
            &&& after == h
            &&& !accepted ==> refused(step, req.id)
            &&& name is None ==> refused_for(step, req.id, "name is required"@)
            &&& name is Some && speed is Some && !speed->0.value.within(
                number::ONE,
                number::HUNDRED,
            ) ==> refused_for(
                step,
                req.id,
                "speed_pct "@ + speed->0.text + " is out of range 1.0–100.0"@,
            )
            &&& name is Some && (speed is Some ==> speed->0.value.within(
                number::ONE,
                number::HUNDRED,
            )) && obstacle is Some && !obstacle->0.value.positive() ==> refused_for(
                step,
                req.id,
                "obstacle_threshold_cm must be > 0.0"@,
            )
            &&& name is Some && (speed is Some ==> speed->0.value.within(
                number::ONE,
                number::HUNDRED,
            )) && (obstacle is Some ==> obstacle->0.value.positive()) && cliff is Some
                && !cliff->0.value.within(number::ZERO, number::ONE) ==> refused_for(
                step,
                req.id,
                "cliff_threshold_normalized "@ + cliff->0.text + " is out of range 0.0–1.0"@,
            )
            &&& accepted ==> (step matches StepView::StartRoutine { id, name: told, overrides } && {
                &&& id == req.id
                &&& told == name->0
                &&& speed is Some ==> overrides.speed_pct == Some(speed->0.value)
                &&& speed is None ==> overrides.speed_pct is None
                &&& obstacle is Some ==> overrides.obstacle_threshold_cm == Some(
                    obstacle->0.value,
                )
                &&& obstacle is None ==> overrides.obstacle_threshold_cm is None
                &&& cliff is Some ==> overrides.cliff_threshold_normalized == Some(cliff->0.value)
                &&& cliff is None ==> overrides.cliff_threshold_normalized is None
                &&& overrides.max_duration_s == params::unsigned_at(
                    req.params,
                    "max_duration_s"@,
                )
            })
        }),
{
    lemma_start_routine(h, req, conn_id, now_ms);
}

/// `stop_routine` stops the routine that is running, which is then running no longer; it is refused
/// where none is. All else stays as it was.
pub proof fn law_stop_routine(
    h: HandlerView,
    req: RequestView,
    conn_id: u64,
    now_ms: u64,
)
    requires
        req.method == "stop_routine"@,
    ensures
        ({
            let (after, step) = handler::dispatched(h, req, conn_id, now_ms);
            &&& h.routine is None ==> after == h && refused_for(
                step,
                req.id,
                "no routine is currently running"@,
            )
            &&& h.routine is Some ==> {
                &&& step == StepView::StopRoutine { id: req.id, name: h.routine->0 }
                &&& after.routine is None
                &&& after.config == h.config && after.leases == h.leases && after.motor_leases
                    == h.motor_leases && after.mcu == h.mcu && after.calibration == h.calibration
            }
        }),
{
    lemma_stop_routine(h, req, conn_id, now_ms);
}

/// `get_routine_status` asks the routine.
pub proof fn law_get_routine_status(
    h: HandlerView,
    req: RequestView,
    conn_id: u64,
    now_ms: u64,
)
    requires
        req.method == "get_routine_status"@,
    ensures
        ({
            let (after, step) = handler::dispatched(h, req, conn_id, now_ms);
            &&& after == h
            &&& acts(step, req.id, Job::GetRoutineStatus)
        }),
{
    lemma_get_routine_status(h, req, conn_id, now_ms);
}

// ---------------------------------------------------------------------------
// Names
// ---------------------------------------------------------------------------

proof fn lemma_pin_literals()
    ensures
        gpio::pin_named("D2"@) == Some(GpioPin::D2),
        gpio::pin_named("D3"@) == Some(GpioPin::D3),
        gpio::pin_named("D4"@) == Some(GpioPin::D4),
        gpio::pin_named("D5"@) == Some(GpioPin::D5),
        gpio::pin_named("MCURST"@) == Some(GpioPin::McuRst),
        gpio::pin_named("SW"@) == Some(GpioPin::Sw),
        gpio::pin_named("LED"@) == Some(GpioPin::Led),
        gpio::pin_named("SPEAKER_EN"@) == Some(GpioPin::SpeakerEn),
{
    gpio::law_pin_names(GpioPin::D2, "D2"@);
    gpio::law_pin_names(GpioPin::D3, "D3"@);
    gpio::law_pin_names(GpioPin::D4, "D4"@);
    gpio::law_pin_names(GpioPin::D5, "D5"@);
    gpio::law_pin_names(GpioPin::McuRst, "MCURST"@);
    gpio::law_pin_names(GpioPin::Sw, "SW"@);
    gpio::law_pin_names(GpioPin::Led, "LED"@);
    gpio::law_pin_names(GpioPin::SpeakerEn, "SPEAKER_EN"@);
}

/// The names of the methods are told apart by their lengths, and where these are the same
/// by single characters.
proof fn lemma_names_differ()
    ensures
        "health"@.len() == 6,
        "get_battery_voltage"@.len() == 19,
        "read_adc"@.len() == 8,
        "read_gpio"@.len() == 9,
        "write_gpio"@.len() == 10,
        "reset_mcu"@.len() == 9,
        "get_mcu_status"@.len() == 14,
        "set_servo_pulse_us"@.len() == 18,
        "set_servo_angle"@.len() == 15,
        "get_servo_status"@.len() == 16,
        "steer"@.len() == 5,
        "pan_camera"@.len() == 10,
        "tilt_camera"@.len() == 11,
        "set_motor_speed"@.len() == 15,
        "stop_all_motors"@.len() == 15,
        "get_motor_status"@.len() == 16,
        "drive"@.len() == 5,
        "read_grayscale"@.len() == 14,
        "read_ultrasonic"@.len() == 15,
        "enable_speaker"@.len() == 14,
        "disable_speaker"@.len() == 15,
        "set_volume"@.len() == 10,
        "get_volume"@.len() == 10,
        "set_mic_gain"@.len() == 12,
        "get_mic_gain"@.len() == 12,
        "get_calibration"@.len() == 15,
        "set_motor_calibration"@.len() == 21,
        "set_servo_calibration"@.len() == 21,
        "calibrate_grayscale"@.len() == 19,
        "read_grayscale_normalized"@.len() == 25,
        "save_calibration"@.len() == 16,
        "reset_calibration"@.len() == 17,
        "start_routine"@.len() == 13,
        "stop_routine"@.len() == 12,
        "get_routine_status"@.len() == 18,
        "steer"@[0] == 's',
        "drive"@[0] == 'd',
        "read_gpio"@[2] == 'a',
        "reset_mcu"@[2] == 's',
        "write_gpio"@[0] == 'w',
        "pan_camera"@[0] == 'p',
        "set_volume"@[0] == 's',
        "get_volume"@[0] == 'g',
        "set_mic_gain"@[0] == 's' && "set_mic_gain"@[1] == 'e',
        "get_mic_gain"@[0] == 'g' && "get_mic_gain"@[1] == 'e',
        "stop_routine"@[0] == 's' && "stop_routine"@[1] == 't',
        "get_mcu_status"@[0] == 'g',
        "read_grayscale"@[0] == 'r',
        "enable_speaker"@[0] == 'e',
        "set_servo_angle"@[7] == 'v',
        "set_motor_speed"@[7] == 'o',
        "stop_all_motors"@[7] == 'l',
        "read_ultrasonic"@[7] == 't',
        "disable_speaker"@[7] == '_',
        "get_calibration"@[7] == 'i',
        "get_servo_status"@[4] == 's',
        "get_motor_status"@[4] == 'm',
        "save_calibration"@[4] == '_',
        "set_servo_pulse_us"@[0] == 's',
        "get_routine_status"@[0] == 'g',
        "get_battery_voltage"@[0] == 'g',
        "calibrate_grayscale"@[0] == 'c',
        "set_motor_calibration"@[4] == 'm',
        "set_servo_calibration"@[4] == 's',
{
    reveal_strlit("health");
    reveal_strlit("get_battery_voltage");
    reveal_strlit("read_adc");
    reveal_strlit("read_gpio");
    reveal_strlit("write_gpio");
    reveal_strlit("reset_mcu");
    reveal_strlit("get_mcu_status");
    reveal_strlit("set_servo_pulse_us");
    reveal_strlit("set_servo_angle");
    reveal_strlit("get_servo_status");
    reveal_strlit("steer");
    reveal_strlit("pan_camera");
    reveal_strlit("tilt_camera");
    reveal_strlit("set_motor_speed");
    reveal_strlit("stop_all_motors");
    reveal_strlit("get_motor_status");
    reveal_strlit("drive");
    reveal_strlit("read_grayscale");
    reveal_strlit("read_ultrasonic");
    reveal_strlit("enable_speaker");
    reveal_strlit("disable_speaker");
    reveal_strlit("set_volume");
    reveal_strlit("get_volume");
    reveal_strlit("set_mic_gain");
    reveal_strlit("get_mic_gain");
    reveal_strlit("get_calibration");
    reveal_strlit("set_motor_calibration");
    reveal_strlit("set_servo_calibration");
    reveal_strlit("calibrate_grayscale");
    reveal_strlit("read_grayscale_normalized");
    reveal_strlit("save_calibration");
    reveal_strlit("reset_calibration");
    reveal_strlit("start_routine");
    reveal_strlit("stop_routine");
    reveal_strlit("get_routine_status");
}

proof fn lemma_health(
    h: HandlerView,
    req: RequestView,
    conn_id: u64,
    now_ms: u64,
)
    requires
        req.method == "health"@,
    ensures
        handler::dispatched(h, req, conn_id, now_ms) == (h, plan::health(h, req, now_ms)),
{
    lemma_names_differ();
}

proof fn lemma_get_battery_voltage(
    h: HandlerView,
    req: RequestView,
    conn_id: u64,
    now_ms: u64,
)
    requires
        req.method == "get_battery_voltage"@,
    ensures
        handler::dispatched(h, req, conn_id, now_ms) == (
            h,
            plan::act(req, Job::ReadBatteryVoltage),
        ),
{
    lemma_names_differ();
}

proof fn lemma_read_adc(
    h: HandlerView,
    req: RequestView,
    conn_id: u64,
    now_ms: u64,
)
    requires
        req.method == "read_adc"@,
    ensures
        handler::dispatched(h, req, conn_id, now_ms) == (h, plan::read_adc(req)),
{
    lemma_names_differ();
}

proof fn lemma_read_gpio(
    h: HandlerView,
    req: RequestView,
    conn_id: u64,
    now_ms: u64,
)
    requires
        req.method == "read_gpio"@,
    ensures
        handler::dispatched(h, req, conn_id, now_ms) == (h, plan::read_gpio(req)),
{
    lemma_names_differ();
}

proof fn lemma_write_gpio(
    h: HandlerView,
    req: RequestView,
    conn_id: u64,
    now_ms: u64,
)
    requires
        req.method == "write_gpio"@,
    ensures
        handler::dispatched(h, req, conn_id, now_ms) == (h, plan::write_gpio(req)),
{
    lemma_names_differ();
}

proof fn lemma_reset_mcu(
    h: HandlerView,
    req: RequestView,
    conn_id: u64,
    now_ms: u64,
)
    requires
        req.method == "reset_mcu"@,
    ensures
        handler::dispatched(h, req, conn_id, now_ms) == (h, plan::reset_mcu(h, req, now_ms)),
{
    lemma_names_differ();
}

proof fn lemma_get_mcu_status(
    h: HandlerView,
    req: RequestView,
    conn_id: u64,
    now_ms: u64,
)
    requires
        req.method == "get_mcu_status"@,
    ensures
        handler::dispatched(h, req, conn_id, now_ms) == (h, plan::get_mcu_status(h, req, now_ms)),
{
    lemma_names_differ();
}

proof fn lemma_set_servo_pulse_us(
    h: HandlerView,
    req: RequestView,
    conn_id: u64,
    now_ms: u64,
)
    requires
        req.method == "set_servo_pulse_us"@,
    ensures
        handler::dispatched(h, req, conn_id, now_ms) == (
            h,
            plan::set_servo_pulse_us(h, req, conn_id),
        ),
{
    lemma_names_differ();
}

proof fn lemma_set_servo_angle(
    h: HandlerView,
    req: RequestView,
    conn_id: u64,
    now_ms: u64,
)
    requires
        req.method == "set_servo_angle"@,
    ensures
        handler::dispatched(h, req, conn_id, now_ms) == (h, plan::set_servo_angle(h, req, conn_id)),
{
    lemma_names_differ();
}

proof fn lemma_get_servo_status(
    h: HandlerView,
    req: RequestView,
    conn_id: u64,
    now_ms: u64,
)
    requires
        req.method == "get_servo_status"@,
    ensures
        handler::dispatched(h, req, conn_id, now_ms) == (h, plan::get_servo_status(h, req, now_ms)),
{
    lemma_names_differ();
}

proof fn lemma_steer(
    h: HandlerView,
    req: RequestView,
    conn_id: u64,
    now_ms: u64,
)
    requires
        req.method == "steer"@,
    ensures
        handler::dispatched(h, req, conn_id, now_ms) == (
            h,
            plan::move_servo(h, req, conn_id, ServoName::Steering),
        ),
{
    lemma_names_differ();
}

proof fn lemma_pan_camera(
    h: HandlerView,
    req: RequestView,
    conn_id: u64,
    now_ms: u64,
)
    requires
        req.method == "pan_camera"@,
    ensures
        handler::dispatched(h, req, conn_id, now_ms) == (
            h,
            plan::move_servo(h, req, conn_id, ServoName::CameraPan),
        ),
{
    lemma_names_differ();
}

proof fn lemma_tilt_camera(
    h: HandlerView,
    req: RequestView,
    conn_id: u64,
    now_ms: u64,
)
    requires
        req.method == "tilt_camera"@,
    ensures
        handler::dispatched(h, req, conn_id, now_ms) == (
            h,
            plan::move_servo(h, req, conn_id, ServoName::CameraTilt),
        ),
{
    lemma_names_differ();
}

proof fn lemma_set_motor_speed(
    h: HandlerView,
    req: RequestView,
    conn_id: u64,
    now_ms: u64,
)
    requires
        req.method == "set_motor_speed"@,
    ensures
        handler::dispatched(h, req, conn_id, now_ms) == (h, plan::set_motor_speed(h, req, conn_id)),
{
    lemma_names_differ();
}

proof fn lemma_stop_all_motors(
    h: HandlerView,
    req: RequestView,
    conn_id: u64,
    now_ms: u64,
)
    requires
        req.method == "stop_all_motors"@,
    ensures
        handler::dispatched(h, req, conn_id, now_ms) == (h, plan::act(req, Job::StopAllMotors)),
{
    lemma_names_differ();
}

proof fn lemma_get_motor_status(
    h: HandlerView,
    req: RequestView,
    conn_id: u64,
    now_ms: u64,
)
    requires
        req.method == "get_motor_status"@,
    ensures
        handler::dispatched(h, req, conn_id, now_ms) == (h, plan::get_motor_status(h, req, now_ms)),
{
    lemma_names_differ();
}

proof fn lemma_drive(
    h: HandlerView,
    req: RequestView,
    conn_id: u64,
    now_ms: u64,
)
    requires
        req.method == "drive"@,
    ensures
        handler::dispatched(h, req, conn_id, now_ms) == (h, plan::drive(h, req, conn_id)),
{
    lemma_names_differ();
}

proof fn lemma_read_grayscale(
    h: HandlerView,
    req: RequestView,
    conn_id: u64,
    now_ms: u64,
)
    requires
        req.method == "read_grayscale"@,
    ensures
        handler::dispatched(h, req, conn_id, now_ms) == (h, plan::act(req, Job::ReadGrayscale)),
{
    lemma_names_differ();
}

proof fn lemma_read_ultrasonic(
    h: HandlerView,
    req: RequestView,
    conn_id: u64,
    now_ms: u64,
)
    requires
        req.method == "read_ultrasonic"@,
    ensures
        handler::dispatched(h, req, conn_id, now_ms) == (h, plan::read_ultrasonic(h, req)),
{
    lemma_names_differ();
}

proof fn lemma_enable_speaker(
    h: HandlerView,
    req: RequestView,
    conn_id: u64,
    now_ms: u64,
)
    requires
        req.method == "enable_speaker"@,
    ensures
        handler::dispatched(h, req, conn_id, now_ms) == (h, plan::speaker(h, req, true)),
{
    lemma_names_differ();
}

proof fn lemma_disable_speaker(
    h: HandlerView,
    req: RequestView,
    conn_id: u64,
    now_ms: u64,
)
    requires
        req.method == "disable_speaker"@,
    ensures
        handler::dispatched(h, req, conn_id, now_ms) == (h, plan::speaker(h, req, false)),
{
    lemma_names_differ();
}

proof fn lemma_set_volume(
    h: HandlerView,
    req: RequestView,
    conn_id: u64,
    now_ms: u64,
)
    requires
        req.method == "set_volume"@,
    ensures
        handler::dispatched(h, req, conn_id, now_ms) == (h, plan::set_volume(req)),
{
    lemma_names_differ();
}

proof fn lemma_get_volume(
    h: HandlerView,
    req: RequestView,
    conn_id: u64,
    now_ms: u64,
)
    requires
        req.method == "get_volume"@,
    ensures
        handler::dispatched(h, req, conn_id, now_ms) == (h, plan::act(req, Job::GetVolume)),
{
    lemma_names_differ();
}

proof fn lemma_set_mic_gain(
    h: HandlerView,
    req: RequestView,
    conn_id: u64,
    now_ms: u64,
)
    requires
        req.method == "set_mic_gain"@,
    ensures
        handler::dispatched(h, req, conn_id, now_ms) == (h, plan::set_mic_gain(req)),
{
    lemma_names_differ();
}

proof fn lemma_get_mic_gain(
    h: HandlerView,
    req: RequestView,
    conn_id: u64,
    now_ms: u64,
)
    requires
        req.method == "get_mic_gain"@,
    ensures
        handler::dispatched(h, req, conn_id, now_ms) == (h, plan::act(req, Job::GetMicGain)),
{
    lemma_names_differ();
}

proof fn lemma_get_calibration(
    h: HandlerView,
    req: RequestView,
    conn_id: u64,
    now_ms: u64,
)
    requires
        req.method == "get_calibration"@,
    ensures
        handler::dispatched(h, req, conn_id, now_ms) == (h, plan::get_calibration(h, req)),
{
    lemma_names_differ();
}

proof fn lemma_set_motor_calibration(
    h: HandlerView,
    req: RequestView,
    conn_id: u64,
    now_ms: u64,
)
    requires
        req.method == "set_motor_calibration"@,
    ensures
        handler::dispatched(h, req, conn_id, now_ms) == plan::set_motor_calibration(h, req),
{
    lemma_names_differ();
}

proof fn lemma_set_servo_calibration(
    h: HandlerView,
    req: RequestView,
    conn_id: u64,
    now_ms: u64,
)
    requires
        req.method == "set_servo_calibration"@,
    ensures
        handler::dispatched(h, req, conn_id, now_ms) == plan::set_servo_calibration(h, req),
{
    lemma_names_differ();
}

proof fn lemma_calibrate_grayscale(
    h: HandlerView,
    req: RequestView,
    conn_id: u64,
    now_ms: u64,
)
    requires
        req.method == "calibrate_grayscale"@,
    ensures
        handler::dispatched(h, req, conn_id, now_ms) == (h, plan::calibrate_grayscale(h, req)),
{
    lemma_names_differ();
}

proof fn lemma_read_grayscale_normalized(
    h: HandlerView,
    req: RequestView,
    conn_id: u64,
    now_ms: u64,
)
    requires
        req.method == "read_grayscale_normalized"@,
    ensures
        handler::dispatched(h, req, conn_id, now_ms) == (
            h,
            plan::read_grayscale_normalized(h, req),
        ),
{
    lemma_names_differ();
}

proof fn lemma_save_calibration(
    h: HandlerView,
    req: RequestView,
    conn_id: u64,
    now_ms: u64,
)
    requires
        req.method == "save_calibration"@,
    ensures
        handler::dispatched(h, req, conn_id, now_ms) == (h, plan::act(req, Job::SaveCalibration)),
{
    lemma_names_differ();
}

proof fn lemma_reset_calibration(
    h: HandlerView,
    req: RequestView,
    conn_id: u64,
    now_ms: u64,
)
    requires
        req.method == "reset_calibration"@,
    ensures
        handler::dispatched(h, req, conn_id, now_ms) == plan::reset_calibration(h, req),
{
    lemma_names_differ();
}

proof fn lemma_start_routine(
    h: HandlerView,
    req: RequestView,
    conn_id: u64,
    now_ms: u64,
)
    requires
        req.method == "start_routine"@,
    ensures
        handler::dispatched(h, req, conn_id, now_ms) == (h, plan::start_routine(req)),
{
    lemma_names_differ();
}

proof fn lemma_stop_routine(
    h: HandlerView,
    req: RequestView,
    conn_id: u64,
    now_ms: u64,
)
    requires
        req.method == "stop_routine"@,
    ensures
        handler::dispatched(h, req, conn_id, now_ms) == plan::stop_routine(h, req),
{
    lemma_names_differ();
}

proof fn lemma_get_routine_status(
    h: HandlerView,
    req: RequestView,
    conn_id: u64,
    now_ms: u64,
)
    requires
        req.method == "get_routine_status"@,
    ensures
        handler::dispatched(h, req, conn_id, now_ms) == (h, plan::act(req, Job::GetRoutineStatus)),
{
    lemma_names_differ();
}

} // verus!
