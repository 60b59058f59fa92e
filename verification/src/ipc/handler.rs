//! Dispatch of requests to the methods.

use vstd::prelude::*;
use vstd::string::*;

use crate::calibration::ServoName;
use crate::ipc::plan;
use crate::ipc::plan::{Job, Step, StepView};
use crate::ipc::schema;
use crate::ipc::schema::{Request, RequestView, Response, ResponseView};
use crate::ipc::state::{Handler, HandlerView};
use crate::text;

verus! {

/// The answer to a request for a method that there is not.
pub open spec fn unknown_method(req: RequestView) -> ResponseView {
    schema::failed(
        req.id,
        "UNKNOWN_METHOD"@,
        "method '"@ + req.method + "' not recognized"@,
    )
}

/// The answer to what is no request: there is no `id` to carry.
pub open spec fn malformed(error: Seq<char>) -> ResponseView {
    schema::refused(Seq::empty(), "malformed JSON: "@ + error)
}

/// Whether there is a method of a name.
pub open spec fn is_method(m: Seq<char>) -> bool {
    ||| m == "health"@
    ||| m == "get_battery_voltage"@
    ||| m == "read_adc"@
    ||| m == "read_gpio"@
    ||| m == "write_gpio"@
    ||| m == "reset_mcu"@
    ||| m == "get_mcu_status"@
    ||| m == "set_servo_pulse_us"@
    ||| m == "set_servo_angle"@
    ||| m == "get_servo_status"@
    ||| m == "steer"@
    ||| m == "pan_camera"@
    ||| m == "tilt_camera"@
    ||| m == "set_motor_speed"@
    ||| m == "stop_all_motors"@
    ||| m == "get_motor_status"@
    ||| m == "drive"@
    ||| m == "read_grayscale"@
    ||| m == "read_ultrasonic"@
    ||| m == "enable_speaker"@
    ||| m == "disable_speaker"@
    ||| m == "set_volume"@
    ||| m == "get_volume"@
    ||| m == "set_mic_gain"@
    ||| m == "get_mic_gain"@
    ||| m == "get_calibration"@
    ||| m == "set_motor_calibration"@
    ||| m == "set_servo_calibration"@
    ||| m == "calibrate_grayscale"@
    ||| m == "read_grayscale_normalized"@
    ||| m == "save_calibration"@
    ||| m == "reset_calibration"@
    ||| m == "start_routine"@
    ||| m == "stop_routine"@
    ||| m == "get_routine_status"@
}

/// What a request to a method for the board itself comes to, and the state that it
/// leaves. Nothing, where the method is none of these.
pub open spec fn board_methods(
    h: HandlerView,
    req: RequestView,
    conn_id: u64,
    now_ms: u64,
) -> Option<(HandlerView, StepView)> {
    let m = req.method;
    if m == "health"@ {
        Some((h, plan::health(h, req, now_ms)))
    } else if m == "get_battery_voltage"@ {
        Some((h, plan::act(req, Job::ReadBatteryVoltage)))
    } else if m == "read_adc"@ {
        Some((h, plan::read_adc(req)))
    } else if m == "read_gpio"@ {
        Some((h, plan::read_gpio(req)))
    } else if m == "write_gpio"@ {
        Some((h, plan::write_gpio(req)))
    } else if m == "reset_mcu"@ {
        Some((h, plan::reset_mcu(h, req, now_ms)))
    } else if m == "get_mcu_status"@ {
        Some((h, plan::get_mcu_status(h, req, now_ms)))
    } else {
        None
    }
}

/// What a request to a method for servos comes to, and the state that it
/// leaves. Nothing, where the method is none of these.
pub open spec fn servo_methods(
    h: HandlerView,
    req: RequestView,
    conn_id: u64,
    now_ms: u64,
) -> Option<(HandlerView, StepView)> {
    let m = req.method;
    if m == "set_servo_pulse_us"@ {
        Some((h, plan::set_servo_pulse_us(h, req, conn_id)))
    } else if m == "set_servo_angle"@ {
        Some((h, plan::set_servo_angle(h, req, conn_id)))
    } else if m == "get_servo_status"@ {
        Some((h, plan::get_servo_status(h, req, now_ms)))
    } else if m == "steer"@ {
        Some((h, plan::move_servo(h, req, conn_id, ServoName::Steering)))
    } else if m == "pan_camera"@ {
        Some((h, plan::move_servo(h, req, conn_id, ServoName::CameraPan)))
    } else if m == "tilt_camera"@ {
        Some((h, plan::move_servo(h, req, conn_id, ServoName::CameraTilt)))
    } else {
        None
    }
}

/// What a request to a method for motors comes to, and the state that it
/// leaves. Nothing, where the method is none of these.
pub open spec fn motor_methods(
    h: HandlerView,
    req: RequestView,
    conn_id: u64,
    now_ms: u64,
) -> Option<(HandlerView, StepView)> {
    let m = req.method;
    if m == "set_motor_speed"@ {
        Some((h, plan::set_motor_speed(h, req, conn_id)))
    } else if m == "stop_all_motors"@ {
        Some((h, plan::act(req, Job::StopAllMotors)))
    } else if m == "get_motor_status"@ {
        Some((h, plan::get_motor_status(h, req, now_ms)))
    } else if m == "drive"@ {
        Some((h, plan::drive(h, req, conn_id)))
    } else {
        None
    }
}

/// What a request to a method for sensors and sound comes to, and the state that it
/// leaves. Nothing, where the method is none of these.
pub open spec fn sense_methods(
    h: HandlerView,
    req: RequestView,
    conn_id: u64,
    now_ms: u64,
) -> Option<(HandlerView, StepView)> {
    let m = req.method;
    if m == "read_grayscale"@ {
        Some((h, plan::act(req, Job::ReadGrayscale)))
    } else if m == "read_ultrasonic"@ {
        Some((h, plan::read_ultrasonic(h, req)))
    } else if m == "enable_speaker"@ {
        Some((h, plan::speaker(h, req, true)))
    } else if m == "disable_speaker"@ {
        Some((h, plan::speaker(h, req, false)))
    } else if m == "set_volume"@ {
        Some((h, plan::set_volume(req)))
    } else if m == "get_volume"@ {
        Some((h, plan::act(req, Job::GetVolume)))
    } else if m == "set_mic_gain"@ {
        Some((h, plan::set_mic_gain(req)))
    } else if m == "get_mic_gain"@ {
        Some((h, plan::act(req, Job::GetMicGain)))
    } else {
        None
    }
}

/// What a request to a method for calibration comes to, and the state that it
/// leaves. Nothing, where the method is none of these.
pub open spec fn calibration_methods(
    h: HandlerView,
    req: RequestView,
    conn_id: u64,
    now_ms: u64,
) -> Option<(HandlerView, StepView)> {
    let m = req.method;
    if m == "get_calibration"@ {
        Some((h, plan::get_calibration(h, req)))
    } else if m == "set_motor_calibration"@ {
        Some(plan::set_motor_calibration(h, req))
    } else if m == "set_servo_calibration"@ {
        Some(plan::set_servo_calibration(h, req))
    } else if m == "calibrate_grayscale"@ {
        Some((h, plan::calibrate_grayscale(h, req)))
    } else if m == "read_grayscale_normalized"@ {
        Some((h, plan::read_grayscale_normalized(h, req)))
    } else if m == "save_calibration"@ {
        Some((h, plan::act(req, Job::SaveCalibration)))
    } else if m == "reset_calibration"@ {
        Some(plan::reset_calibration(h, req))
    } else {
        None
    }
}

/// What a request to a method for routines comes to, and the state that it
/// leaves. Nothing, where the method is none of these.
pub open spec fn routine_methods(
    h: HandlerView,
    req: RequestView,
    conn_id: u64,
    now_ms: u64,
) -> Option<(HandlerView, StepView)> {
    let m = req.method;
    if m == "start_routine"@ {
        Some((h, plan::start_routine(req)))
    } else if m == "stop_routine"@ {
        Some(plan::stop_routine(h, req))
    } else if m == "get_routine_status"@ {
        Some((h, plan::act(req, Job::GetRoutineStatus)))
    } else {
        None
    }
}

/// What a request comes to, and the state that it leaves.
pub open spec fn dispatched(h: HandlerView, req: RequestView, conn_id: u64, now_ms: u64) -> (
    HandlerView,
    StepView,
) {
    if let Some(x) = board_methods(h, req, conn_id, now_ms) {
        x
    } else if let Some(x) = servo_methods(h, req, conn_id, now_ms) {
        x
    } else if let Some(x) = motor_methods(h, req, conn_id, now_ms) {
        x
    } else if let Some(x) = sense_methods(h, req, conn_id, now_ms) {
        x
    } else if let Some(x) = calibration_methods(h, req, conn_id, now_ms) {
        x
    } else if let Some(x) = routine_methods(h, req, conn_id, now_ms) {
        x
    } else {
        (h, StepView::Answer(unknown_method(req)))
    }
}

impl Handler {
    /// Look at a request: answer it, or say what has to be done first. `parsed`
    /// is the request, or the text of the error where it could not be read.
    /// `conn_id` is the connection that it came on.
    pub fn dispatch(&mut self, parsed: Result<Request, String>, conn_id: u64, now_ms: u64) -> (r:
        Step)
        requires
            old(self)@.wf(),
        ensures
            final(self)@.wf(),
            match parsed {
                Err(e) => r@ == StepView::Answer(malformed(e@)) && final(self)@ == old(self)@,
                Ok(request) => (final(self)@, r@) == dispatched(
                    old(self)@,
                    request@,
                    conn_id,
                    now_ms,
                ),
            },
    {
        let request = match parsed {
            Ok(r) => r,
            Err(e) => {
                let id = "";
                proof {
                    reveal_strlit("");
                }
                assert(id@ =~= Seq::<char>::empty());
                return Step::Answer(
                    Response::refuse(
                        id,
                        "malformed JSON: ".to_owned().concat(e.as_str()).as_str(),
                    ),
                );
            },
        };
        let method = request.method.as_str();
        if text::same_text(method, "health") {
            self.handle_health(&request, now_ms)
        } else if text::same_text(method, "get_battery_voltage") {
            self.handle_get_battery_voltage(&request)
        } else if text::same_text(method, "read_adc") {
            self.handle_read_adc(&request)
        } else if text::same_text(method, "read_gpio") {
            self.handle_read_gpio(&request)
        } else if text::same_text(method, "write_gpio") {
            self.handle_write_gpio(&request)
        } else if text::same_text(method, "reset_mcu") {
            self.handle_reset_mcu(&request, now_ms)
        } else if text::same_text(method, "get_mcu_status") {
            self.handle_get_mcu_status(&request, now_ms)
        } else if text::same_text(method, "set_servo_pulse_us") {
            self.handle_set_servo_pulse_us(&request, conn_id)
        } else if text::same_text(method, "set_servo_angle") {
            self.handle_set_servo_angle(&request, conn_id)
        } else if text::same_text(method, "get_servo_status") {
            self.handle_get_servo_status(&request, now_ms)
        } else if text::same_text(method, "steer") {
            self.handle_steer(&request, conn_id)
        } else if text::same_text(method, "pan_camera") {
            self.handle_pan_camera(&request, conn_id)
        } else if text::same_text(method, "tilt_camera") {
            self.handle_tilt_camera(&request, conn_id)
        } else if text::same_text(method, "set_motor_speed") {
            self.handle_set_motor_speed(&request, conn_id)
        } else if text::same_text(method, "stop_all_motors") {
            self.handle_stop_all_motors(&request)
        } else if text::same_text(method, "get_motor_status") {
            self.handle_get_motor_status(&request, now_ms)
        } else if text::same_text(method, "drive") {
            self.handle_drive(&request, conn_id)
        } else if text::same_text(method, "read_grayscale") {
            self.handle_read_grayscale(&request)
        } else if text::same_text(method, "read_ultrasonic") {
            self.handle_read_ultrasonic(&request)
        } else if text::same_text(method, "enable_speaker") {
            self.handle_enable_speaker(&request)
        } else if text::same_text(method, "disable_speaker") {
            self.handle_disable_speaker(&request)
        } else if text::same_text(method, "set_volume") {
            self.handle_set_volume(&request)
        } else if text::same_text(method, "get_volume") {
            self.handle_get_volume(&request)
        } else if text::same_text(method, "set_mic_gain") {
            self.handle_set_mic_gain(&request)
        } else if text::same_text(method, "get_mic_gain") {
            self.handle_get_mic_gain(&request)
        } else if text::same_text(method, "get_calibration") {
            self.handle_get_calibration(&request)
        } else if text::same_text(method, "set_motor_calibration") {
            self.handle_set_motor_calibration(&request)
        } else if text::same_text(method, "set_servo_calibration") {
            self.handle_set_servo_calibration(&request)
        } else if text::same_text(method, "calibrate_grayscale") {
            self.handle_calibrate_grayscale(&request)
        } else if text::same_text(method, "read_grayscale_normalized") {
            self.handle_read_grayscale_normalized(&request)
        } else if text::same_text(method, "save_calibration") {
            self.handle_save_calibration(&request)
        } else if text::same_text(method, "reset_calibration") {
            self.handle_reset_calibration(&request)
        } else if text::same_text(method, "start_routine") {
            self.handle_start_routine(&request)
        } else if text::same_text(method, "stop_routine") {
            self.handle_stop_routine(&request)
        } else if text::same_text(method, "get_routine_status") {
            self.handle_get_routine_status(&request)
        } else {
            Step::Answer(
                Response::err(
                    request.id.clone(),
                    "UNKNOWN_METHOD",
                    "method '".to_owned().concat(method).concat("' not recognized"),
                ),
            )
        }
    }
}

} // verus!
