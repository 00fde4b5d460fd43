use webcam_visca::actor::{AutoCamera, CamCmd, Follow, PanTilt, Preset, Ratio, Reply, StoreOp};
use webcam_visca::camera::{CamCtrl, CtrlWrite};
use webcam_visca::control::{CamControl, ControlType, Description};
use webcam_visca::error::UVIError;
use webcam_visca::uvc_mock::mock_find_camera;

fn ctrl(min: i64, max: i64, value: i64) -> CamCtrl {
    let d = Description { typ: ControlType::Integer, minimum: min, maximum: max, step: 1, default: 0 };
    CamCtrl::init(&d, value).unwrap()
}

fn mock_camera() -> AutoCamera {
    AutoCamera::new(
        ctrl(-612000, 612000, 0),
        ctrl(-108000, 108000, 0),
        ctrl(0, 5680, 0),
        ctrl(0, 1, 1),
        ctrl(0, 2900, 0),
        ctrl(0, 1, 1),
        ctrl(2500, 8000, 6500),
    )
}

fn in_range(c: &CamCtrl) -> bool {
    c.minimum <= c.value && c.value <= c.maximum
}

fn all_in_range(cam: &AutoCamera) -> bool {
    in_range(&cam.pantilt.pan)
        && in_range(&cam.pantilt.tilt)
        && in_range(&cam.zoom.zoom)
        && in_range(&cam.focus.auto)
        && in_range(&cam.focus.focus)
        && in_range(&cam.whitebal.auto)
        && in_range(&cam.whitebal.temp)
}

#[test]
fn control_init_clamps_and_refuses_empty_range() {
    let d = Description { typ: ControlType::Integer, minimum: 0, maximum: 10, step: 1, default: 0 };
    assert_eq!(CamCtrl::init(&d, 42).unwrap().value, 10);
    assert_eq!(CamCtrl::init(&d, -3).unwrap().value, 0);
    let bad = Description { typ: ControlType::Integer, minimum: 5, maximum: 1, step: 1, default: 0 };
    assert_eq!(CamCtrl::init(&bad, 3).err(), Some(UVIError::CamControlNotFound));
}

#[test]
fn control_set_clamps() {
    let mut c = ctrl(-10, 10, 0);
    c.set(100);
    assert_eq!(c.value, 10);
    c.set(-100);
    assert_eq!(c.value, -10);
    c.set(3);
    assert_eq!(c.value, 3);
}

#[test]
fn clamp_holds_over_a_command_sequence() {
    let mut cam = mock_camera();
    let cmds = [
        CamCmd::MoveAbsolute(PanTilt { pan: 700000, tilt: -900000 }),
        CamCmd::MoveRelative(PanTilt { pan: i64::MAX, tilt: i64::MIN }),
        CamCmd::ZoomDirect(Ratio { num: 3, den: 1 }),
        CamCmd::FocusDirect(Ratio { num: -5, den: 2 }),
        CamCmd::WhiteBalanceMode(1),
        CamCmd::ZoomContinuous(Ratio { num: 1, den: 1 }),
        CamCmd::Home,
    ];
    for c in cmds.iter() {
        cam.run_ev(*c).unwrap();
        assert!(all_in_range(&cam));
        cam.zoom_tick(cam.zoom.zoom.value);
        assert!(all_in_range(&cam));
    }
    assert_eq!(cam.pantilt.pan.value, 0);
    assert_eq!(cam.zoom.zoom.value, 0);
}

#[test]
fn absolute_commands_zero_speeds() {
    let mut cam = mock_camera();
    cam.run_ev(CamCmd::MoveContinuous(PanTilt { pan: 28800, tilt: 7200 })).unwrap();
    cam.run_ev(CamCmd::ZoomContinuous(Ratio { num: 1, den: 1 })).unwrap();
    cam.run_ev(CamCmd::FocusContinuous(Ratio { num: -1, den: 1 })).unwrap();
    assert_eq!(cam.zoom.zoomspeed, 284);
    assert_eq!(cam.focus.focusspeed, -145);
    cam.run_ev(CamCmd::MoveAbsolute(PanTilt { pan: 1000, tilt: 2000 })).unwrap();
    assert_eq!(cam.pantilt.panspeed, 0);
    assert_eq!(cam.pantilt.tiltspeed, 0);
    cam.run_ev(CamCmd::ZoomDirect(Ratio { num: 0x2000, den: 0x4000 })).unwrap();
    assert_eq!(cam.zoom.zoomspeed, 0);
    assert_eq!(cam.zoom.zoom.value, 2840);
    cam.run_ev(CamCmd::FocusDirect(Ratio { num: 1, den: 2 })).unwrap();
    assert_eq!(cam.focus.focusspeed, 0);
    assert_eq!(cam.focus.focus.value, 1450);
}

#[test]
fn zoom_speed_rounds_down() {
    let mut cam = mock_camera();
    cam.run_ev(CamCmd::ZoomContinuous(Ratio { num: -1, den: 8 })).unwrap();
    // 5680 * -1/8 / 20 = -35.5
    assert_eq!(cam.zoom.zoomspeed, -36);
}

#[test]
fn relative_move_to_a_limit_brakes() {
    let mut cam = mock_camera();
    cam.run_ev(CamCmd::MoveContinuous(PanTilt { pan: 28800, tilt: -7200 })).unwrap();
    let out = cam.run_ev(CamCmd::MoveRelative(PanTilt { pan: 1_000_000, tilt: 10 })).unwrap();
    assert_eq!(cam.pantilt.pan.value, 612000);
    assert_eq!(cam.pantilt.panspeed, 0);
    assert_eq!(cam.pantilt.tiltspeed, -7200);
    assert_eq!(
        out.writes,
        vec![
            CtrlWrite { ctrl: CamControl::PanAbsolute, value: 612000 },
            CtrlWrite { ctrl: CamControl::TiltAbsolute, value: 10 },
        ]
    );
}

#[test]
fn continuous_pan_waits_for_a_lagging_actuator() {
    let mut cam = mock_camera();
    let req = webcam_visca::visca::data_received(&[0x81, 0x01, 0x06, 0x01, 0x08, 0x00, 0x01, 0x03]);
    let cmd = match req {
        webcam_visca::visca::Request::Command(Some(c)) => c,
        _ => panic!("not a command"),
    };
    assert_eq!(cmd, CamCmd::MoveContinuous(PanTilt { pan: -8 * 3600, tilt: 0 }));
    let out = cam.run_ev(cmd).unwrap();
    assert_eq!(out.follow, Follow::PanTiltTick);
    // The actuator keeps up: each tick moves a twentieth of the speed.
    for _ in 0..20 {
        let phys = cam.pantilt.pan.value;
        cam.pan_tilt_tick(phys, 0);
    }
    assert_eq!(cam.pantilt.pan.value, -28800);
    // The actuator trails by three degrees: the commanded value waits.
    let commanded = cam.pantilt.pan.value;
    let writes = cam.pan_tilt_tick(commanded + 3 * 3600, 0);
    assert_eq!(cam.pantilt.pan.value, commanded);
    assert_eq!(cam.pantilt.panspeed, -28800);
    assert_eq!(writes.len(), 2);
}

#[test]
fn preset_save_and_recover() {
    let mut cam = mock_camera();
    let mut stored: Option<(u8, u8, Preset)> = None;
    cam.run_ev(CamCmd::SetPresetNcam(0)).unwrap();
    cam.run_ev(CamCmd::MoveAbsolute(PanTilt { pan: 5 * 3600, tilt: -3 * 3600 })).unwrap();
    let out = cam.run_ev(CamCmd::RecordPreset(1)).unwrap();
    if let Some(StoreOp::Record(ncam, slot, p)) = out.store {
        stored = Some((ncam, slot, p));
    }
    cam.run_ev(CamCmd::Home).unwrap();
    assert_eq!(cam.pantilt.pan.value, 0);
    let out = cam.run_ev(CamCmd::RecoverPreset(1)).unwrap();
    assert_eq!(out.store, Some(StoreOp::Recover(0, 1)));
    let (ncam, slot, p) = stored.unwrap();
    assert_eq!((ncam, slot), (0, 1));
    cam.apply_preset(&p);
    assert_eq!(cam.pantilt.pan.value, 18000);
    assert_eq!(cam.pantilt.tilt.value, -10800);
}

#[test]
fn preset_commands_need_a_binding() {
    let mut cam = mock_camera();
    assert_eq!(cam.run_ev(CamCmd::ResetPreset(2)).err(), Some(UVIError::CameraNotFound));
    assert_eq!(cam.run_ev(CamCmd::RecoverPreset(2)).err(), Some(UVIError::CameraNotFound));
    cam.run_ev(CamCmd::SetPresetNcam(4)).unwrap();
    let out = cam.run_ev(CamCmd::ResetPreset(2)).unwrap();
    assert_eq!(out.store, Some(StoreOp::Clear(4, 2)));
}

#[test]
fn white_balance_modes() {
    let mut cam = mock_camera();
    let out = cam.run_ev(CamCmd::WhiteBalanceMode(1)).unwrap();
    assert_eq!(cam.whitebal.auto.value, 0);
    assert_eq!(cam.whitebal.temp.value, 3200);
    assert_eq!(
        out.writes,
        vec![
            CtrlWrite { ctrl: CamControl::WhiteBalanceTemperatureAuto, value: 0 },
            CtrlWrite { ctrl: CamControl::WhiteBalanceTemperature, value: 3200 },
        ]
    );
    let out = cam.run_ev(CamCmd::QueryWhiteBalanceMode).unwrap();
    assert_eq!(out.reply, Some(Reply::WhiteBalanceMode(1)));
    cam.run_ev(CamCmd::WhiteBalanceMode(2)).unwrap();
    assert_eq!(cam.whitebal.temp.value, 5800);
    cam.run_ev(CamCmd::WhiteBalanceMode(0)).unwrap();
    assert_eq!(cam.whitebal.auto.value, 1);
    assert_eq!(cam.whitebal.temp.value, 6500);
    let out = cam.run_ev(CamCmd::WhiteBalanceMode(7)).unwrap();
    assert!(out.writes.is_empty());
}

#[test]
fn focus_toggle_and_query() {
    let mut cam = mock_camera();
    let out = cam.run_ev(CamCmd::AutoFocusToggle).unwrap();
    assert_eq!(cam.focus.auto.value, 0);
    assert_eq!(out.writes.len(), 2);
    let out = cam.run_ev(CamCmd::QueryFocusMode).unwrap();
    assert_eq!(out.reply, Some(Reply::FocusMode(false)));
    cam.run_ev(CamCmd::AutoFocus(true)).unwrap();
    let out = cam.run_ev(CamCmd::QueryFocusMode).unwrap();
    assert_eq!(out.reply, Some(Reply::FocusMode(true)));
}

#[test]
fn zoom_tick_advances_and_stops_at_the_limit() {
    let mut cam = mock_camera();
    cam.run_ev(CamCmd::ZoomContinuous(Ratio { num: 1, den: 1 })).unwrap();
    let w = cam.zoom_tick(0);
    assert_eq!(w, vec![CtrlWrite { ctrl: CamControl::ZoomAbsolute, value: 284 }]);
    // A lagging zoom actuator holds the commanded value.
    let w = cam.zoom_tick(284 + 600);
    assert!(w.is_empty());
    assert_eq!(cam.zoom.zoom.value, 284);
    for _ in 0..30 {
        let phys = cam.zoom.zoom.value;
        cam.zoom_tick(phys);
    }
    assert_eq!(cam.zoom.zoom.value, 5680);
    assert_eq!(cam.zoom.zoomspeed, 0);
}

fn camera_from_mock(ncam: u8) -> AutoCamera {
    let (dev, _card, _bus) = mock_find_camera(ncam).unwrap();
    let ctrl_of = |c: CamControl| {
        let d = dev.get_ctrl_descr(c).unwrap();
        CamCtrl::init(&d, dev.get_ctrl(c).unwrap()).unwrap()
    };
    AutoCamera::new(
        ctrl_of(CamControl::PanAbsolute),
        ctrl_of(CamControl::TiltAbsolute),
        ctrl_of(CamControl::ZoomAbsolute),
        ctrl_of(CamControl::FocusAuto),
        ctrl_of(CamControl::FocusAbsolute),
        ctrl_of(CamControl::WhiteBalanceTemperatureAuto),
        ctrl_of(CamControl::WhiteBalanceTemperature),
    )
}

#[test]
fn mock_camera_ranges_and_lag() {
    let mut cam = camera_from_mock(0);
    assert_eq!(cam.pantilt.pan.minimum, -612000);
    assert_eq!(cam.pantilt.pan.maximum, 612000);
    assert_eq!(cam.whitebal.temp.value, 2500);
    cam.run_ev(CamCmd::MoveContinuous(PanTilt { pan: -8 * 3600, tilt: 0 })).unwrap();
    cam.pan_tilt_tick(0, 0);
    let commanded = cam.pantilt.pan.value;
    assert_eq!(commanded, -1440);
    cam.pan_tilt_tick(commanded + 10800, 0);
    assert_eq!(cam.pantilt.pan.value, commanded);
    assert_ne!(cam.pantilt.panspeed, 0);
}

#[test]
fn mock_device_controls() {
    assert!(mock_find_camera(3).is_err());
    let (mut dev, card, bus) = mock_find_camera(2).unwrap();
    assert_eq!(card, "mock");
    assert_eq!(bus, "#2");
    assert_eq!(dev.get_ctrl(CamControl::ZoomAbsolute).unwrap(), 0);
    dev.set_ctrl(CamControl::ZoomAbsolute, 1234).unwrap();
    assert_eq!(dev.get_ctrl(CamControl::ZoomAbsolute).unwrap(), 1234);
    dev.set_ctrl(CamControl::PanAbsolute, 0x1_0000_0005).unwrap();
    assert_eq!(dev.get_ctrl(CamControl::PanAbsolute).unwrap(), 5);
    dev.set_ctrl(CamControl::FocusAuto, 7).unwrap();
    assert_eq!(dev.get_ctrl(CamControl::FocusAuto).unwrap(), 1);
    assert!(dev.take_changed());
    assert!(!dev.take_changed());
    assert_eq!(dev.get_ctrl_descr(CamControl::FocusAuto).unwrap().typ, ControlType::Boolean);
    assert_eq!(CamControl::FocusAuto.name(), "focus_automatic_continuous");
}
