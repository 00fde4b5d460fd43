use webcam_visca::actor::{AutoCamera, CamCmd, PanTilt, Ratio};
use webcam_visca::camera::CamCtrl;
use webcam_visca::control::{ControlType, Description};
use webcam_visca::visca::{data_received, response, send_datagram, Inquiry, Request, ViscaIpCon};

fn ctrl(min: i64, max: i64, value: i64) -> CamCtrl {
    let d = Description { typ: ControlType::Integer, minimum: min, maximum: max, step: 1, default: 0 };
    CamCtrl::init(&d, value).unwrap()
}

fn mock_camera() -> AutoCamera {
    AutoCamera::new(
        ctrl(-612000, 612000, 0),
        ctrl(-108000, 108000, 0),
        ctrl(0, 5680, 0),
        ctrl(0, 1, 1),
        ctrl(0, 2900, 0),
        ctrl(0, 1, 1),
        ctrl(2500, 8000, 6500),
    )
}

/// Feeds `bytes` to a connection and answers each frame as the gateway does.
fn serve(cam: &mut AutoCamera, con: &mut ViscaIpCon, bytes: &[u8]) -> Vec<u8> {
    let mut out = Vec::new();
    for frame in con.process(bytes) {
        let req = data_received(&frame);
        let mut answer = None;
        match req {
            Request::Command(Some(c)) => {
                cam.run_ev(c).unwrap();
            },
            Request::Inquiry(q) => {
                if let Some(c) = q.query() {
                    answer = cam.run_ev(c).unwrap().reply;
                }
            },
            _ => {},
        }
        out.extend(response(&req, answer));
    }
    out
}

#[test]
fn white_balance_mode_command() {
    let mut cam = mock_camera();
    let mut con = ViscaIpCon::new();
    let out = serve(&mut cam, &mut con, &[0x81, 0x01, 0x04, 0x35, 0x01, 0xFF]);
    assert_eq!(cam.whitebal.auto.value, 0);
    assert_eq!(cam.whitebal.temp.value, 3200);
    assert_eq!(out, vec![0x91, 0x41, 0xFF, 0x91, 0x51, 0xFF]);
}

#[test]
fn pan_tilt_inquiry_after_absolute_move() {
    let mut cam = mock_camera();
    cam.run_ev(CamCmd::MoveAbsolute(PanTilt { pan: 3600, tilt: 7200 })).unwrap();
    let mut con = ViscaIpCon::new();
    let out = serve(&mut cam, &mut con, &[0x81, 0x09, 0x06, 0x12, 0xFF]);
    // 3600 * 2359 / 36000 = 235 = 0x000EB; 7200 * 2359 / 36000 = 471 = 0x01D7
    assert_eq!(
        out,
        vec![0x91, 0x50, 0x0, 0x0, 0x0, 0xE, 0xB, 0x0, 0x1, 0xD, 0x7, 0xFF]
    );
}

#[test]
fn framing_across_reads() {
    let mut con = ViscaIpCon::new();
    let frames = con.process(&[0x81, 0x01, 0x06, 0x04, 0xFF, 0x81, 0x09]);
    assert_eq!(frames, vec![vec![0x81, 0x01, 0x06, 0x04]]);
    assert!(!con.overflowed());
    let frames = con.process(&[0x00, 0x02, 0xFF, 0xFF]);
    assert_eq!(frames, vec![vec![0x81, 0x09, 0x00, 0x02], vec![]]);
}

#[test]
fn framing_overflow_closes() {
    let mut con = ViscaIpCon::new();
    let frames = con.process(&[0x81; 200]);
    assert!(frames.is_empty());
    assert!(!con.overflowed());
    con.process(&[0x01]);
    assert!(con.overflowed());
}

#[test]
fn decoding_commands() {
    assert_eq!(data_received(&[0x81]), Request::Ignored);
    assert_eq!(data_received(&[0x82, 0x01, 0x06, 0x04]), Request::Ignored);
    assert_eq!(data_received(&[0x81, 0x01, 0x06, 0x04]), Request::Command(Some(CamCmd::Home)));
    assert_eq!(data_received(&[0x81, 0x01, 0x00, 0x01]), Request::Command(None));
    assert_eq!(
        data_received(&[0x81, 0x01, 0x04, 0x3F, 0x01, 0x05]),
        Request::Command(Some(CamCmd::RecordPreset(5)))
    );
    // Pan right at speed 0x18: 0 (0x18 % 25 = 24) * 3600, doubled twice.
    assert_eq!(
        data_received(&[0x81, 0x01, 0x06, 0x01, 0x18, 0x14, 0x02, 0x02]),
        Request::Command(Some(CamCmd::MoveContinuous(PanTilt { pan: 24 * 3600 * 4, tilt: -20 * 3600 })))
    );
    assert_eq!(
        data_received(&[0x81, 0x01, 0x04, 0x07, 0x23]),
        Request::Command(Some(CamCmd::ZoomContinuous(Ratio { num: 4, den: 8 })))
    );
    assert_eq!(
        data_received(&[0x81, 0x01, 0x04, 0x08, 0x31]),
        Request::Command(Some(CamCmd::FocusContinuous(Ratio { num: -2, den: 8 })))
    );
    assert_eq!(
        data_received(&[0x81, 0x01, 0x04, 0x47, 0x02, 0x00, 0x00, 0x00]),
        Request::Command(Some(CamCmd::ZoomDirect(Ratio { num: 0x2000, den: 0x4000 })))
    );
    assert_eq!(
        data_received(&[0x81, 0x01, 0x04, 0x38, 0x10]),
        Request::Command(Some(CamCmd::AutoFocusToggle))
    );
    assert_eq!(
        data_received(&[0x81, 0x01, 0x04, 0x18, 0x02]),
        Request::Command(Some(CamCmd::FocusDirect(Ratio { num: 0, den: 1 })))
    );
    assert_eq!(
        data_received(&[0x81, 0x01, 0x06, 0x02, 0x00, 0x00, 0, 0, 0x0E, 0x0B, 0xF, 0xF, 0x1, 0x5]),
        Request::Command(Some(CamCmd::MoveAbsolute(PanTilt { pan: 3586, tilt: -3586 })))
    );
    // A command too short for its arguments is acknowledged and dropped.
    assert_eq!(data_received(&[0x81, 0x01, 0x06, 0x02, 0x00]), Request::Command(None));
}

#[test]
fn decoding_inquiries() {
    assert_eq!(data_received(&[0x81, 0x09, 0x00, 0x02]), Request::Inquiry(Inquiry::Version));
    assert_eq!(data_received(&[0x81, 0x09, 0x04, 0x38]), Request::Inquiry(Inquiry::FocusMode));
    assert_eq!(data_received(&[0x81, 0x09, 0x7E, 0x7E, 0x00]), Request::Inquiry(Inquiry::LensBlock));
    assert_eq!(data_received(&[0x81, 0x09, 0x7E, 0x7E, 0x01]), Request::Unsupported);
    assert_eq!(data_received(&[0x81, 0x07, 0x00]), Request::Unsupported);
}

#[test]
fn inquiry_replies() {
    let mut cam = mock_camera();
    let mut con = ViscaIpCon::new();
    let out = serve(&mut cam, &mut con, &[0x81, 0x09, 0x00, 0x02, 0xFF]);
    assert_eq!(out, vec![0x91, 0x50, 0x09, 0x99, 0x00, 0x01, 0x00, 0x01, 0x02, 0xFF]);
    let out = serve(&mut cam, &mut con, &[0x81, 0x09, 0x04, 0x38, 0xFF]);
    assert_eq!(out, vec![0x91, 0x50, 0x02, 0xFF]);
    let out = serve(&mut cam, &mut con, &[0x81, 0x09, 0x04, 0x35, 0xFF]);
    assert_eq!(out, vec![0x91, 0x50, 0x00, 0xFF]);
    let out = serve(&mut cam, &mut con, &[0x81, 0x09, 0x7E, 0x7E, 0x00, 0xFF]);
    assert_eq!(out.len(), 16);
    assert_eq!(out[13], 1);
    let out = serve(&mut cam, &mut con, &[0x81, 0x09, 0x7E, 0x7E, 0x01, 0xFF]);
    assert_eq!(out, vec![0x91, 0x60, 0x02, 0xFF]);
    let out = serve(&mut cam, &mut con, &[0x90, 0x01, 0xFF]);
    assert!(out.is_empty());
}

#[test]
fn datagram_framing() {
    assert_eq!(send_datagram(&[0x41]), vec![0x91, 0x41, 0xFF]);
}
