use webcam_visca::error::UVIError;
use webcam_visca::supervisor::{
    controls_failure, first_port, next_port, open_failure, AllCams, CamsMsgs, ProbeFailure,
};

#[test]
fn probes_inactive_indices() {
    let mut all = AllCams::new();
    assert_eq!(all.cams_to_try(), vec![0, 1, 2, 3, 4, 5, 6, 7]);
    all.insert_cam(0, Some(5678), "usb-1".to_string());
    all.insert_cam(3, None, "usb-2".to_string());
    assert_eq!(all.cams_to_try(), vec![1, 2, 4, 5, 6, 7]);
    assert!(all.is_active(3));
}

#[test]
fn ports() {
    assert_eq!(first_port(0), 5678);
    assert_eq!(first_port(2), 5680);
    assert_eq!(next_port(5680), Some(5681));
    assert_eq!(next_port(5700), None);
}

#[test]
fn probe_failures() {
    assert_eq!(open_failure(UVIError::CameraNotFound), ProbeFailure::Skip);
    assert_eq!(open_failure(UVIError::IoError), ProbeFailure::Skip);
    assert_eq!(open_failure(UVIError::AsyncChannelClosed), ProbeFailure::Abort);
    assert_eq!(controls_failure(UVIError::CamControlNotFound), ProbeFailure::PlainWebcam);
    assert_eq!(controls_failure(UVIError::IoError), ProbeFailure::Skip);
    assert_eq!(controls_failure(UVIError::BadDirs), ProbeFailure::Abort);
}

#[test]
fn connection_counts_and_death() {
    let mut all = AllCams::new();
    all.insert_cam(1, Some(5679), "usb".to_string());
    all.handle_msg(CamsMsgs::NewViscaConnection(1));
    all.handle_msg(CamsMsgs::NewViscaConnection(1));
    all.handle_msg(CamsMsgs::LostViscaConnection(1));
    all.handle_msg(CamsMsgs::TeleportNumConnections(1, 4));
    all.handle_msg(CamsMsgs::NewViscaConnection(5));
    assert_eq!(all.entries()[0].ncnx, 1);
    assert_eq!(all.entries()[0].nstream, 4);
    all.handle_msg(CamsMsgs::NCamDead(1));
    assert!(all.entries().is_empty());
    assert_eq!(all.cams_to_try(), vec![0, 1, 2, 3, 4, 5, 6, 7]);
}

#[test]
fn death_and_insert_leave_other_cameras_alone() {
    let mut all = AllCams::new();
    all.insert_cam(0, Some(5678), "a".to_string());
    all.handle_msg(CamsMsgs::NewViscaConnection(0));
    all.insert_cam(2, Some(5680), "b".to_string());
    all.insert_cam(4, None, "c".to_string());
    all.handle_msg(CamsMsgs::NCamDead(2));
    assert_eq!(all.entries().len(), 2);
    assert_eq!(all.entries()[0].ncnx, 1);
    assert_eq!(all.entries()[0].viscaport, Some(5678));
    assert_eq!(all.entries()[1].ncam, 4);
    assert_eq!(all.entries()[1].bus, "c");
}
