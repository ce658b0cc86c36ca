use motoc::devices::{
    CalibratorData, Device, LookupError, OffsetType, ResumeError, ResumePlan, SavedCalibration,
    SelectError, TrackingOrigin,
};
use motoc::sampled::HandOff;

fn device(serial: &str, tracking_origin: u32) -> Device {
    Device { name: format!("dev {serial}"), serial: serial.to_string(), index: 0, tracking_origin }
}

fn data() -> CalibratorData {
    CalibratorData {
        tracking_origins: vec![
            TrackingOrigin { id: 0, name: "Lighthouse".to_string() },
            TrackingOrigin { id: 1, name: "Quest".to_string() },
        ],
        devices: vec![
            device("HMD", 1),
            device("LHR-1", 0),
            device("LHR-2", 0),
            device("LOST", 7),
            device("LHR-1", 1),
        ],
    }
}

fn record(offset_type: OffsetType, src: &str, dst: &str) -> SavedCalibration<u8> {
    SavedCalibration { offset_type, src: src.to_string(), dst: dst.to_string(), offset: 0 }
}

#[test]
fn find_device_gives_first_match() {
    let d = data();
    assert_eq!(d.find_device("HMD"), Some(0));
    assert_eq!(d.find_device("LHR-1"), Some(1));
    assert_eq!(d.find_device("lhr-1"), None);
    assert_eq!(d.find_device(""), None);
}

#[test]
fn device_origin_lookup() {
    let d = data();
    assert_eq!(d.get_device_origin(0), Ok(1));
    assert_eq!(d.get_device_origin(2), Ok(0));
    assert_eq!(d.get_device_origin(3), Err(LookupError::NoSuchTrackingOrigin(7)));
    assert_eq!(d.get_device_origin(5), Err(LookupError::NoSuchDevice(5)));
}

#[test]
fn pair_selection() {
    let d = data();
    assert_eq!(d.select_pair("HMD", "LHR-2"), Ok((0, 2)));
    assert_eq!(d.select_pair("X", "LHR-2"), Err(SelectError::NoSuchSource));
    assert_eq!(d.select_pair("HMD", "X"), Err(SelectError::NoSuchDestination));
    assert_eq!(d.select_pair("LHR-1", "LHR-2"), Err(SelectError::SameTrackingOrigin));
}

#[test]
fn devices_grouped_by_origin() {
    let d = data();
    assert_eq!(d.devices_of_origin(0), vec![1, 2]);
    assert_eq!(d.devices_of_origin(1), vec![0, 4]);
    assert!(d.devices_of_origin(3).is_empty());
}

#[test]
fn calibration_records_use_names_or_serials() {
    let d = data();
    let r = d.calibration_record(1, 0, 42u8, OffsetType::TrackingOrigin);
    assert_eq!(r.offset_type, OffsetType::TrackingOrigin);
    assert_eq!((r.src.as_str(), r.dst.as_str(), r.offset), ("Quest", "Lighthouse", 42));
    let r = d.calibration_record(0, 2, 7u8, OffsetType::Device);
    assert_eq!(r.offset_type, OffsetType::Device);
    assert_eq!((r.src.as_str(), r.dst.as_str(), r.offset), ("HMD", "LHR-2", 7));
}

#[test]
fn resume_tracking_origin_record() {
    let d = data();
    assert_eq!(
        d.plan_resume(&record(OffsetType::TrackingOrigin, "Quest", "Lighthouse")),
        Ok(ResumePlan::ApplyOnce { src: Some(1), dst: 0 })
    );
    assert_eq!(
        d.plan_resume(&record(OffsetType::TrackingOrigin, "Gone", "Lighthouse")),
        Ok(ResumePlan::ApplyOnce { src: None, dst: 0 })
    );
    assert_eq!(
        d.plan_resume(&record(OffsetType::TrackingOrigin, "Quest", "Gone")),
        Err(ResumeError::NoSuchTrackingOrigin)
    );
}

#[test]
fn resume_device_record() {
    let d = data();
    assert_eq!(
        d.plan_resume(&record(OffsetType::Device, "HMD", "LHR-2")),
        Ok(ResumePlan::Maintain(HandOff { device_a: 0, device_b: 2 }))
    );
    assert_eq!(
        d.plan_resume(&record(OffsetType::Device, "X", "LHR-2")),
        Err(ResumeError::NoSuchSourceDevice)
    );
    assert_eq!(
        d.plan_resume(&record(OffsetType::Device, "HMD", "X")),
        Err(ResumeError::NoSuchDestinationDevice)
    );
}

#[test]
fn spaces_matched_to_devices() {
    let spaces: Vec<String> = ["A", "B", "A", "C"].iter().map(|s| s.to_string()).collect();
    let devices: Vec<String> = ["B", "A", "D", "A", "C"].iter().map(|s| s.to_string()).collect();
    assert_eq!(
        motoc::devices::match_spaces(&spaces, &devices),
        vec![Some(1), Some(2), None, None, Some(3)]
    );
    assert!(motoc::devices::match_spaces(&spaces, &Vec::new()).is_empty());
    assert_eq!(motoc::devices::match_spaces(&Vec::new(), &devices), vec![None; 5]);
}
