use headset_battery_indicator::headset_control::{
    product_name_from_bytes, unavailable_battery, BatteryStatus, Capability, ControlCapabilities,
    ControlError, ControlEvent, ControlFailure, ControlRequest, ControlSession, ControlStep, Device,
    DeviceQuery, HscBattery, QueryEvent, QueryStep,
};
use headset_battery_indicator::lang::Key;

fn battery(level: i32, status: BatteryStatus) -> HscBattery {
    HscBattery {
        level_percent: level,
        status,
        voltage_mv: 3900,
        time_to_full_min: 40,
        time_to_empty_min: 600,
    }
}

fn device(name: &str, level: i32, status: BatteryStatus) -> Device {
    Device {
        product_name: name.to_string(),
        battery: battery(level, status),
        capabilities: ControlCapabilities::default(),
    }
}

#[test]
fn capability_bits() {
    assert_eq!(Capability::Sidetone.bit(), 1);
    assert_eq!(Capability::BatteryStatus.bit(), 2);
    assert_eq!(Capability::InactiveTime.bit(), 16);
    assert_eq!(Capability::MicrophoneMuteLedBrightness.bit(), 2048);
    assert_eq!(Capability::MicrophoneMuteLedBrightness.code(), 11);
}

#[test]
fn capabilities_from_mask_reads_each_bit() {
    let all = ControlCapabilities::from_mask(1 | 16 | 2048);
    assert_eq!(
        all,
        ControlCapabilities { sidetone: true, microphone_light: true, inactive_time: true }
    );
    let battery_only = ControlCapabilities::from_mask(2);
    assert_eq!(battery_only, ControlCapabilities::default());
    assert!(!battery_only.has_controls());
    let sidetone_only = ControlCapabilities::from_mask(1 | 2);
    assert!(sidetone_only.sidetone && !sidetone_only.microphone_light && !sidetone_only.inactive_time);
    assert!(sidetone_only.has_controls());
    let everything = ControlCapabilities::from_mask(-1);
    assert!(everything.sidetone && everything.microphone_light && everything.inactive_time);
}

#[test]
fn has_controls_needs_one_feature() {
    assert!(!ControlCapabilities::default().has_controls());
    assert!(ControlCapabilities { inactive_time: true, ..Default::default() }.has_controls());
    assert!(ControlCapabilities { microphone_light: true, ..Default::default() }.has_controls());
}

#[test]
fn unavailable_battery_values() {
    let b = unavailable_battery();
    assert_eq!(b.level_percent, 0);
    assert_eq!(b.status, BatteryStatus::Unavailable);
    assert_eq!((b.voltage_mv, b.time_to_full_min, b.time_to_empty_min), (-1, -1, -1));
}

#[test]
fn product_name_from_utf8_bytes() {
    assert_eq!(product_name_from_bytes(Some(b"Arctis Nova 7")), "Arctis Nova 7");
    assert_eq!(product_name_from_bytes(Some("Kopfhörer".as_bytes())), "Kopfhörer");
    assert_eq!(product_name_from_bytes(Some(b"")), "");
}

#[test]
fn product_name_unknown_when_missing_or_invalid() {
    assert_eq!(product_name_from_bytes(None), "Unknown");
    assert_eq!(product_name_from_bytes(Some(&[0x48, 0xff, 0x49])), "Unknown");
    assert_eq!(product_name_from_bytes(Some(&[0xed, 0xa0, 0x80])), "Unknown");
}

#[test]
fn status_text_for_each_status() {
    assert_eq!(device("H", 10, BatteryStatus::Charging).status_text(), Some(Key::DeviceCharging));
    assert_eq!(device("H", 10, BatteryStatus::Available).status_text(), None);
    assert_eq!(
        device("H", 10, BatteryStatus::Unavailable).status_text(),
        Some(Key::BatteryUnavailable)
    );
    assert_eq!(
        device("H", 10, BatteryStatus::HidError).status_text(),
        Some(Key::DeviceDisconnected)
    );
    assert_eq!(
        device("H", 10, BatteryStatus::Timeout).status_text(),
        Some(Key::DeviceDisconnected)
    );
}

#[test]
fn display_text_with_level_and_status() {
    assert_eq!(device("Arctis", 75, BatteryStatus::Available).display_text(None), "Arctis: 75%");
    assert_eq!(
        device("Arctis", 50, BatteryStatus::Charging).display_text(Some("Charging")),
        "Arctis: 50% Charging"
    );
    assert_eq!(
        device("Arctis", 0, BatteryStatus::Unavailable).display_text(Some("Battery unavailable")),
        "Arctis Battery unavailable"
    );
    assert_eq!(device("Arctis", -1, BatteryStatus::Available).display_text(None), "Arctis");
    assert_eq!(device("G", 100, BatteryStatus::Available).display_text(None), "G: 100%");
}

#[test]
fn request_levels_and_capabilities() {
    assert_eq!(ControlRequest::Sidetone(true).level(), 128);
    assert_eq!(ControlRequest::Sidetone(false).level(), 0);
    assert_eq!(ControlRequest::MicrophoneLight(true).level(), 3);
    assert_eq!(ControlRequest::MicrophoneLight(false).level(), 0);
    assert_eq!(ControlRequest::InactiveTime(15).level(), 15);
    assert_eq!(ControlRequest::Sidetone(true).capability(), Capability::Sidetone);
    assert_eq!(
        ControlRequest::MicrophoneLight(true).capability(),
        Capability::MicrophoneMuteLedBrightness
    );
    assert_eq!(ControlRequest::InactiveTime(5).capability(), Capability::InactiveTime);
    assert_eq!(ControlRequest::InactiveTime(5).action_description(), "setting inactive time");
}

#[test]
fn control_session_without_headset() {
    let (s, step) = ControlSession::start(ControlRequest::Sidetone(true));
    assert!(matches!(step, ControlStep::Discover));
    let (s, step) = s.advance(ControlEvent::Discovered { count: 0, headsets_null: false });
    assert!(matches!(s, ControlSession::Finished));
    assert!(matches!(step, ControlStep::Finish { result: Err(ControlError::NoHeadset) }));
    let (_, step) = ControlSession::start(ControlRequest::Sidetone(true))
        .0
        .advance(ControlEvent::Discovered { count: 2, headsets_null: true });
    assert!(matches!(step, ControlStep::Finish { result: Err(ControlError::NoHeadset) }));
}

#[test]
fn control_session_success() {
    let request = ControlRequest::MicrophoneLight(true);
    let (s, _) = ControlSession::start(request);
    let (s, step) = s.advance(ControlEvent::Discovered { count: 2, headsets_null: false });
    assert!(matches!(
        step,
        ControlStep::CheckSupport { capability: Capability::MicrophoneMuteLedBrightness }
    ));
    let (s, step) = s.advance(ControlEvent::SupportChecked { supported: true });
    assert!(matches!(step, ControlStep::Apply { request: ControlRequest::MicrophoneLight(true) }));
    let (s, step) = s.advance(ControlEvent::Applied { code: 0 });
    assert!(matches!(step, ControlStep::Release { count: 2 }));
    let (s, step) = s.advance(ControlEvent::Released);
    assert!(matches!(s, ControlSession::Finished));
    assert!(matches!(step, ControlStep::Finish { result: Ok(()) }));
}

#[test]
fn control_session_unsupported_releases_and_fails() {
    let (s, _) = ControlSession::start(ControlRequest::InactiveTime(30));
    let (s, _) = s.advance(ControlEvent::Discovered { count: 1, headsets_null: false });
    let (s, step) = s.advance(ControlEvent::SupportChecked { supported: false });
    assert!(matches!(step, ControlStep::Release { count: 1 }));
    let (_, step) = s.advance(ControlEvent::Released);
    match step {
        ControlStep::Finish { result: Err(err) } => {
            assert_eq!(
                err,
                ControlError::Failed {
                    request: ControlRequest::InactiveTime(30),
                    failure: ControlFailure::Unsupported
                }
            );
            assert_eq!(err.context_text(), "setting inactive time");
            assert_eq!(err.cause_text().as_deref(), Some("capability is not supported"));
        }
        other => panic!("unexpected step {other:?}"),
    }
}

#[test]
fn control_session_error_code() {
    let (s, _) = ControlSession::start(ControlRequest::Sidetone(false));
    let (s, _) = s.advance(ControlEvent::Discovered { count: 3, headsets_null: false });
    let (s, _) = s.advance(ControlEvent::SupportChecked { supported: true });
    let (s, step) = s.advance(ControlEvent::Applied { code: -5 });
    assert!(matches!(step, ControlStep::Release { count: 3 }));
    let (_, step) = s.advance(ControlEvent::Released);
    match step {
        ControlStep::Finish { result: Err(err) } => {
            assert_eq!(err.context_text(), "setting sidetone");
            assert_eq!(err.cause_text().as_deref(), Some("HeadsetControl returned -5"));
        }
        other => panic!("unexpected step {other:?}"),
    }
}

#[test]
fn control_error_texts() {
    assert_eq!(ControlError::NoHeadset.context_text(), "discovering headset");
    assert_eq!(ControlError::NoHeadset.cause_text(), None);
    let err = ControlError::Failed {
        request: ControlRequest::MicrophoneLight(false),
        failure: ControlFailure::Returned(12),
    };
    assert_eq!(err.context_text(), "setting microphone light");
    assert_eq!(err.cause_text().as_deref(), Some("HeadsetControl returned 12"));
    let err = ControlError::Failed {
        request: ControlRequest::Sidetone(true),
        failure: ControlFailure::Returned(i32::MIN),
    };
    assert_eq!(err.cause_text().as_deref(), Some("HeadsetControl returned -2147483648"));
}

#[test]
fn accepts_event_matches_step() {
    let (s, _) = ControlSession::start(ControlRequest::Sidetone(true));
    assert!(s.accepts_event(&ControlEvent::Discovered { count: 1, headsets_null: false }));
    assert!(!s.accepts_event(&ControlEvent::Released));
    let (q, _) = DeviceQuery::start();
    assert!(q.accepts_event(&QueryEvent::Discovered { count: 1, headsets_null: false }));
    assert!(!q.accepts_event(&QueryEvent::Released));
}

#[test]
fn device_query_without_headset() {
    let (q, step) = DeviceQuery::start();
    assert!(matches!(step, QueryStep::Discover));
    let (q, step) = q.advance(QueryEvent::Discovered { count: -1, headsets_null: false });
    assert!(matches!(q, DeviceQuery::Finished));
    assert!(matches!(step, QueryStep::Finish { device: None }));
}

#[test]
fn device_query_reads_battery_when_supported() {
    let (q, _) = DeviceQuery::start();
    let (q, step) = q.advance(QueryEvent::Discovered { count: 1, headsets_null: false });
    assert!(matches!(step, QueryStep::ReadDevice));
    let (q, step) = q.advance(QueryEvent::DeviceRead {
        product_name: product_name_from_bytes(Some(b"Cloud II")),
        capability_mask: 1 | 2 | 16,
        battery_supported: true,
    });
    assert!(matches!(step, QueryStep::ReadBattery));
    let reading = battery(80, BatteryStatus::Available);
    let (q, step) = q.advance(QueryEvent::BatteryRead { code: 0, battery: reading });
    assert!(matches!(step, QueryStep::Release { count: 1 }));
    let (_, step) = q.advance(QueryEvent::Released);
    match step {
        QueryStep::Finish { device: Some(d) } => {
            assert_eq!(d.product_name, "Cloud II");
            assert_eq!(d.battery, reading);
            assert_eq!(
                d.capabilities,
                ControlCapabilities { sidetone: true, microphone_light: false, inactive_time: true }
            );
            assert_eq!(d.display_text(None), "Cloud II: 80%");
        }
        other => panic!("unexpected step {other:?}"),
    }
}

#[test]
fn device_query_failed_battery_read_is_unavailable() {
    let (q, _) = DeviceQuery::start();
    let (q, _) = q.advance(QueryEvent::Discovered { count: 4, headsets_null: false });
    let (q, _) = q.advance(QueryEvent::DeviceRead {
        product_name: "H".to_string(),
        capability_mask: 2,
        battery_supported: true,
    });
    let (q, step) =
        q.advance(QueryEvent::BatteryRead { code: 1, battery: battery(90, BatteryStatus::Charging) });
    assert!(matches!(step, QueryStep::Release { count: 4 }));
    let (_, step) = q.advance(QueryEvent::Released);
    match step {
        QueryStep::Finish { device: Some(d) } => assert_eq!(d.battery, unavailable_battery()),
        other => panic!("unexpected step {other:?}"),
    }
}

#[test]
fn device_query_without_battery_support_skips_read() {
    let (q, _) = DeviceQuery::start();
    let (q, _) = q.advance(QueryEvent::Discovered { count: 1, headsets_null: false });
    let (q, step) = q.advance(QueryEvent::DeviceRead {
        product_name: "H".to_string(),
        capability_mask: 2048,
        battery_supported: false,
    });
    assert!(matches!(step, QueryStep::Release { count: 1 }));
    let (_, step) = q.advance(QueryEvent::Released);
    match step {
        QueryStep::Finish { device: Some(d) } => {
            assert_eq!(d.battery, unavailable_battery());
            assert!(d.capabilities.microphone_light);
            assert_eq!(d.status_text(), Some(Key::BatteryUnavailable));
        }
        other => panic!("unexpected step {other:?}"),
    }
}

#[test]
fn battery_status_defaults_to_unavailable() {
    assert_eq!(BatteryStatus::default(), BatteryStatus::Unavailable);
}

#[test]
fn describe_picks_status_text() {
    let texts = ("charging", "no battery", "gone");
    let line = |d: Device| d.describe(texts.0, texts.1, texts.2);
    assert_eq!(line(device("H", 40, BatteryStatus::Charging)), "H: 40% charging");
    assert_eq!(line(device("H", 40, BatteryStatus::Available)), "H: 40%");
    assert_eq!(line(device("H", 0, BatteryStatus::Unavailable)), "H no battery");
    assert_eq!(line(device("H", 0, BatteryStatus::HidError)), "H gone");
    assert_eq!(line(device("H", 7, BatteryStatus::Timeout)), "H: 7% gone");
}
