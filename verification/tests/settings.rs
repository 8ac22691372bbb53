use headset_battery_indicator::settings::{RegistryReading, RegistryValues, Settings};

fn sample() -> Settings {
    Settings {
        notifications_enabled: true,
        use_number_icon: false,
        sidetone_enabled: true,
        microphone_light_enabled: false,
        inactive_time_minutes: 15,
    }
}

#[test]
fn initial_settings_are_off() {
    let s = Settings::initial();
    assert!(!s.notifications_enabled && !s.use_number_icon && !s.sidetone_enabled);
    assert!(!s.microphone_light_enabled);
    assert_eq!(s.inactive_time_minutes, 0);
}

#[test]
fn registry_values_written() {
    assert_eq!(
        sample().to_registry(),
        RegistryValues {
            notifications_enabled: 1,
            use_number_icon: 0,
            sidetone_enabled: 1,
            microphone_light_enabled: 0,
            inactive_time_minutes: 15,
        }
    );
}

#[test]
fn registry_reading_rules() {
    let s = Settings::from_registry(RegistryReading {
        notifications_enabled: Some(2),
        use_number_icon: Some(0),
        sidetone_enabled: None,
        microphone_light_enabled: Some(7),
        inactive_time_minutes: Some(300),
    });
    assert!(s.notifications_enabled);
    assert!(!s.use_number_icon);
    assert!(!s.sidetone_enabled);
    assert!(s.microphone_light_enabled);
    assert_eq!(s.inactive_time_minutes, 255);
    let missing = Settings::from_registry(RegistryReading {
        notifications_enabled: None,
        use_number_icon: None,
        sidetone_enabled: None,
        microphone_light_enabled: None,
        inactive_time_minutes: None,
    });
    assert_eq!(missing, Settings::initial());
}

#[test]
fn registry_round_trip() {
    for minutes in [0u8, 5, 60, 255] {
        let s = Settings { inactive_time_minutes: minutes, ..sample() };
        let v = s.to_registry();
        let back = Settings::from_registry(RegistryReading {
            notifications_enabled: Some(v.notifications_enabled),
            use_number_icon: Some(v.use_number_icon),
            sidetone_enabled: Some(v.sidetone_enabled),
            microphone_light_enabled: Some(v.microphone_light_enabled),
            inactive_time_minutes: Some(v.inactive_time_minutes),
        });
        assert_eq!(back, s);
    }
}

#[test]
fn ini_text_written() {
    assert_eq!(
        sample().to_ini(),
        "NotificationsEnabled=true\nUseNumberIcon=false\nSidetoneEnabled=true\nMicrophoneLightEnabled=false\nInactiveTimeMinutes=15\n"
    );
}

#[test]
fn ini_round_trip() {
    for minutes in [0u8, 1, 30, 99, 100, 255] {
        for flags in 0..16u8 {
            let s = Settings {
                notifications_enabled: flags & 1 != 0,
                use_number_icon: flags & 2 != 0,
                sidetone_enabled: flags & 4 != 0,
                microphone_light_enabled: flags & 8 != 0,
                inactive_time_minutes: minutes,
            };
            assert_eq!(Settings::from_ini(&s.to_ini()), s);
        }
    }
}

#[test]
fn ini_empty_gives_initial() {
    assert_eq!(Settings::from_ini(""), Settings::initial());
    assert_eq!(Settings::from_ini("\n\n# comment\n[section]\n"), Settings::initial());
}

#[test]
fn ini_lines_are_trimmed_and_windows_line_ends_accepted() {
    let s = Settings::from_ini("  SidetoneEnabled=1  \r\nUseNumberIcon=true\r\n");
    assert!(s.sidetone_enabled);
    assert!(s.use_number_icon);
    assert!(!s.notifications_enabled);
}

#[test]
fn ini_switch_is_on_when_line_ends_in_true_or_1() {
    assert!(Settings::from_ini("NotificationsEnabled=untrue").notifications_enabled);
    assert!(Settings::from_ini("NotificationsEnabled=21").notifications_enabled);
    assert!(!Settings::from_ini("NotificationsEnabled=yes").notifications_enabled);
    assert!(!Settings::from_ini("NotificationsEnabled=0").notifications_enabled);
    assert!(!Settings::from_ini("notificationsenabled=true").notifications_enabled);
}

#[test]
fn ini_minutes_parse_or_zero() {
    assert_eq!(Settings::from_ini("InactiveTimeMinutes=30").inactive_time_minutes, 30);
    assert_eq!(Settings::from_ini("InactiveTimeMinutes=+30").inactive_time_minutes, 30);
    assert_eq!(Settings::from_ini("InactiveTimeMinutes=256").inactive_time_minutes, 0);
    assert_eq!(Settings::from_ini("InactiveTimeMinutes=abc").inactive_time_minutes, 0);
    assert_eq!(Settings::from_ini("InactiveTimeMinutes= 5").inactive_time_minutes, 0);
    assert_eq!(Settings::from_ini("InactiveTimeMinutes=").inactive_time_minutes, 0);
}

#[test]
fn ini_later_line_wins() {
    let s = Settings::from_ini("InactiveTimeMinutes=5\nSidetoneEnabled=true\nInactiveTimeMinutes=60\nSidetoneEnabled=false");
    assert_eq!(s.inactive_time_minutes, 60);
    assert!(!s.sidetone_enabled);
}
