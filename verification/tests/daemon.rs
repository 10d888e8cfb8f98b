use workplaces::configuration::{ScreenConfiguration, ScreenPositionRelative, ScreenRotation, ScreensProfile};
use workplaces::daemon::{first_with_serial, input_source_line, ApplyOutcome, DaemonState};
use workplaces::input_source::MonitorInputSource;
use workplaces::monitor::{MonitorInformation, OutputTransform};
use workplaces::text::{str_equal, str_less};

fn monitor(id: u64, name: &str, make: &str, serial: Option<&str>) -> MonitorInformation {
    MonitorInformation {
        id,
        name: name.to_string(),
        model: "Model".to_string(),
        make: make.to_string(),
        description: String::new(),
        size: (0, 0),
        position: (0, 0),
        enabled: 1,
        transform: OutputTransform::Normal,
        scale: 1.0f64.to_bits(),
        serial: serial.map(|s| s.to_string()),
        adaptive_sync: None,
        current_mode: 0,
        modes: Vec::new(),
    }
}

fn screen(identifier: &str, position: ScreenPositionRelative) -> ScreenConfiguration {
    ScreenConfiguration {
        identifier: identifier.to_string(),
        scale: 1.0f32.to_bits(),
        rotation: ScreenRotation::Portrait,
        display_output_code: Some(15),
        wallpaper: String::new(),
        position,
        enabled: true,
    }
}

fn state_with_profiles() -> DaemonState {
    let mut state = DaemonState::default();
    state.config.insert_profile(
        "laptop".to_string(),
        ScreensProfile { screens: vec![screen("eDP-1", ScreenPositionRelative::Root)], skripts: vec![] },
    );
    state.config.insert_profile(
        "desk".to_string(),
        ScreensProfile {
            screens: vec![
                screen("eDP-1", ScreenPositionRelative::Root),
                screen("Dell ABC", ScreenPositionRelative::Right("eDP-1".to_string())),
            ],
            skripts: vec!["sudo systemctl start iwd".to_string(), "powerprofilesctl set performance".to_string()],
        },
    );
    state
}

#[test]
fn default_daemon_state() {
    let state = DaemonState::default();
    assert!(state.head_state.is_empty());
    assert!(state.current_profile.is_none());
    assert!(state.ddc_connections.is_empty());
    assert_eq!(state.config.hyprland_config_file(), "~/.config/hypr/display.conf");
}

#[test]
fn ddc_candidates_need_a_serial_and_no_connection() {
    let mut state = DaemonState::default();
    state.record_ddc_connection(2);
    state.record_ddc_connection(2);
    assert_eq!(state.ddc_connections, vec![2]);
    let monitors = vec![
        monitor(1, "eDP-1", "BOE", None),
        monitor(2, "DP-1", "Dell", Some("ABC")),
        monitor(3, "DP-2", "LG", Some("XYZ")),
    ];
    let c = state.ddc_candidates(&monitors);
    assert_eq!(c, vec![(3, "XYZ".to_string())]);
}

#[test]
fn monitors_changed_applies_first_connected_profile() {
    let mut state = state_with_profiles();
    state.record_ddc_connection(2);
    state.record_ddc_connection(9);
    let monitors = vec![monitor(1, "eDP-1", "BOE", None), monitor(2, "DP-1", "Dell", Some("ABC"))];
    let changed = state.monitors_changed(monitors);
    assert_eq!(changed.closed_ddc_connections, vec![9]);
    assert_eq!(state.ddc_connections, vec![2]);
    let applied = changed.applied.unwrap();
    assert_eq!(applied.name, "desk");
    assert_eq!(applied.skripts, vec!["sudo systemctl start iwd", "powerprofilesctl set performance"]);
    assert_eq!(applied.display, "\"Root\"\n└── \"eDP-1\"\n    └── \"Dell ABC\"\n");
    assert_eq!(state.current_profile.as_deref(), Some("desk"));
    assert_eq!(state.head_state.len(), 2);
}

#[test]
fn monitors_changed_without_connected_profile_keeps_current() {
    let mut state = state_with_profiles();
    state.current_profile = Some("laptop".to_string());
    let changed = state.monitors_changed(vec![monitor(5, "HDMI-A-1", "LG", None)]);
    assert!(changed.applied.is_none());
    assert_eq!(state.current_profile.as_deref(), Some("laptop"));
    assert_eq!(state.head_state[0].name, "HDMI-A-1");
}

#[test]
fn attached_report_lists_monitors() {
    let mut state = DaemonState::default();
    state.monitors_changed(vec![
        monitor(1, "eDP-1", "BOE", None),
        monitor(2, "DP-1", "Dell", Some("ABC")),
    ]);
    assert_eq!(
        state.attached_report(),
        "Attached Monitors:\neDP-1: BOE \n\nDP-1: Dell ABC\n\n"
    );
    assert_eq!(DaemonState::default().attached_report(), "Attached Monitors:\n");
}

#[test]
fn current_profile_report() {
    let mut state = DaemonState::default();
    assert_eq!(state.current_profile_report(), "Current Profile: \n");
    state.current_profile = Some("desk".to_string());
    assert_eq!(state.current_profile_report(), "Current Profile: desk\n");
}

#[test]
fn apply_profile_by_name() {
    let mut state = state_with_profiles();
    state.monitors_changed(vec![monitor(1, "eDP-1", "BOE", None)]);
    match state.apply_profile("garage") {
        ApplyOutcome::Unknown { reply } => assert_eq!(reply, "No profile with name garage!\n"),
        _ => panic!("no such profile"),
    }
    assert_eq!(state.current_profile.as_deref(), Some("laptop"));
    match state.apply_profile("desk") {
        ApplyOutcome::Applied { display, skripts } => {
            assert_eq!(display, "\"Root\"\n└── \"eDP-1\"\n");
            assert_eq!(skripts.len(), 2);
            assert_eq!(skripts[0], "sudo systemctl start iwd");
        },
        _ => panic!("the profile exists"),
    }
    assert_eq!(state.current_profile.as_deref(), Some("desk"));
}

#[test]
fn head_lookup_by_id() {
    let mut state = DaemonState::default();
    state.monitors_changed(vec![monitor(1, "eDP-1", "BOE", None), monitor(4, "DP-3", "X", None)]);
    assert_eq!(state.head_by_id(4).unwrap().name, "DP-3");
    assert!(state.head_by_id(2).is_none());
}

#[test]
fn input_source_lines() {
    assert_eq!(input_source_line("DP-1", MonitorInputSource::Hdmi1), "DP-1: Hdmi1\n");
    assert_eq!(input_source_line("DP-1", MonitorInputSource::Other(27)), "DP-1: Other(27)\n");
    assert_eq!(input_source_line("X", MonitorInputSource::Other(0)), "X: Other(0)\n");
    assert_eq!(input_source_line("X", MonitorInputSource::Other(255)), "X: Other(255)\n");
    assert_eq!(input_source_line("X", MonitorInputSource::Other(100)), "X: Other(100)\n");
    assert_eq!(
        input_source_line("X", MonitorInputSource::Other(7)),
        format!("X: {:?}\n", MonitorInputSource::Other(7))
    );
}

#[test]
fn string_order_is_byte_order() {
    assert!(str_less("DP-1", "eDP-1"));
    assert!(!str_less("eDP-1", "DP-1"));
    assert!(str_less("DP", "DP-1"));
    assert!(!str_less("DP-1", "DP-1"));
    assert!(str_less("Z", "ä"));
    assert!(str_equal("ä", "ä"));
    assert!(!str_equal("a", "ä"));
}

#[test]
fn connections_only_to_attached_monitors() {
    let mut state = DaemonState::default();
    state.record_ddc_connection(1);
    state.record_ddc_connection(2);
    let changed = state.monitors_changed(vec![monitor(2, "DP-1", "Dell", Some("ABC"))]);
    assert_eq!(changed.closed_ddc_connections, vec![1]);
    assert_eq!(state.ddc_connections, vec![2]);
    for id in &state.ddc_connections {
        assert!(state.head_by_id(*id).is_some());
    }
}

#[test]
fn display_chosen_by_serial() {
    let serials = vec![None, Some("A1".to_string()), Some("B2".to_string()), Some("B2".to_string())];
    assert_eq!(first_with_serial(&serials, "B2"), Some(2));
    assert_eq!(first_with_serial(&serials, "A1"), Some(1));
    assert_eq!(first_with_serial(&serials, "C3"), None);
    assert_eq!(first_with_serial(&vec![], "A1"), None);
}

#[test]
fn replace_monitors_keeps_profile_and_closes_gone_connections() {
    let mut state = state_with_profiles();
    state.record_ddc_connection(3);
    state.record_ddc_connection(2);
    let closed = state.replace_monitors(vec![
        monitor(1, "eDP-1", "BOE", None),
        monitor(2, "DP-1", "Dell", Some("ABC")),
    ]);
    assert_eq!(closed, vec![3]);
    assert_eq!(state.ddc_connections, vec![2]);
    assert_eq!(state.head_state.len(), 2);
    assert!(state.current_profile.is_none());
}

#[test]
fn ddc_round_opens_only_found_displays() {
    let mut state = DaemonState::default();
    state.monitors_changed(vec![monitor(1, "eDP-1", "BOE", None)]);
    let monitors = vec![
        monitor(1, "eDP-1", "BOE", None),
        monitor(2, "DP-1", "Dell", Some("ABC")),
        monitor(3, "DP-2", "LG", Some("XYZ")),
    ];
    let candidates = state.ddc_candidates(&monitors);
    assert_eq!(candidates, vec![(2, "ABC".to_string()), (3, "XYZ".to_string())]);
    let found = vec![Some("ABC".to_string())];
    for (id, serial) in candidates {
        if first_with_serial(&found, &serial).is_some() {
            state.record_ddc_connection(id);
        }
    }
    state.monitors_changed(monitors);
    assert_eq!(state.ddc_connections, vec![2]);
    let closed = state.replace_monitors(vec![monitor(3, "DP-2", "LG", Some("XYZ"))]);
    assert_eq!(closed, vec![2]);
    assert!(state.ddc_connections.is_empty());
}

#[test]
fn apply_profile_uses_the_one_profile_of_that_name() {
    let mut state = state_with_profiles();
    state.config.insert_profile(
        "desk".to_string(),
        ScreensProfile { screens: vec![screen("eDP-1", ScreenPositionRelative::Root)], skripts: vec!["true".to_string()] },
    );
    assert_eq!(state.config.profiles().len(), 2);
    state.monitors_changed(vec![monitor(1, "eDP-1", "BOE", None)]);
    match state.apply_profile("desk") {
        ApplyOutcome::Applied { skripts, .. } => assert_eq!(skripts, vec!["true".to_string()]),
        ApplyOutcome::Unknown { .. } => panic!("the profile exists"),
    }
    assert_eq!(state.current_profile.as_deref(), Some("desk"));
}
