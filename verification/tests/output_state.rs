use workplaces::monitor::{
    AdaptiveSyncState, MonitorInformation, MonitorInformationBuilder,
    MonitorInformationBuilderError, MonitorMode, MonitorModeBuilder, MonitorModeBuilderError,
    OutputTransform,
};
use workplaces::output_state::{FinishedObject, OutputAction, OutputEvent, ScreenManagerState};

fn announce_head(state: &mut ScreenManagerState, id: u64, name: &str, serial: Option<&str>) {
    let events = vec![
        OutputEvent::Head { head: id },
        OutputEvent::Name { name: name.to_string() },
        OutputEvent::Description { description: format!("{} monitor", name) },
        OutputEvent::PhysicalSize { width: 600, height: 340 },
        OutputEvent::Mode { mode: id * 100 + 1 },
        OutputEvent::ModeSize { width: 1920, height: 1080 },
        OutputEvent::ModeRefresh { refresh: 60000 },
        OutputEvent::ModePreferred,
        OutputEvent::Mode { mode: id * 100 + 2 },
        OutputEvent::ModeSize { width: 1280, height: 720 },
        OutputEvent::ModeRefresh { refresh: 59940 },
        OutputEvent::Enabled { enabled: 1 },
        OutputEvent::CurrentMode { mode: id * 100 + 1 },
        OutputEvent::Position { x: 0, y: 0 },
        OutputEvent::Transform { transform: Some(OutputTransform::Normal) },
        OutputEvent::Scale { scale: 1.0f64.to_bits() },
        OutputEvent::Make { make: "Dell".to_string() },
        OutputEvent::Model { model: "U2720Q".to_string() },
        OutputEvent::AdaptiveSync { state: Some(AdaptiveSyncState::Disabled) },
    ];
    for e in events {
        assert!(matches!(state.handle_event(e), OutputAction::Nothing));
    }
    if let Some(s) = serial {
        assert!(matches!(
            state.handle_event(OutputEvent::SerialNumber { serial_number: s.to_string() }),
            OutputAction::Nothing
        ));
    }
}

fn publish(state: &mut ScreenManagerState) -> Vec<MonitorInformation> {
    match state.handle_event(OutputEvent::Done { serial: 7 }) {
        OutputAction::Publish { configuration } => configuration,
        _ => panic!("Done must publish the configuration"),
    }
}

#[test]
fn complete_head_is_published_with_its_modes() {
    let mut state = ScreenManagerState::new();
    announce_head(&mut state, 3, "DP-1", Some("ABC123"));
    let config = publish(&mut state);
    assert_eq!(config.len(), 1);
    let m = &config[0];
    assert_eq!(m.id, 3);
    assert_eq!(m.name(), "DP-1");
    assert_eq!(m.description(), "DP-1 monitor");
    assert_eq!(*m.size(), (600, 340));
    assert_eq!(m.make(), "Dell");
    assert_eq!(m.model(), "U2720Q");
    assert_eq!(m.serial().as_deref(), Some("ABC123"));
    assert_eq!(*m.current_mode(), 301);
    assert_eq!(*m.enabled(), 1);
    assert_eq!(*m.transform(), OutputTransform::Normal);
    assert_eq!(f64::from_bits(*m.scale()), 1.0);
    assert_eq!(*m.adaptive_sync(), Some(AdaptiveSyncState::Disabled));
    assert_eq!(m.modes().len(), 2);
    assert_eq!(m.modes()[0].id, 301);
    assert_eq!(m.modes()[0].size, (1920, 1080));
    assert_eq!(m.modes()[0].refresh, 60000);
    assert!(m.modes()[0].preferred);
    assert_eq!(m.modes()[1].id, 302);
    assert!(!m.modes()[1].preferred);
    assert!(state.current_head.is_none());
    assert!(state.current_mode.is_none());
}

#[test]
fn head_without_serial_has_none() {
    let mut state = ScreenManagerState::new();
    announce_head(&mut state, 4, "eDP-1", None);
    let config = publish(&mut state);
    assert_eq!(config.len(), 1);
    assert_eq!(config[0].serial, None);
}

#[test]
fn incomplete_head_is_not_stored() {
    let mut state = ScreenManagerState::new();
    state.handle_event(OutputEvent::Head { head: 9 });
    state.handle_event(OutputEvent::Name { name: "HDMI-A-1".to_string() });
    let config = publish(&mut state);
    assert!(config.is_empty());
}

#[test]
fn two_heads_in_announcement_order() {
    let mut state = ScreenManagerState::new();
    announce_head(&mut state, 5, "DP-2", Some("S2"));
    announce_head(&mut state, 3, "DP-1", Some("S1"));
    let config = publish(&mut state);
    assert_eq!(config.len(), 2);
    assert_eq!(config[0].name, "DP-2");
    assert_eq!(config[1].name, "DP-1");
}

#[test]
fn reannounced_head_replaces_its_entry() {
    let mut state = ScreenManagerState::new();
    announce_head(&mut state, 3, "DP-1", Some("S1"));
    publish(&mut state);
    state.handle_event(OutputEvent::Head { head: 3 });
    state.handle_event(OutputEvent::Position { x: 1920, y: 0 });
    let config = publish(&mut state);
    assert_eq!(config.len(), 1);
    assert_eq!(config[0].position, (1920, 0));
    assert_eq!(config[0].name, "DP-1");
    assert_eq!(config[0].modes.len(), 2);
}

#[test]
fn reannounced_head_without_changes_keeps_configuration() {
    let mut state = ScreenManagerState::new();
    announce_head(&mut state, 3, "DP-1", Some("S1"));
    let first = publish(&mut state);
    state.handle_event(OutputEvent::Head { head: 3 });
    let second = publish(&mut state);
    assert_eq!(second.len(), first.len());
    assert_eq!(second[0].name, first[0].name);
    assert_eq!(second[0].position, first[0].position);
    assert_eq!(second[0].modes.len(), first[0].modes.len());
}

#[test]
fn properties_without_pending_head_are_ignored() {
    let mut state = ScreenManagerState::new();
    assert!(matches!(
        state.handle_event(OutputEvent::Name { name: "X".to_string() }),
        OutputAction::Nothing
    ));
    assert!(matches!(state.handle_event(OutputEvent::ModeRefresh { refresh: 1 }), OutputAction::Nothing));
    assert!(state.current_head.is_none());
    assert!(state.current_mode.is_none());
    assert!(publish(&mut state).is_empty());
}

#[test]
fn unknown_transform_is_ignored() {
    let mut state = ScreenManagerState::new();
    state.handle_event(OutputEvent::Head { head: 1 });
    state.handle_event(OutputEvent::Transform { transform: None });
    assert!(state.current_head.as_ref().unwrap().transform.is_none());
}

#[test]
fn output_manager_global_is_bound() {
    let mut state = ScreenManagerState::new();
    match state.handle_event(OutputEvent::Global {
        name: 12,
        interface: "zwlr_output_manager_v1".to_string(),
        version: 4,
    }) {
        OutputAction::BindOutputManager { name, version } => {
            assert_eq!(name, 12);
            assert_eq!(version, 4);
        },
        _ => panic!("the output manager must be bound"),
    }
    assert!(state.output_manager_bound);
    let other = state.handle_event(OutputEvent::Global {
        name: 1,
        interface: "wl_seat".to_string(),
        version: 7,
    });
    assert!(matches!(other, OutputAction::Nothing));
    assert!(matches!(state.handle_event(OutputEvent::GlobalRemove { name: 1 }), OutputAction::Nothing));
}

#[test]
fn finished_objects_are_reported() {
    let mut state = ScreenManagerState::new();
    match state.handle_event(OutputEvent::ManagerFinished) {
        OutputAction::Report { object } => {
            assert_eq!(object, FinishedObject::OutputManager);
            assert_eq!(
                object.message(),
                "=========================================================\nFinished"
            );
        },
        _ => panic!(),
    }
    match state.handle_event(OutputEvent::HeadFinished { head: 1 }) {
        OutputAction::Report { object } => {
            assert_eq!(object.message(), "===================================\nFinished")
        },
        _ => panic!(),
    }
    match state.handle_event(OutputEvent::ModeFinished) {
        OutputAction::Report { object } => {
            assert_eq!(object.message(), "============================================\nFinished")
        },
        _ => panic!(),
    }
}

#[test]
fn mode_builder_names_first_missing_field() {
    let mut b = MonitorModeBuilder::default();
    assert_eq!(b.build().unwrap_err(), MonitorModeBuilderError::UninitializedField("id"));
    b.id(1);
    assert_eq!(b.build().unwrap_err(), MonitorModeBuilderError::UninitializedField("size"));
    b.size((800, 600));
    assert_eq!(b.build().unwrap_err(), MonitorModeBuilderError::UninitializedField("refresh"));
    b.refresh(75000);
    let m: MonitorMode = b.build().unwrap();
    assert_eq!((m.id, m.size, m.refresh, m.preferred), (1, (800, 600), 75000, false));
}

#[test]
fn info_builder_names_first_missing_field() {
    let mut b = MonitorInformationBuilder::default();
    assert_eq!(b.build().unwrap_err(), MonitorInformationBuilderError::UninitializedField("id"));
    b.id(2);
    b.name("DP-3".to_string());
    assert_eq!(b.build().unwrap_err(), MonitorInformationBuilderError::UninitializedField("model"));
    b.model("M".to_string());
    b.make("K".to_string());
    b.description("D".to_string());
    b.size((1, 2));
    b.position((3, 4));
    b.enabled(0);
    b.transform(OutputTransform::Flipped90);
    b.scale(2.0f64.to_bits());
    assert_eq!(
        b.build().unwrap_err(),
        MonitorInformationBuilderError::UninitializedField("adaptive_sync")
    );
    b.adaptive_sync(AdaptiveSyncState::Enabled);
    assert_eq!(
        b.build().unwrap_err(),
        MonitorInformationBuilderError::UninitializedField("current_mode")
    );
    b.current_mode(9);
    let m = b.build().unwrap();
    assert_eq!(m.serial, None);
    assert!(m.modes.is_empty());
    assert_eq!(m.transform, OutputTransform::Flipped90);
}

#[test]
fn builder_from_value_builds_the_value() {
    let mut state = ScreenManagerState::new();
    announce_head(&mut state, 3, "DP-1", Some("S1"));
    let config = publish(&mut state);
    let b = MonitorInformationBuilder::from_value(&config[0]);
    let m = b.build().unwrap();
    assert_eq!(m.name, config[0].name);
    assert_eq!(m.serial, config[0].serial);
    assert_eq!(m.modes.len(), config[0].modes.len());
    assert_eq!(m.current_mode, config[0].current_mode);
}

#[test]
fn add_mode_appends() {
    let mut b = MonitorInformationBuilder::default();
    let mode = MonitorMode { id: 1, size: (10, 10), refresh: 1, preferred: false };
    b.add_mode(mode).add_mode(MonitorMode { id: 2, ..mode });
    let modes = b.modes.as_ref().unwrap();
    assert_eq!(modes.len(), 2);
    assert_eq!(modes[0].id, 1);
    assert_eq!(modes[1].id, 2);
}

#[test]
fn detached_monitor_leaves_the_configuration() {
    let mut state = ScreenManagerState::new();
    announce_head(&mut state, 3, "DP-1", Some("S1"));
    announce_head(&mut state, 4, "eDP-1", None);
    assert_eq!(publish(&mut state).len(), 2);
    match state.handle_event(OutputEvent::HeadFinished { head: 3 }) {
        OutputAction::Report { object } => assert_eq!(object, FinishedObject::Head),
        _ => panic!("a finished head is reported"),
    }
    let config = publish(&mut state);
    assert_eq!(config.len(), 1);
    assert_eq!(config[0].id, 4);
    assert_eq!(config[0].name, "eDP-1");
}

#[test]
fn pending_head_that_finishes_is_dropped() {
    let mut state = ScreenManagerState::new();
    announce_head(&mut state, 3, "DP-1", Some("S1"));
    state.handle_event(OutputEvent::HeadFinished { head: 3 });
    assert!(state.current_head.is_none());
    assert!(publish(&mut state).is_empty());
    // a finished head that is not known changes nothing
    announce_head(&mut state, 5, "DP-2", None);
    state.handle_event(OutputEvent::HeadFinished { head: 8 });
    assert_eq!(publish(&mut state).len(), 1);
}
