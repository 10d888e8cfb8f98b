use workplaces::configuration::{
    AppConfiguration, ScreenConfiguration, ScreenPositionRelative, ScreenRotation, ScreensProfile,
};
use workplaces::monitor::{MonitorInformation, OutputTransform};

fn monitor(id: u64, name: &str, make: &str, serial: Option<&str>) -> MonitorInformation {
    MonitorInformation {
        id,
        name: name.to_string(),
        model: "Model".to_string(),
        make: make.to_string(),
        description: String::new(),
        size: (0, 0),
        position: (0, 0),
        enabled: 1,
        transform: OutputTransform::Normal,
        scale: 1.0f64.to_bits(),
        serial: serial.map(|s| s.to_string()),
        adaptive_sync: None,
        current_mode: 0,
        modes: Vec::new(),
    }
}

fn screen(identifier: &str, position: ScreenPositionRelative) -> ScreenConfiguration {
    ScreenConfiguration {
        identifier: identifier.to_string(),
        scale: 1.0f32.to_bits(),
        rotation: ScreenRotation::Landscape,
        display_output_code: None,
        wallpaper: "/tmp/test.png".to_string(),
        position,
        enabled: true,
    }
}

fn heads() -> Vec<MonitorInformation> {
    vec![
        monitor(1, "eDP-1", "BOE", None),
        monitor(2, "DP-1", "Dell", Some("ABC123")),
        monitor(3, "HDMI-A-1", "LG", Some("XYZ")),
    ]
}

#[test]
fn parent_of_each_position() {
    assert_eq!(ScreenPositionRelative::Root.parent(), None);
    assert_eq!(ScreenPositionRelative::Over("a".to_string()).parent(), Some("a"));
    assert_eq!(ScreenPositionRelative::Under("b".to_string()).parent(), Some("b"));
    assert_eq!(ScreenPositionRelative::Left("c".to_string()).parent(), Some("c"));
    assert_eq!(ScreenPositionRelative::Right("d".to_string()).parent(), Some("d"));
    assert_eq!(ScreenPositionRelative::LeftOver("e".to_string()).parent(), Some("e"));
    assert_eq!(ScreenPositionRelative::LeftUnder("f".to_string()).parent(), Some("f"));
    assert_eq!(ScreenPositionRelative::RightOver("g".to_string()).parent(), Some("g"));
    assert_eq!(ScreenPositionRelative::RightUnder("h".to_string()).parent(), Some("h"));
}

#[test]
fn connected_by_name_or_make_and_serial() {
    let profile = ScreensProfile {
        screens: vec![
            screen("eDP-1", ScreenPositionRelative::Root),
            screen("Dell ABC123", ScreenPositionRelative::Right("eDP-1".to_string())),
        ],
        skripts: vec![],
    };
    assert!(profile.is_connected(&heads()));
    let missing = ScreensProfile {
        screens: vec![
            screen("eDP-1", ScreenPositionRelative::Root),
            screen("DP-2", ScreenPositionRelative::Root),
        ],
        skripts: vec![],
    };
    assert!(!missing.is_connected(&heads()));
    // a monitor without serial answers to its make and a space
    let by_make = ScreensProfile { screens: vec![screen("BOE ", ScreenPositionRelative::Root)], skripts: vec![] };
    assert!(by_make.is_connected(&heads()));
    let empty = ScreensProfile { screens: vec![], skripts: vec![] };
    assert!(empty.is_connected(&vec![]));
}

#[test]
fn layout_tree_drawing() {
    let profile = ScreensProfile {
        screens: vec![
            screen("eDP-1", ScreenPositionRelative::Root),
            screen("DP-1", ScreenPositionRelative::Right("eDP-1".to_string())),
            screen("HDMI-A-1", ScreenPositionRelative::Left("missing".to_string())),
            screen("DP-9", ScreenPositionRelative::Over("eDP-1".to_string())),
        ],
        skripts: vec![],
    };
    assert!(profile.positions_are_acyclic(&heads()));
    let drawing = profile.apply(&heads(), "/tmp/monitors.conf");
    assert_eq!(
        drawing,
        "\"Root\"\n├── \"eDP-1\"\n│   └── \"DP-1\"\n└── \"HDMI-A-1\"\n"
    );
}

#[test]
fn layout_tree_siblings_in_order_of_placement() {
    let profile = ScreensProfile {
        screens: vec![
            screen("eDP-1", ScreenPositionRelative::Root),
            screen("Dell ABC123", ScreenPositionRelative::Under("eDP-1".to_string())),
            screen("HDMI-A-1", ScreenPositionRelative::Over("eDP-1".to_string())),
        ],
        skripts: vec![],
    };
    let drawing = profile.apply(&heads(), "");
    // "Dell ABC123" sorts before "HDMI-A-1", which sorts before "eDP-1"
    assert_eq!(
        drawing,
        "\"Root\"\n└── \"eDP-1\"\n    ├── \"Dell ABC123\"\n    └── \"HDMI-A-1\"\n"
    );
}

#[test]
fn layout_tree_places_a_duplicate_identifier_once() {
    let profile = ScreensProfile {
        screens: vec![
            screen("eDP-1", ScreenPositionRelative::Root),
            screen("DP-1", ScreenPositionRelative::Root),
            screen("DP-1", ScreenPositionRelative::Right("eDP-1".to_string())),
        ],
        skripts: vec![],
    };
    // the last screen with an identifier decides its place
    assert_eq!(
        profile.apply(&heads(), ""),
        "\"Root\"\n└── \"eDP-1\"\n    └── \"DP-1\"\n"
    );
}

#[test]
fn empty_layout_tree() {
    let profile = ScreensProfile { screens: vec![screen("DP-7", ScreenPositionRelative::Root)], skripts: vec![] };
    assert_eq!(profile.apply(&heads(), ""), "\"Root\"\n");
}

#[test]
fn cyclic_positions_are_detected() {
    let profile = ScreensProfile {
        screens: vec![
            screen("eDP-1", ScreenPositionRelative::Right("DP-1".to_string())),
            screen("DP-1", ScreenPositionRelative::Left("eDP-1".to_string())),
        ],
        skripts: vec![],
    };
    assert!(!profile.positions_are_acyclic(&heads()));
    let own = ScreensProfile {
        screens: vec![screen("DP-1", ScreenPositionRelative::Over("DP-1".to_string()))],
        skripts: vec![],
    };
    assert!(!own.positions_are_acyclic(&heads()));
    // a cycle among screens that are not attached does not matter
    let detached = ScreensProfile {
        screens: vec![
            screen("X", ScreenPositionRelative::Right("Y".to_string())),
            screen("Y", ScreenPositionRelative::Left("X".to_string())),
        ],
        skripts: vec![],
    };
    assert!(detached.positions_are_acyclic(&heads()));
}

#[test]
fn default_configuration() {
    let c = AppConfiguration::default();
    assert_eq!(c.hyprland_config_file(), "~/.config/hypr/display.conf");
    assert!(c.profiles().is_empty());
}

#[test]
fn profiles_in_order_of_names() {
    let mut c = AppConfiguration::new("f".to_string());
    c.insert_profile("office".to_string(), ScreensProfile { screens: vec![], skripts: vec![] });
    c.insert_profile("home".to_string(), ScreensProfile { screens: vec![], skripts: vec![] });
    c.insert_profile("laptop".to_string(), ScreensProfile { screens: vec![], skripts: vec![] });
    c.insert_profile(
        "home".to_string(),
        ScreensProfile { screens: vec![screen("eDP-1", ScreenPositionRelative::Root)], skripts: vec![] },
    );
    let names: Vec<&str> = c.profiles().iter().map(|(n, _)| n.as_str()).collect();
    assert_eq!(names, vec!["home", "laptop", "office"]);
    assert_eq!(c.profiles()[0].1.screens.len(), 1);
    assert_eq!(c.profile_index("laptop"), Some(1));
    assert_eq!(c.profile_index("garage"), None);
}

#[test]
fn first_connected_profile_by_name() {
    let mut c = AppConfiguration::new("f".to_string());
    c.insert_profile(
        "z-laptop".to_string(),
        ScreensProfile { screens: vec![screen("eDP-1", ScreenPositionRelative::Root)], skripts: vec![] },
    );
    c.insert_profile(
        "desk".to_string(),
        ScreensProfile {
            screens: vec![
                screen("eDP-1", ScreenPositionRelative::Root),
                screen("DP-1", ScreenPositionRelative::Right("eDP-1".to_string())),
            ],
            skripts: vec![],
        },
    );
    c.insert_profile(
        "cinema".to_string(),
        ScreensProfile { screens: vec![screen("DP-5", ScreenPositionRelative::Root)], skripts: vec![] },
    );
    assert_eq!(c.first_connected_profile(&heads()), Some(1));
    assert_eq!(c.first_connected_profile(&vec![monitor(1, "eDP-1", "BOE", None)]), Some(2));
    assert_eq!(c.first_connected_profile(&vec![]), None);
}

#[test]
fn screen_named_like_the_root() {
    let monitors = vec![monitor(1, "Root", "A", None), monitor(2, "X", "B", None)];
    let profile = ScreensProfile {
        screens: vec![
            screen("Root", ScreenPositionRelative::Root),
            screen("X", ScreenPositionRelative::Under("Root".to_string())),
        ],
        skripts: vec![],
    };
    // "X" is placed after "Root"; the level-order search for its parent
    // meets the tree's own root first, so "X" hangs under it
    assert_eq!(profile.apply(&monitors, ""), "\"Root\"\n├── \"Root\"\n└── \"X\"\n");
}

#[test]
fn debug_form_of_identifiers_in_the_drawing() {
    let monitors = vec![monitor(1, "Dell", "x", None)];
    let profile = ScreensProfile { screens: vec![screen("Dell", ScreenPositionRelative::Root)], skripts: vec![] };
    assert_eq!(profile.apply(&monitors, ""), "\"Root\"\n└── \"Dell\"\n");
    let quoted = vec![monitor(1, "a\"b", "x", None)];
    let profile = ScreensProfile { screens: vec![screen("a\"b", ScreenPositionRelative::Root)], skripts: vec![] };
    assert_eq!(profile.apply(&quoted, ""), "\"Root\"\n└── \"a\\\"b\"\n");
}
