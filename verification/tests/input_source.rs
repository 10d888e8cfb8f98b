use workplaces::input_source::{InputSourceError, MonitorInputSource, YamlNumber};

#[test]
fn codes_written_for_each_source() {
    assert_eq!(MonitorInputSource::Vga1.id(), 0x1);
    assert_eq!(MonitorInputSource::Vga2.id(), 0x2);
    assert_eq!(MonitorInputSource::Dvi1.id(), 0x3);
    assert_eq!(MonitorInputSource::Dvi2.id(), 0x4);
    assert_eq!(MonitorInputSource::Hdmi1.id(), 0xf);
    assert_eq!(MonitorInputSource::Hdmi2.id(), 0x10);
    assert_eq!(MonitorInputSource::Dp1.id(), 0x11);
    assert_eq!(MonitorInputSource::Dp2.id(), 0x12);
    assert_eq!(MonitorInputSource::Other(0x1b).id(), 0x1b);
}

#[test]
fn sources_read_from_each_code() {
    assert_eq!(MonitorInputSource::from(0x1u8), MonitorInputSource::Vga1);
    assert_eq!(MonitorInputSource::from(0x2u8), MonitorInputSource::Vga2);
    assert_eq!(MonitorInputSource::from(0x3u8), MonitorInputSource::Dvi1);
    assert_eq!(MonitorInputSource::from(0x4u8), MonitorInputSource::Dvi2);
    assert_eq!(MonitorInputSource::from(0xfu8), MonitorInputSource::Dp1);
    assert_eq!(MonitorInputSource::from(0x10u8), MonitorInputSource::Dp2);
    assert_eq!(MonitorInputSource::from(0x11u8), MonitorInputSource::Hdmi1);
    assert_eq!(MonitorInputSource::from(0x12u8), MonitorInputSource::Hdmi2);
    assert_eq!(MonitorInputSource::from(0u8), MonitorInputSource::Other(0));
    assert_eq!(MonitorInputSource::from(0x60u8), MonitorInputSource::Other(0x60));
    assert_eq!(MonitorInputSource::from(255u8), MonitorInputSource::Other(255));
}

#[test]
fn code_round_trip_outside_swapped_inputs() {
    for value in 0u8..=255 {
        if !(0x0f..=0x12).contains(&value) {
            assert_eq!(MonitorInputSource::from(value).id(), value as u16);
        }
    }
    // the HDMI and DisplayPort codes come back under the other name
    assert_eq!(MonitorInputSource::from(0x0fu8).id(), 0x11);
}

#[test]
fn source_round_trip() {
    for source in [
        MonitorInputSource::Vga1,
        MonitorInputSource::Vga2,
        MonitorInputSource::Dvi1,
        MonitorInputSource::Dvi2,
        MonitorInputSource::Other(0x1b),
    ] {
        assert_eq!(MonitorInputSource::from(source.id() as u8), source);
    }
    assert_eq!(MonitorInputSource::from(MonitorInputSource::Hdmi1.id() as u8), MonitorInputSource::Dp1);
}

#[test]
fn yaml_numbers() {
    assert_eq!(
        MonitorInputSource::from_yaml_number(YamlNumber::Unsigned(17)),
        Ok(MonitorInputSource::Hdmi1)
    );
    assert_eq!(
        MonitorInputSource::from_yaml_number(YamlNumber::Unsigned(255)),
        Ok(MonitorInputSource::Other(255))
    );
    assert_eq!(
        MonitorInputSource::from_yaml_number(YamlNumber::Unsigned(256)),
        Err(InputSourceError::OutOfRange(256))
    );
    assert_eq!(
        MonitorInputSource::from_yaml_number(YamlNumber::Signed(-3)),
        Err(InputSourceError::Signed(-3))
    );
    assert_eq!(
        MonitorInputSource::from_yaml_number(YamlNumber::Float),
        Err(InputSourceError::Float)
    );
}

#[test]
fn feature_code_of_input_source() {
    assert_eq!(workplaces::input_source::FEATURE_CODE_INPUT_SOURCE, 0x60);
}
