//! Scenario tests for the engine: roster building, dispatch, fallback,
//! quantization, pacing and the connection cache, against scripted
//! hardware worlds.

use monitor::mgmt::ConnState;
use monitor::sim::{OpenScript, SimDirect, SimFeature, SimWorld};
use monitor::{AdapterMonitorEntry, Backend, EngineError, Interface, OutputRecord, Reply, System};

fn feat(supported: bool, current: u32, maximum: u32) -> SimFeature {
    SimFeature { supported, current, maximum }
}

fn dead_feat() -> SimFeature {
    feat(false, 0, 0)
}

fn device(luminance: SimFeature, contrast: SimFeature) -> SimDirect {
    SimDirect {
        luminance,
        contrast,
        brightness: dead_feat(),
        volume: dead_feat(),
        power_state: dead_feat(),
        failing: false,
        error_code: 0,
    }
}

fn empty_world() -> SimWorld {
    SimWorld {
        direct: Vec::new(),
        backlight_levels: Vec::new(),
        backlight_current: Vec::new(),
        mgmt_names: Vec::new(),
        mgmt_brightness: Vec::new(),
        mgmt_friendly: Vec::new(),
        conn: ConnState::Untried,
        conn_available: true,
        openable: Vec::new(),
    }
}

fn entry(path: &str, ordinal: u32, id: &str) -> AdapterMonitorEntry {
    AdapterMonitorEntry {
        adapter_ordinal: 0,
        monitor_ordinal: ordinal,
        device_path: path.to_string(),
        device_id: id.to_string(),
        attached: true,
        mirroring: false,
        name_ok: true,
    }
}

fn output(path: &str, handles: Vec<u64>) -> OutputRecord {
    OutputRecord { path: path.to_string(), handles }
}

/// One bus-backed monitor "DISP1" behind handle 0 of the given world.
fn bus_system(world: SimWorld) -> System {
    let mut sys = System::new(world, 0);
    sys.refresh(
        vec![entry("\\\\.\\DISPLAY1", 0, "DISP1")],
        vec![output("\\\\.\\DISPLAY1", vec![0])],
    );
    sys
}

#[test]
fn scenario_direct_bus_contrast_roundtrip() {
    let mut world = empty_world();
    world.direct.push(device(feat(true, 30, 100), feat(true, 50, 100)));
    let mut sys = bus_system(world);

    assert_eq!(sys.list_ids(), vec!["DISP1".to_string()]);
    let r = sys.get_feature("DISP1", "contrast").unwrap();
    assert_eq!(r, Reply { current: 50, maximum: 100, source: Interface::DirectBus });

    sys.set_feature("DISP1", "contrast", 75).unwrap();
    let r = sys.get_feature("DISP1", "contrast").unwrap();
    assert_eq!(r, Reply { current: 75, maximum: 100, source: Interface::DirectBus });
}

#[test]
fn scenario_set_then_get_within_maximum() {
    let mut world = empty_world();
    world.direct.push(device(feat(true, 10, 100), dead_feat()));
    let mut sys = bus_system(world);

    for v in [0u32, 1, 42, 100] {
        sys.set_feature("DISP1", "luminance", v).unwrap();
        assert_eq!(sys.get_feature("DISP1", "luminance").unwrap().current, v);
    }
}

#[test]
fn bus_write_truncates_to_protocol_ceiling() {
    let mut world = empty_world();
    world.direct.push(device(dead_feat(), feat(true, 0, 0xFFFF)));
    let mut sys = bus_system(world);

    sys.set_feature("DISP1", "contrast", 0x1_2345).unwrap();
    assert_eq!(sys.get_feature("DISP1", "contrast").unwrap().current, 0x2345);
}

fn driver_channel_system(levels: Vec<u8>, current: u8) -> System {
    let mut world = empty_world();
    world.backlight_levels.push(levels);
    world.backlight_current.push(current);
    world.openable.push(OpenScript { id: "LCD0".to_string(), handle: 0 });
    let mut sys = System::new(world, 0);
    // No display output carries a physical handle for LCD0, so it is
    // resolved through its device file.
    sys.refresh(vec![entry("\\\\.\\DISPLAY2", 0, "LCD0")], vec![]);
    sys
}

#[test]
fn scenario_driver_channel_luminance_and_unsupported_volume() {
    let mut sys = driver_channel_system(vec![0, 50, 100], 40);

    assert_eq!(sys.list_ids(), vec!["LCD0".to_string()]);
    let r = sys.get_feature("LCD0", "luminance").unwrap();
    assert_eq!(r, Reply { current: 40, maximum: 100, source: Interface::DriverChannel });

    let e = sys.get_feature("LCD0", "volume").unwrap_err();
    assert_eq!(e, EngineError::ProtocolUnsupported);
    let e = sys.set_feature("LCD0", "contrast", 10).unwrap_err();
    assert_eq!(e, EngineError::ProtocolUnsupported);
}

#[test]
fn quantization_picks_nearest_level() {
    let mut sys = driver_channel_system(vec![0, 30, 60, 90], 0);

    sys.set_feature("LCD0", "luminance", 50).unwrap();
    assert_eq!(sys.get_feature("LCD0", "luminance").unwrap().current, 60);

    sys.set_feature("LCD0", "luminance", 89).unwrap();
    assert_eq!(sys.get_feature("LCD0", "luminance").unwrap().current, 90);
}

#[test]
fn quantization_tie_resolves_to_first_listed() {
    let mut sys = driver_channel_system(vec![0, 30, 60, 90], 0);

    // 45 is equally far from 30 and 60; the earliest-listed level wins.
    sys.set_feature("LCD0", "luminance", 45).unwrap();
    assert_eq!(sys.get_feature("LCD0", "luminance").unwrap().current, 30);
}

#[test]
fn quantization_with_no_levels_truncates_to_byte() {
    let mut sys = driver_channel_system(vec![], 0);

    sys.set_feature("LCD0", "luminance", 300).unwrap();
    assert_eq!(sys.get_feature("LCD0", "luminance").unwrap().current, 44);
}

#[test]
fn pacing_keeps_calls_an_interval_apart() {
    let mut sys = driver_channel_system(vec![0, 100], 10);

    sys.get_feature("LCD0", "luminance").unwrap();
    let first_start = sys.last_start_ms;
    sys.get_feature("LCD0", "luminance").unwrap();
    let second_start = sys.last_start_ms;
    assert!(second_start - first_start >= 200);
}

#[test]
fn pacing_does_not_delay_a_late_caller_further() {
    let mut sys = driver_channel_system(vec![0, 100], 10);

    sys.get_feature("LCD0", "luminance").unwrap();
    let first_start = sys.last_start_ms;
    // The caller comes back long after the marker has passed.
    sys.advance_clock(10_000);
    sys.get_feature("LCD0", "luminance").unwrap();
    assert_eq!(sys.last_start_ms, first_start + 10_000);
}

const LAPTOP_ID: &str = "\\\\?\\DISPLAY#ABC123#5&1a2b&0&UID1#{11111111-2222-3333-4444-555555555555}";

fn management_only_world(brightness: u8) -> SimWorld {
    let mut world = empty_world();
    world.mgmt_names.push(monitor::text::chars_of("DISPLAY\\ABC123\\5&1a2b&0&UID1_0"));
    world.mgmt_brightness.push(brightness);
    world.mgmt_friendly.push("Built-in Display".to_string());
    world
}

fn management_only_system(world: SimWorld) -> System {
    let mut sys = System::new(world, 0);
    sys.refresh(vec![entry("\\\\.\\DISPLAY3", 0, LAPTOP_ID)], vec![]);
    sys
}

#[test]
fn management_only_luminance_roundtrip() {
    let mut sys = management_only_system(management_only_world(70));

    let r = sys.get_feature(LAPTOP_ID, "luminance").unwrap();
    assert_eq!(r, Reply { current: 70, maximum: 100, source: Interface::ManagementOnly });

    sys.set_feature(LAPTOP_ID, "luminance", 33).unwrap();
    assert_eq!(sys.get_feature(LAPTOP_ID, "luminance").unwrap().current, 33);
}

#[test]
fn management_only_rejects_other_features() {
    let mut sys = management_only_system(management_only_world(70));

    let e = sys.get_feature(LAPTOP_ID, "powerstate").unwrap_err();
    assert_eq!(e, EngineError::ProtocolUnsupported);
}

#[test]
fn management_write_truncates_to_byte() {
    let mut sys = management_only_system(management_only_world(0));

    sys.set_feature(LAPTOP_ID, "luminance", 256 + 25).unwrap();
    assert_eq!(sys.get_feature(LAPTOP_ID, "luminance").unwrap().current, 25);
}

#[test]
fn connection_failure_is_cached() {
    let mut world = management_only_world(70);
    world.conn_available = false;
    let mut sys = management_only_system(world);

    let e = sys.get_feature(LAPTOP_ID, "luminance").unwrap_err();
    assert_eq!(e, EngineError::ConnectionInitFailure);
    assert_eq!(sys.world.conn, ConnState::Failed);

    // The cached failure is returned again; no second attempt is made.
    let e = sys.get_feature(LAPTOP_ID, "luminance").unwrap_err();
    assert_eq!(e, EngineError::ConnectionInitFailure);
    assert_eq!(sys.world.conn, ConnState::Failed);
}

#[test]
fn get_name_surfaces_a_connection_failure() {
    let mut world = management_only_world(70);
    world.conn_available = false;
    let mut sys = management_only_system(world);

    // The failed connection is a terminal error, not an absent name, and
    // the cached failure is returned again on the second attempt.
    assert_eq!(sys.get_name(LAPTOP_ID), Err(EngineError::ConnectionInitFailure));
    assert_eq!(sys.get_name(LAPTOP_ID), Err(EngineError::ConnectionInitFailure));
    assert_eq!(sys.world.conn, ConnState::Failed);
}

#[test]
fn missing_instance_is_no_instance() {
    let mut world = management_only_world(70);
    world.mgmt_names.clear();
    world.mgmt_brightness.clear();
    world.mgmt_friendly.clear();
    let mut sys = management_only_system(world);

    let e = sys.get_feature(LAPTOP_ID, "luminance").unwrap_err();
    assert_eq!(e, EngineError::NoInstance);
}

#[test]
fn ambiguous_instances_resolve_to_no_instance() {
    let mut world = management_only_world(70);
    world.mgmt_names.push(monitor::text::chars_of("DISPLAY\\ABC123\\5&1a2b&0&UID1_0"));
    world.mgmt_brightness.push(10);
    world.mgmt_friendly.push("Ghost".to_string());
    let mut sys = management_only_system(world);

    let e = sys.get_feature(LAPTOP_ID, "luminance").unwrap_err();
    assert_eq!(e, EngineError::NoInstance);
}

#[test]
fn bus_failure_falls_back_to_management_for_luminance() {
    let mut world = management_only_world(64);
    world.direct.push(SimDirect {
        luminance: feat(true, 5, 100),
        contrast: feat(true, 50, 100),
        brightness: dead_feat(),
        volume: dead_feat(),
        power_state: dead_feat(),
        failing: true,
        error_code: 31,
    });
    let mut sys = System::new(world, 0);
    sys.refresh(
        vec![entry("\\\\.\\DISPLAY1", 0, LAPTOP_ID)],
        vec![output("\\\\.\\DISPLAY1", vec![0])],
    );

    // Luminance falls back to the management path on a failing bus.
    let r = sys.get_feature(LAPTOP_ID, "luminance").unwrap();
    assert_eq!(r, Reply { current: 64, maximum: 100, source: Interface::ManagementOnly });

    // Any other feature surfaces the bus error verbatim.
    let e = sys.get_feature(LAPTOP_ID, "contrast").unwrap_err();
    assert_eq!(e, EngineError::HardwareFailure(31));
}

#[test]
fn unsupported_bus_feature_falls_back_for_luminance_only() {
    let mut world = management_only_world(80);
    world.direct.push(device(dead_feat(), feat(true, 50, 100)));
    let mut sys = System::new(world, 0);
    sys.refresh(
        vec![entry("\\\\.\\DISPLAY1", 0, LAPTOP_ID)],
        vec![output("\\\\.\\DISPLAY1", vec![0])],
    );

    let r = sys.get_feature(LAPTOP_ID, "luminance").unwrap();
    assert_eq!(r.source, Interface::ManagementOnly);
    assert_eq!(r.current, 80);
}

#[test]
fn unknown_feature_name_is_rejected_before_hardware() {
    let mut world = empty_world();
    world.direct.push(device(feat(true, 10, 100), dead_feat()));
    let mut sys = bus_system(world);

    let e = sys.get_feature("DISP1", "gamma").unwrap_err();
    assert_eq!(e, EngineError::UnknownFeature);
}

#[test]
fn feature_names_are_case_insensitive() {
    let mut world = empty_world();
    world.direct.push(device(feat(true, 10, 100), feat(true, 20, 100)));
    let mut sys = bus_system(world);

    assert_eq!(sys.get_feature("DISP1", "LUMINANCE").unwrap().current, 10);
    assert_eq!(sys.get_feature("DISP1", "Contrast").unwrap().current, 20);
}

#[test]
fn unknown_monitor_is_rejected() {
    let mut sys = System::new(empty_world(), 0);
    sys.refresh(vec![], vec![]);

    let e = sys.get_feature("NOPE", "luminance").unwrap_err();
    assert_eq!(e, EngineError::NoSuchMonitor);
    let e = sys.set_feature("NOPE", "luminance", 1).unwrap_err();
    assert_eq!(e, EngineError::NoSuchMonitor);
}

#[test]
fn get_name_reads_the_management_friendly_name() {
    let mut sys = management_only_system(management_only_world(70));

    let name = sys.get_name(LAPTOP_ID).unwrap();
    assert_eq!(name, Some("Built-in Display".to_string()));
    assert!(sys.get_name("NOPE").is_err());
}

#[test]
fn get_name_is_none_for_a_bus_only_monitor() {
    let mut world = empty_world();
    world.direct.push(device(feat(true, 10, 100), dead_feat()));
    let mut sys = bus_system(world);

    // "DISP1" has no device-namespace shape, so no instance derives.
    assert_eq!(sys.get_name("DISP1").unwrap(), None);
}
