//! Unit tests for the roster-building pieces: composite keys, instance
//! name derivation, query building, enumeration filtering, correlation
//! bookkeeping, quantization and pacing.

use monitor::error::error_to_message;
use monitor::ids::composite_key;
use monitor::mgmt::{build_instance_query, derive_instance_name};
use monitor::pacing::pace;
use monitor::quantize::snap_to_levels;
use monitor::sim::{SimDirect, SimFeature, SimWorld};
use monitor::text::chars_of;
use monitor::{AdapterMonitorEntry, Backend, EngineError, Feature, OutputRecord, System};
use monitor::feature::feature_from_string;
use monitor::mgmt::ConnState;

fn entry(path: &str, ordinal: u32, id: &str) -> AdapterMonitorEntry {
    AdapterMonitorEntry {
        adapter_ordinal: 0,
        monitor_ordinal: ordinal,
        device_path: path.to_string(),
        device_id: id.to_string(),
        attached: true,
        mirroring: false,
        name_ok: true,
    }
}

fn bare_world() -> SimWorld {
    SimWorld {
        direct: Vec::new(),
        backlight_levels: Vec::new(),
        backlight_current: Vec::new(),
        mgmt_names: Vec::new(),
        mgmt_brightness: Vec::new(),
        mgmt_friendly: Vec::new(),
        conn: ConnState::Untried,
        conn_available: true,
        openable: Vec::new(),
    }
}

#[test]
fn composite_keys_follow_the_positional_convention() {
    assert_eq!(composite_key("\\\\.\\DISPLAY1", 0), "\\\\.\\DISPLAY1\\Monitor0");
    assert_eq!(composite_key("\\\\.\\DISPLAY2", 12), "\\\\.\\DISPLAY2\\Monitor12");
    assert_eq!(composite_key("p", 30507), "p\\Monitor30507");
}

#[test]
fn vcp_codes_are_the_fixed_protocol_bytes() {
    assert_eq!(Feature::Luminance.vcp_code(), 0x10);
    assert_eq!(Feature::Contrast.vcp_code(), 0x12);
    assert_eq!(Feature::Brightness.vcp_code(), 0x13);
    assert_eq!(Feature::Volume.vcp_code(), 0x62);
    assert_eq!(Feature::PowerState.vcp_code(), 0xD6);
}

#[test]
fn feature_names_parse_case_insensitively() {
    assert_eq!(feature_from_string("luminance"), Ok(Feature::Luminance));
    assert_eq!(feature_from_string("CONTRAST"), Ok(Feature::Contrast));
    assert_eq!(feature_from_string("Brightness"), Ok(Feature::Brightness));
    assert_eq!(feature_from_string("vOlUmE"), Ok(Feature::Volume));
    assert_eq!(feature_from_string("PowerState"), Ok(Feature::PowerState));
    assert_eq!(feature_from_string("gamma"), Err(EngineError::UnknownFeature));
    assert_eq!(feature_from_string(""), Err(EngineError::UnknownFeature));
}

#[test]
fn instance_name_derivation_rewrites_the_identity() {
    let id = "\\\\?\\DISPLAY#GSM5B08#5&c3c9f7d&0&UID4352#{11111111-2222-3333-4444-555555555555}";
    let derived = derive_instance_name(id).unwrap();
    assert_eq!(derived, chars_of("DISPLAY\\GSM5B08\\5&c3c9f7d&0&UID4352_0"));
}

#[test]
fn instance_name_derivation_rejects_malformed_identities() {
    // No device-namespace prefix.
    assert!(derive_instance_name("DISPLAY#A#B").is_none());
    // No separator after the prefix.
    assert!(derive_instance_name("\\\\?\\DISPLAYAB").is_none());
    // A separator only at the very start of the stripped identity.
    assert!(derive_instance_name("\\\\?\\#AB").is_none());
}

#[test]
fn instance_queries_escape_separators_and_quotes() {
    let name = chars_of("DISPLAY\\A\"B_0");
    let q = build_instance_query("WmiMonitorID", &name);
    assert_eq!(
        q,
        chars_of("SELECT * FROM WmiMonitorID WHERE InstanceName=\"DISPLAY\\\\A\\\"B_0\"")
    );
}

#[test]
fn enumeration_filters_mirroring_and_detached_devices() {
    let mut mirroring = entry("\\\\.\\DISPLAY1", 1, "MIRROR");
    mirroring.mirroring = true;
    let mut detached = entry("\\\\.\\DISPLAY1", 2, "GONE");
    detached.attached = false;
    let mut unnamed = entry("\\\\.\\DISPLAY1", 3, "RAW");
    unnamed.name_ok = false;

    let mut sys = System::new(bare_world(), 0);
    sys.refresh(
        vec![entry("\\\\.\\DISPLAY1", 0, "KEPT"), mirroring, detached, unnamed],
        vec![],
    );

    assert_eq!(sys.list_ids(), vec!["KEPT".to_string()]);
    // The skipped device is flagged by key, never silently dropped.
    assert_eq!(sys.registry.diagnostics, vec!["\\\\.\\DISPLAY1\\Monitor3".to_string()]);
}

#[test]
fn roster_size_equals_the_discovered_identities() {
    let slot = SimFeature { supported: true, current: 0, maximum: 100 };
    let dead = SimFeature { supported: false, current: 0, maximum: 0 };
    let mut world = bare_world();
    world.direct.push(SimDirect {
        luminance: slot,
        contrast: dead,
        brightness: dead,
        volume: dead,
        power_state: dead,
        failing: false,
        error_code: 0,
    });
    let mut sys = System::new(world, 0);
    sys.refresh(
        vec![entry("\\\\.\\DISPLAY1", 0, "A"), entry("\\\\.\\DISPLAY2", 0, "B")],
        vec![OutputRecord { path: "\\\\.\\DISPLAY1".to_string(), handles: vec![9] }],
    );

    // Both identities stand in the roster: one bus-matched, one retained
    // as management-only.
    assert_eq!(sys.list_ids(), vec!["A".to_string(), "B".to_string()]);
    assert_eq!(sys.registry.entries[0].monitor.backend, Backend::DirectBus(9));
    assert_eq!(sys.registry.entries[1].monitor.backend, Backend::ManagementOnly);
}

#[test]
fn orphaned_handles_are_flagged_and_released() {
    let mut sys = System::new(bare_world(), 0);
    sys.refresh(
        vec![entry("\\\\.\\DISPLAY1", 0, "A")],
        vec![OutputRecord { path: "\\\\.\\DISPLAY1".to_string(), handles: vec![5, 6] }],
    );

    // The second handle found no identity under its key: it is released
    // and its key is flagged.
    assert_eq!(sys.released, vec![6]);
    assert_eq!(sys.registry.diagnostics, vec!["\\\\.\\DISPLAY1\\Monitor1".to_string()]);
    assert_eq!(sys.list_ids(), vec!["A".to_string()]);
}

#[test]
fn refresh_is_idempotent_over_an_unchanged_topology() {
    let make_inputs = || {
        (
            vec![entry("\\\\.\\DISPLAY1", 0, "A"), entry("\\\\.\\DISPLAY2", 0, "B")],
            vec![OutputRecord { path: "\\\\.\\DISPLAY1".to_string(), handles: vec![3] }],
        )
    };
    let mut sys = System::new(bare_world(), 0);
    let (e1, o1) = make_inputs();
    sys.refresh(e1, o1);
    let first = sys.list_ids();
    let (e2, o2) = make_inputs();
    sys.refresh(e2, o2);
    assert_eq!(sys.list_ids(), first);
}

#[test]
fn replaced_rosters_release_their_handles_exactly_once() {
    let mut sys = System::new(bare_world(), 0);
    sys.refresh(
        vec![entry("\\\\.\\DISPLAY1", 0, "A")],
        vec![OutputRecord { path: "\\\\.\\DISPLAY1".to_string(), handles: vec![11] }],
    );
    assert_eq!(sys.released, Vec::<u64>::new());

    sys.refresh(vec![], vec![]);
    // The previous roster's bus handle came back exactly once.
    assert_eq!(sys.released, vec![11]);
}

#[test]
fn snapping_minimizes_distance_with_earliest_tie() {
    let levels = vec![10u8, 20, 40, 80];
    assert_eq!(snap_to_levels(&levels, 0), 10);
    assert_eq!(snap_to_levels(&levels, 29), 20);
    assert_eq!(snap_to_levels(&levels, 30), 20); // tie 20/40: earliest listed
    assert_eq!(snap_to_levels(&levels, 31), 40);
    assert_eq!(snap_to_levels(&levels, 1000), 80);
}

#[test]
fn pacing_marker_advances_by_the_interval() {
    // A caller arriving after the marker starts at once.
    assert_eq!(pace(1000, 1500), (1500, 1700));
    // A caller arriving early waits until the marker.
    assert_eq!(pace(1000, 900), (1000, 1200));
}

#[test]
fn error_messages_name_each_failure() {
    assert_eq!(error_to_message(&EngineError::UnknownFeature), "invalid feature name");
    assert_eq!(error_to_message(&EngineError::NoSuchMonitor), "no such monitor");
    assert_eq!(
        error_to_message(&EngineError::ProtocolUnsupported),
        "feature not supported on this monitor"
    );
    assert_eq!(
        error_to_message(&EngineError::HardwareFailure(31)),
        "hardware call failed (code 31)"
    );
    assert_eq!(
        error_to_message(&EngineError::ConnectionInitFailure),
        "management connection could not be established"
    );
    assert_eq!(
        error_to_message(&EngineError::NoInstance),
        "no management instance for this monitor"
    );
}
