//! The engine: a registry of correlated monitors over a hardware world,
//! exposing roster refresh and feature reads and writes with per-monitor
//! backend dispatch, fallback, quantization and pacing.
//!
//! Time is modelled: the caller's clock advances explicitly, and the
//! pacing throttle is enforced against it.

use vstd::prelude::*;

use crate::dispatch::{bus_fallback_to_management, plan_call, CallPlan};
use crate::correlate::{
    correlate, lemma_correlation_accounts, resolve_remaining, spec_all_pairs, spec_cor_start,
    spec_correlate_from, spec_map_ids, spec_matched_ids, spec_resolve_one, CorState, OutputModel,
    OutputRecord,
};
use crate::enumerate::{enumerate_devices, spec_enum_empty, spec_enumerate_from,
    AdapterMonitorEntry, EntryModel, EnumState};
use crate::error::EngineError;
use crate::feature::{feature_from_string, spec_feature_of_name, Feature};
use crate::identity::IdPair;
use crate::pacing::{pace, spec_call_start, spec_next_marker, PACING_INTERVAL_MS};
use crate::registry::{lemma_reg_find, spec_reg_find, spec_reg_monitors, Registry,
    RosterEntryModel};
use crate::roster::{spec_roster_handles, spec_roster_ids, Backend, Interface, MonitorModel, Reply};
use vstd::seq_lib::lemma_multiset_commutative;

use crate::sim::{
    backlight_get, bus_get, bus_set, mgmt_friendly_name, mgmt_get_brightness, mgmt_set_brightness,
    open_device, spec_backlight_after_set, spec_backlight_get, spec_bus_get, spec_bus_set_ok,
    spec_conn_after, spec_conn_ok, spec_direct_after_set, spec_mgmt_after_set, spec_mgmt_friendly,
    spec_mgmt_get, spec_mgmt_index, spec_open_result, SimDirect, SimWorld,
};

verus! {

/// The latest instant the modelled clock may stand at before a feature
/// call: leaves room for the pacing marker to advance.
pub const MAX_TIME_MS: u64 = 0xffff_ffff_fffe_0000;

/// The identity map one topology transcript yields.
pub open spec fn spec_identity_pass(entries: Seq<crate::enumerate::EntryModel>) -> EnumState {
    spec_enumerate_from(spec_enum_empty(), entries)
}

/// The correlator's outcome over a transcript and a handle walk.
pub open spec fn spec_correlation(
    entries: Seq<crate::enumerate::EntryModel>,
    outputs: Seq<crate::correlate::OutputModel>,
) -> CorState {
    spec_correlate_from(spec_cor_start(spec_identity_pass(entries).map), spec_all_pairs(outputs))
}

/// The monitors the identities left after bus correlation resolve to.
pub open spec fn spec_resolved_tail(
    w: SimWorld,
    entries: Seq<crate::enumerate::EntryModel>,
    outputs: Seq<crate::correlate::OutputModel>,
) -> Seq<MonitorModel> {
    let fin = spec_correlation(entries, outputs);
    Seq::new(
        fin.map.len(),
        |i: int| spec_resolve_one(fin.map[i], spec_open_result(w.openable@, fin.map[i].1)),
    )
}

/// The roster a refresh builds: bus-matched monitors first, then the
/// resolved rest — every identity of the pass, exactly once.
pub open spec fn spec_roster_after_refresh(
    w: SimWorld,
    entries: Seq<crate::enumerate::EntryModel>,
    outputs: Seq<crate::correlate::OutputModel>,
) -> Seq<MonitorModel> {
    spec_correlation(entries, outputs).matched + spec_resolved_tail(w, entries, outputs)
}

/// The diagnostics a refresh retains: devices skipped during
/// enumeration, then keys whose handle found no identity.
pub open spec fn spec_diags_after_refresh(
    entries: Seq<crate::enumerate::EntryModel>,
    outputs: Seq<crate::correlate::OutputModel>,
) -> Seq<Seq<char>> {
    spec_identity_pass(entries).skipped + spec_correlation(entries, outputs).unmatched
}


/// What a feature read returns, over the world and the monitor's
/// backend: the bus is always tried first on a bus-backed monitor, and
/// on any bus failure a Luminance request falls back to the
/// management-data service; the two handle-less backends serve exactly
/// Luminance and reject everything else before any hardware call.
pub open spec fn spec_get_feature(w: SimWorld, m: MonitorModel, f: Feature) -> Result<
    Reply,
    EngineError,
> {
    match m.backend {
        Backend::DirectBus(h) => match spec_bus_get(w, h, f) {
            Ok(cm) => Ok(Reply { current: cm.0, maximum: cm.1, source: Interface::DirectBus }),
            Err(code) => if f is Luminance {
                match spec_mgmt_get(w, m.id) {
                    Ok(b) => Ok(
                        Reply { current: b as u32, maximum: 100, source: Interface::ManagementOnly },
                    ),
                    Err(e) => Err(e),
                }
            } else {
                Err(EngineError::HardwareFailure(code))
            },
        },
        Backend::DriverChannel(h) => if !(f is Luminance) {
            Err(EngineError::ProtocolUnsupported)
        } else {
            match spec_backlight_get(w, h) {
                Ok(b) => Ok(
                    Reply { current: b as u32, maximum: 100, source: Interface::DriverChannel },
                ),
                Err(code) => Err(EngineError::HardwareFailure(code)),
            }
        },
        Backend::ManagementOnly => if !(f is Luminance) {
            Err(EngineError::ProtocolUnsupported)
        } else {
            match spec_mgmt_get(w, m.id) {
                Ok(b) => Ok(
                    Reply { current: b as u32, maximum: 100, source: Interface::ManagementOnly },
                ),
                Err(e) => Err(e),
            }
        },
    }
}

/// Whether a read consults the management-data service (and so touches
/// the shared connection cache).
pub open spec fn spec_get_uses_mgmt(w: SimWorld, m: MonitorModel, f: Feature) -> bool {
    match m.backend {
        Backend::DirectBus(h) => f is Luminance && spec_bus_get(w, h, f) is Err,
        Backend::DriverChannel(_) => false,
        Backend::ManagementOnly => f is Luminance,
    }
}

/// What a management-backed write returns.
pub open spec fn spec_mgmt_set_result(w: SimWorld, id: Seq<char>) -> Result<(), EngineError> {
    if !spec_conn_ok(w) {
        Err(EngineError::ConnectionInitFailure)
    } else if spec_mgmt_index(w, id) is None {
        Err(EngineError::NoInstance)
    } else {
        Ok(())
    }
}

/// What a feature write returns, with the same dispatch and fallback as
/// a read.
pub open spec fn spec_set_feature(w: SimWorld, m: MonitorModel, f: Feature, v: u32) -> Result<
    (),
    EngineError,
> {
    match m.backend {
        Backend::DirectBus(h) => match spec_bus_set_ok(w, h, f) {
            Ok(u) => Ok(u),
            Err(code) => if f is Luminance {
                spec_mgmt_set_result(w, m.id)
            } else {
                Err(EngineError::HardwareFailure(code))
            },
        },
        Backend::DriverChannel(h) => if !(f is Luminance) {
            Err(EngineError::ProtocolUnsupported)
        } else if h >= w.backlight_current@.len() {
            Err(EngineError::HardwareFailure(crate::sim::ERROR_INVALID_HANDLE))
        } else {
            Ok(())
        },
        Backend::ManagementOnly => if !(f is Luminance) {
            Err(EngineError::ProtocolUnsupported)
        } else {
            spec_mgmt_set_result(w, m.id)
        },
    }
}

/// Whether a write consults the management-data service.
pub open spec fn spec_set_uses_mgmt(w: SimWorld, m: MonitorModel, f: Feature) -> bool {
    match m.backend {
        Backend::DirectBus(h) => f is Luminance && spec_bus_set_ok(w, h, f) is Err,
        Backend::DriverChannel(_) => false,
        Backend::ManagementOnly => f is Luminance,
    }
}

/// The bus devices after a write against this monitor.
pub open spec fn spec_world_direct_after(w: SimWorld, m: MonitorModel, f: Feature, v: u32) -> Seq<
    SimDirect,
> {
    match m.backend {
        Backend::DirectBus(h) => spec_direct_after_set(w, h, f, v),
        _ => w.direct@,
    }
}

/// The backlight levels after a write against this monitor.
pub open spec fn spec_world_backlight_after(
    w: SimWorld,
    m: MonitorModel,
    f: Feature,
    v: u32,
) -> Seq<u8> {
    match m.backend {
        Backend::DriverChannel(h) => if f is Luminance {
            spec_backlight_after_set(w, h, v)
        } else {
            w.backlight_current@
        },
        _ => w.backlight_current@,
    }
}

/// The management brightness properties after a write against this
/// monitor.
pub open spec fn spec_world_mgmt_after(w: SimWorld, m: MonitorModel, f: Feature, v: u32) -> Seq<
    u8,
> {
    if spec_set_uses_mgmt(w, m, f) {
        spec_mgmt_after_set(w, m.id, v)
    } else {
        w.mgmt_brightness@
    }
}


/// Law: a refresh loses no identity and leaks no handle. The roster
/// holds exactly one entry per identity the enumeration pass
/// discovered; as a multiset, the roster's identities are exactly the
/// pass's identities; and every orphaned handle is flagged in the
/// diagnostics exactly once.
pub proof fn lemma_refresh_accounts(
    w: SimWorld,
    entries: Seq<EntryModel>,
    outputs: Seq<OutputModel>,
)
    ensures
        spec_roster_after_refresh(w, entries, outputs).len() == spec_identity_pass(
            entries,
        ).map.len(),
        spec_correlation(entries, outputs).orphans.len() == spec_correlation(
            entries,
            outputs,
        ).unmatched.len(),
        spec_roster_ids(spec_roster_after_refresh(w, entries, outputs)).to_multiset()
            == spec_map_ids(spec_identity_pass(entries).map).to_multiset(),
{
    let en = spec_identity_pass(entries);
    let st0 = spec_cor_start(en.map);
    let fin = spec_correlation(entries, outputs);
    let tail = spec_resolved_tail(w, entries, outputs);
    let roster = spec_roster_after_refresh(w, entries, outputs);
    broadcast use vstd::seq_lib::group_to_multiset_ensures;
    broadcast use vstd::multiset::group_multiset_axioms;

    lemma_correlation_accounts(st0, spec_all_pairs(outputs));
    assert(spec_matched_ids(st0.matched) =~= Seq::<Seq<char>>::empty());
    assert(spec_roster_ids(roster) =~= spec_matched_ids(fin.matched) + spec_map_ids(fin.map)) by {
        assert(spec_roster_ids(roster).len() == fin.matched.len() + fin.map.len());
        assert forall|i: int| 0 <= i < roster.len() implies #[trigger] spec_roster_ids(roster)[i]
            == (spec_matched_ids(fin.matched) + spec_map_ids(fin.map))[i] by {
            if i < fin.matched.len() {
                assert(roster[i] == fin.matched[i]);
            } else {
                assert(roster[i] == tail[i - fin.matched.len()]);
            }
        }
    }
    lemma_multiset_commutative(spec_matched_ids(fin.matched), spec_map_ids(fin.map));
    assert(spec_map_ids(st0.map) == spec_map_ids(en.map));
    assert(spec_matched_ids(st0.matched).to_multiset().add(spec_map_ids(en.map).to_multiset())
        =~= spec_map_ids(en.map).to_multiset()) by {
        assert(forall|x: Seq<char>|
            !spec_matched_ids(st0.matched).contains(x) ==> spec_matched_ids(
                st0.matched,
            ).to_multiset().count(x) == 0);
    }
    assert(spec_roster_ids(roster).to_multiset() =~= spec_map_ids(en.map).to_multiset());
}


/// Law: identities unique within one enumeration pass stay unique in
/// the roster: no refresh ever doubles a monitor.
pub proof fn lemma_roster_ids_unique(
    w: SimWorld,
    entries: Seq<EntryModel>,
    outputs: Seq<OutputModel>,
)
    requires
        spec_map_ids(spec_identity_pass(entries).map).no_duplicates(),
    ensures
        spec_roster_ids(spec_roster_after_refresh(w, entries, outputs)).no_duplicates(),
{
    let en_ids = spec_map_ids(spec_identity_pass(entries).map);
    let ro_ids = spec_roster_ids(spec_roster_after_refresh(w, entries, outputs));
    lemma_refresh_accounts(w, entries, outputs);
    en_ids.lemma_multiset_has_no_duplicates();
    assert(forall|x: Seq<char>|
        ro_ids.to_multiset().contains(x) ==> ro_ids.to_multiset().count(x) == 1);
    ro_ids.lemma_multiset_has_no_duplicates_conv();
}

/// Law: refreshing is idempotent over an unchanged topology. Two
/// rosters built from the same transcript, handle walk and world carry
/// the same identities, in the same order.
pub proof fn lemma_refresh_idempotent(
    w: SimWorld,
    entries: Seq<EntryModel>,
    outputs: Seq<OutputModel>,
    r1: Seq<MonitorModel>,
    r2: Seq<MonitorModel>,
)
    requires
        r1 == spec_roster_after_refresh(w, entries, outputs),
        r2 == spec_roster_after_refresh(w, entries, outputs),
    ensures
        spec_roster_ids(r1) == spec_roster_ids(r2),
{
}

/// Law: on a bus-backed monitor whose device accepts the transaction, a
/// write of any value up to the reported maximum followed by a read
/// returns exactly that value, with the maximum untouched and the reply
/// tagged as a bus transaction.
pub proof fn lemma_set_then_get(
    w1: SimWorld,
    w2: SimWorld,
    m: MonitorModel,
    h: u64,
    f: Feature,
    v: u32,
)
    requires
        w1.wf(),
        m.backend == Backend::DirectBus(h),
        spec_bus_set_ok(w1, h, f) is Ok,
        v <= crate::sim::spec_feat(w1.direct@[h as int], f).maximum,
        w2.direct@ == spec_world_direct_after(w1, m, f, v),
    ensures
        spec_set_feature(w1, m, f, v) is Ok,
        spec_get_feature(w2, m, f) == Result::<Reply, EngineError>::Ok(
            Reply {
                current: v,
                maximum: crate::sim::spec_feat(w1.direct@[h as int], f).maximum,
                source: Interface::DirectBus,
            },
        ),
{
    let d = w1.direct@[h as int];
    let slot = crate::sim::spec_feat(d, f);
    assert(crate::sim::spec_direct_wf(d));
    assert(slot.maximum < 0x10000);
    let nd = crate::sim::spec_with_feat(
        d,
        f,
        crate::sim::SimFeature { current: crate::sim::spec_wire16(v), ..slot },
    );
    assert(w2.direct@[h as int] == nd);
    assert(crate::sim::spec_feat(nd, f).current == v);
    assert(crate::sim::spec_feat(nd, f).maximum == slot.maximum);
    assert(crate::sim::spec_feat(nd, f).supported);
    assert(!nd.failing);
}


/// Law: after a driver-channel write, a read reports exactly the level
/// the request snapped to — the supported level nearest the request,
/// ties to the earliest listed — against the channel's fixed maximum of
/// 100.
pub proof fn lemma_snap_then_get(
    w1: SimWorld,
    w2: SimWorld,
    m: MonitorModel,
    h: u64,
    v: u32,
)
    requires
        m.backend == Backend::DriverChannel(h),
        h < w1.backlight_current@.len(),
        w2.backlight_current@ == spec_world_backlight_after(w1, m, Feature::Luminance, v),
    ensures
        spec_set_feature(w1, m, Feature::Luminance, v) is Ok,
        spec_get_feature(w2, m, Feature::Luminance) == Result::<Reply, EngineError>::Ok(
            Reply {
                current: crate::sim::spec_backlight_target(
                    w1.backlight_levels@[h as int]@,
                    v,
                ) as u32,
                maximum: 100,
                source: Interface::DriverChannel,
            },
        ),
{
    assert(w2.backlight_current@[h as int] == crate::sim::spec_backlight_target(
        w1.backlight_levels@[h as int]@,
        v,
    ));
}

/// The engine: roster, hardware world, modelled clock, and the record of
/// every handle released so far.
pub struct System {
    pub registry: Registry,
    pub world: SimWorld,
    /// The modelled wall clock, in milliseconds.
    pub clock_ms: u64,
    /// When the latest feature call actually started, after pacing.
    pub last_start_ms: u64,
    /// Every handle released so far, in release order.
    pub released: Vec<u64>,
}

impl System {
    /// The world lines up and no pacing marker runs ahead of the clock
    /// by more than one interval.
    pub open spec fn wf(&self) -> bool {
        &&& self.world.wf()
        &&& forall|i: int|
            0 <= i < self.registry.models().len() ==> (
            #[trigger] self.registry.models()[i]).next_allowed_ms as int <= self.clock_ms as int
                + PACING_INTERVAL_MS as int
    }

    /// A fresh engine over a world, with an empty roster.
    pub fn new(world: SimWorld, clock_ms: u64) -> (s: System)
        requires
            world.wf(),
        ensures
            s.wf(),
            s.registry.models() == Seq::<RosterEntryModel>::empty(),
            s.world == world,
            s.clock_ms == clock_ms,
            s.released@ == Seq::<u64>::empty(),
    {
        System {
            registry: Registry::new(),
            world,
            clock_ms,
            last_start_ms: 0,
            released: Vec::new(),
        }
    }

    /// Moves the modelled clock forward.
    pub fn advance_clock(&mut self, delta_ms: u64)
        requires
            old(self).wf(),
            old(self).clock_ms + delta_ms <= u64::MAX,
        ensures
            final(self).wf(),
            final(self).clock_ms == old(self).clock_ms + delta_ms,
            final(self).registry == old(self).registry,
            final(self).world == old(self).world,
            final(self).last_start_ms == old(self).last_start_ms,
            final(self).released == old(self).released,
    {
        self.clock_ms = self.clock_ms + delta_ms;
    }

    /// The identities of the current roster, in roster order.
    pub fn list_ids(&self) -> (ids: Vec<String>)
        ensures
            ids@.map_values(|s: String| s@) == spec_reg_monitors(self.registry.models())
                .map_values(|m: MonitorModel| m.id),
    {
        self.registry.list_ids()
    }

    /// Rebuilds the roster from one topology transcript and one handle
    /// walk: enumeration, positional correlation, device-file resolution
    /// of the rest. The previous roster's handles and every orphaned
    /// handle are released, exactly once each; diagnostics are retained.
    pub fn refresh(&mut self, entries: Vec<AdapterMonitorEntry>, outputs: Vec<OutputRecord>)
        requires
            old(self).wf(),
            forall|k: int|
                0 <= k < outputs@.len() ==> (#[trigger] outputs@[k]).handles@.len() <= u32::MAX,
        ensures
            final(self).wf(),
            final(self).registry.models() == spec_roster_after_refresh(
                old(self).world,
                entries@.map_values(|e: AdapterMonitorEntry| e@),
                outputs@.map_values(|o: OutputRecord| o@),
            ).map_values(|m: MonitorModel| RosterEntryModel { monitor: m, next_allowed_ms: 0 }),
            final(self).registry.diagnostics@.map_values(|s: String| s@)
                == spec_diags_after_refresh(
                entries@.map_values(|e: AdapterMonitorEntry| e@),
                outputs@.map_values(|o: OutputRecord| o@),
            ),
            final(self).released@ == old(self).released@ + spec_roster_handles(
                spec_reg_monitors(old(self).registry.models()),
            ) + spec_correlation(
                entries@.map_values(|e: AdapterMonitorEntry| e@),
                outputs@.map_values(|o: OutputRecord| o@),
            ).orphans,
            final(self).world == old(self).world,
            final(self).clock_ms == old(self).clock_ms,
            final(self).last_start_ms == old(self).last_start_ms,
    {
        let ghost em = entries@.map_values(|e: AdapterMonitorEntry| e@);
        let ghost om = outputs@.map_values(|o: OutputRecord| o@);
        let ghost fin = spec_correlation(em, om);
        let (mut map, skipped) = enumerate_devices(entries);
        let cor = correlate(&mut map, &outputs);
        let leftover = map.into_pairs();
        proof {
            assert(leftover@.map_values(|p: IdPair| p@) == fin.map);
        }
        // Ask the world, identity by identity, whether a device file opens.
        let mut opens: Vec<Option<u64>> = Vec::new();
        let mut i: usize = 0;
        while i < leftover.len()
            invariant
                0 <= i <= leftover@.len(),
                opens@.len() == i,
                leftover@.map_values(|p: IdPair| p@) == fin.map,
                forall|k: int|
                    0 <= k < i ==> opens@[k] == spec_open_result(
                        self.world.openable@,
                        (#[trigger] leftover@[k])@.1,
                    ),
                self.world == old(self).world,
            decreases leftover@.len() - i,
        {
            let r = open_device(&self.world, &leftover[i].id);
            opens.push(r);
            i += 1;
        }
        let mut roster = cor.matched;
        let mut resolved = resolve_remaining(&leftover, &opens);
        proof {
            assert(resolved@.map_values(|m: crate::roster::Monitor| m@) =~= spec_resolved_tail(
                old(self).world,
                em,
                om,
            )) by {
                assert forall|k: int|
                    0 <= k < fin.map.len() implies resolved@.map_values(
                    |m: crate::roster::Monitor| m@,
                )[k] == spec_resolved_tail(old(self).world, em, om)[k] by {
                    assert(leftover@.map_values(|p: IdPair| p@)[k] == fin.map[k]);
                    assert(opens@[k] == spec_open_result(self.world.openable@, leftover@[k]@.1));
                    assert(leftover@[k]@ == fin.map[k]);
                }
            }
        }
        let ghost matched_view = roster@.map_values(|m: crate::roster::Monitor| m@);
        roster.append(&mut resolved);
        proof {
            assert(roster@.map_values(|m: crate::roster::Monitor| m@) =~= matched_view
                + spec_resolved_tail(old(self).world, em, om));
        }
        let mut diagnostics = skipped;
        let ghost skipped_view = diagnostics@.map_values(|s: String| s@);
        let mut unmatched = cor.unmatched_keys;
        diagnostics.append(&mut unmatched);
        proof {
            assert(diagnostics@.map_values(|s: String| s@) =~= skipped_view + fin.unmatched);
        }
        let mut prev_handles = self.registry.replace(roster, diagnostics);
        self.released.append(&mut prev_handles);
        let mut orphans = cor.orphan_handles;
        self.released.append(&mut orphans);
        proof {
            assert(final(self).released@ =~= old(self).released@ + spec_roster_handles(
                spec_reg_monitors(old(self).registry.models()),
            ) + fin.orphans);
            assert(final(self).registry.models() =~= spec_roster_after_refresh(
                old(self).world,
                em,
                om,
            ).map_values(|m: MonitorModel| RosterEntryModel { monitor: m, next_allowed_ms: 0 }));
        }
    }

    /// Reads one feature of the roster monitor holding `id`. The call is
    /// paced: it starts no earlier than the monitor's marker allows and
    /// leaves the marker one interval past its own start. An unknown
    /// feature name is rejected before any hardware call; any feature
    /// other than Luminance against a monitor with no bus handle fails
    /// with `ProtocolUnsupported`.
    pub fn get_feature(&mut self, id: &str, feature_name: &str) -> (r: Result<Reply, EngineError>)
        requires
            old(self).wf(),
            old(self).clock_ms <= MAX_TIME_MS,
        ensures
            final(self).wf(),
            final(self).world.direct == old(self).world.direct,
            final(self).world.backlight_levels == old(self).world.backlight_levels,
            final(self).world.backlight_current == old(self).world.backlight_current,
            final(self).world.mgmt_names == old(self).world.mgmt_names,
            final(self).world.mgmt_brightness == old(self).world.mgmt_brightness,
            final(self).world.mgmt_friendly == old(self).world.mgmt_friendly,
            final(self).world.conn_available == old(self).world.conn_available,
            final(self).world.openable == old(self).world.openable,
            final(self).released == old(self).released,
            final(self).registry.diagnostics == old(self).registry.diagnostics,
            ({
                let ms = old(self).registry.models();
                let j = spec_reg_find(ms, id@);
                let fo = spec_feature_of_name(feature_name@);
                if j < 0 {
                    &&& r == Result::<Reply, EngineError>::Err(EngineError::NoSuchMonitor)
                    &&& final(self).registry.models() == ms
                    &&& final(self).clock_ms == old(self).clock_ms
                    &&& final(self).last_start_ms == old(self).last_start_ms
                    &&& final(self).world.conn == old(self).world.conn
                } else if fo is None {
                    &&& r == Result::<Reply, EngineError>::Err(EngineError::UnknownFeature)
                    &&& final(self).registry.models() == ms
                    &&& final(self).clock_ms == old(self).clock_ms
                    &&& final(self).last_start_ms == old(self).last_start_ms
                    &&& final(self).world.conn == old(self).world.conn
                } else {
                    let f = fo->Some_0;
                    let m = ms[j].monitor;
                    let start = spec_call_start(ms[j].next_allowed_ms, old(self).clock_ms);
                    &&& r == spec_get_feature(old(self).world, m, f)
                    &&& (!(m.backend is DirectBus) && !(f is Luminance) ==> r == Result::<
                        Reply,
                        EngineError,
                    >::Err(EngineError::ProtocolUnsupported))
                    &&& final(self).clock_ms == start
                    &&& final(self).last_start_ms == start
                    &&& final(self).registry.models() == ms.update(
                        j,
                        RosterEntryModel {
                            monitor: m,
                            next_allowed_ms: spec_next_marker(
                                ms[j].next_allowed_ms,
                                old(self).clock_ms,
                            ) as u64,
                        },
                    )
                    &&& final(self).world.conn == if spec_get_uses_mgmt(old(self).world, m, f) {
                        spec_conn_after(old(self).world)
                    } else {
                        old(self).world.conn
                    }
                }
            }),
    {
        proof {
            lemma_reg_find(self.registry.models(), id@);
        }
        let j = match self.registry.find_entry(id) {
            Some(j) => j,
            None => {
                return Err(EngineError::NoSuchMonitor);
            },
        };
        let f = match feature_from_string(feature_name) {
            Ok(f) => f,
            Err(e) => {
                return Err(e);
            },
        };
        let ghost ms = self.registry.models();
        proof {
            assert(ms.len() == self.registry.entries@.len());
            assert(ms[j as int] == self.registry.entries@[j as int]@);
            assert(ms[j as int].monitor.id == id@);
        }
        let marker = self.registry.entries[j].next_allowed_ms;
        let (start, new_marker) = pace(marker, self.clock_ms);
        self.clock_ms = start;
        self.last_start_ms = start;
        self.registry.set_marker(j, new_marker);
        proof {
            assert(self.registry.models().len() == self.registry.entries@.len());
            assert(self.registry.models()[j as int] == self.registry.entries@[j as int]@);
            assert(self.registry.entries@[j as int]@.monitor == ms[j as int].monitor);
        }
        let backend = self.registry.entries[j].monitor.backend;
        match plan_call(&backend, f) {
            CallPlan::BusTransaction(h, _code) => {
                match bus_get(&self.world, h, f) {
                    Ok((current, maximum)) => Ok(
                        Reply { current, maximum, source: Interface::DirectBus },
                    ),
                    Err(code) => {
                        if bus_fallback_to_management(f) {
                            match mgmt_get_brightness(&mut self.world, id) {
                                Ok(b) => Ok(
                                    Reply {
                                        current: b as u32,
                                        maximum: 100,
                                        source: Interface::ManagementOnly,
                                    },
                                ),
                                Err(e) => Err(e),
                            }
                        } else {
                            Err(EngineError::HardwareFailure(code))
                        }
                    },
                }
            },
            CallPlan::BacklightChannel(h) => {
                match backlight_get(&self.world, h) {
                    Ok(b) => Ok(
                        Reply { current: b as u32, maximum: 100, source: Interface::DriverChannel },
                    ),
                    Err(code) => Err(EngineError::HardwareFailure(code)),
                }
            },
            CallPlan::ManagementLookup => {
                match mgmt_get_brightness(&mut self.world, id) {
                    Ok(b) => Ok(
                        Reply {
                            current: b as u32,
                            maximum: 100,
                            source: Interface::ManagementOnly,
                        },
                    ),
                    Err(e) => Err(e),
                }
            },
            CallPlan::Unsupported => Err(EngineError::ProtocolUnsupported),
        }
    }

    /// Writes one feature of the roster monitor holding `id`, with the
    /// same pacing, dispatch and fallback as a read. A bus write carries
    /// the value truncated to the 16-bit protocol ceiling; a
    /// driver-channel write snaps it to the supported-level list; a
    /// management write truncates it to a byte.
    pub fn set_feature(&mut self, id: &str, feature_name: &str, value: u32) -> (r: Result<
        (),
        EngineError,
    >)
        requires
            old(self).wf(),
            old(self).clock_ms <= MAX_TIME_MS,
        ensures
            final(self).wf(),
            final(self).world.backlight_levels == old(self).world.backlight_levels,
            final(self).world.mgmt_names == old(self).world.mgmt_names,
            final(self).world.mgmt_friendly == old(self).world.mgmt_friendly,
            final(self).world.conn_available == old(self).world.conn_available,
            final(self).world.openable == old(self).world.openable,
            final(self).released == old(self).released,
            final(self).registry.diagnostics == old(self).registry.diagnostics,
            ({
                let ms = old(self).registry.models();
                let j = spec_reg_find(ms, id@);
                let fo = spec_feature_of_name(feature_name@);
                if j < 0 {
                    &&& r == Result::<(), EngineError>::Err(EngineError::NoSuchMonitor)
                    &&& final(self).registry.models() == ms
                    &&& final(self).clock_ms == old(self).clock_ms
                    &&& final(self).last_start_ms == old(self).last_start_ms
                    &&& final(self).world.conn == old(self).world.conn
                    &&& final(self).world.direct == old(self).world.direct
                    &&& final(self).world.backlight_current == old(self).world.backlight_current
                    &&& final(self).world.mgmt_brightness == old(self).world.mgmt_brightness
                } else if fo is None {
                    &&& r == Result::<(), EngineError>::Err(EngineError::UnknownFeature)
                    &&& final(self).registry.models() == ms
                    &&& final(self).clock_ms == old(self).clock_ms
                    &&& final(self).last_start_ms == old(self).last_start_ms
                    &&& final(self).world.conn == old(self).world.conn
                    &&& final(self).world.direct == old(self).world.direct
                    &&& final(self).world.backlight_current == old(self).world.backlight_current
                    &&& final(self).world.mgmt_brightness == old(self).world.mgmt_brightness
                } else {
                    let f = fo->Some_0;
                    let m = ms[j].monitor;
                    let start = spec_call_start(ms[j].next_allowed_ms, old(self).clock_ms);
                    &&& r == spec_set_feature(old(self).world, m, f, value)
                    &&& (!(m.backend is DirectBus) && !(f is Luminance) ==> r == Result::<
                        (),
                        EngineError,
                    >::Err(EngineError::ProtocolUnsupported))
                    &&& final(self).clock_ms == start
                    &&& final(self).last_start_ms == start
                    &&& final(self).registry.models() == ms.update(
                        j,
                        RosterEntryModel {
                            monitor: m,
                            next_allowed_ms: spec_next_marker(
                                ms[j].next_allowed_ms,
                                old(self).clock_ms,
                            ) as u64,
                        },
                    )
                    &&& final(self).world.direct@ == spec_world_direct_after(
                        old(self).world,
                        m,
                        f,
                        value,
                    )
                    &&& final(self).world.backlight_current@ == spec_world_backlight_after(
                        old(self).world,
                        m,
                        f,
                        value,
                    )
                    &&& final(self).world.mgmt_brightness@ == spec_world_mgmt_after(
                        old(self).world,
                        m,
                        f,
                        value,
                    )
                    &&& final(self).world.conn == if spec_set_uses_mgmt(old(self).world, m, f) {
                        spec_conn_after(old(self).world)
                    } else {
                        old(self).world.conn
                    }
                }
            }),
    {
        proof {
            lemma_reg_find(self.registry.models(), id@);
        }
        let j = match self.registry.find_entry(id) {
            Some(j) => j,
            None => {
                return Err(EngineError::NoSuchMonitor);
            },
        };
        let f = match feature_from_string(feature_name) {
            Ok(f) => f,
            Err(e) => {
                return Err(e);
            },
        };
        let ghost ms = self.registry.models();
        proof {
            assert(ms.len() == self.registry.entries@.len());
            assert(ms[j as int] == self.registry.entries@[j as int]@);
            assert(ms[j as int].monitor.id == id@);
        }
        let marker = self.registry.entries[j].next_allowed_ms;
        let (start, new_marker) = pace(marker, self.clock_ms);
        self.clock_ms = start;
        self.last_start_ms = start;
        self.registry.set_marker(j, new_marker);
        proof {
            assert(self.registry.models().len() == self.registry.entries@.len());
            assert(self.registry.models()[j as int] == self.registry.entries@[j as int]@);
            assert(self.registry.entries@[j as int]@.monitor == ms[j as int].monitor);
        }
        let backend = self.registry.entries[j].monitor.backend;
        match plan_call(&backend, f) {
            CallPlan::BusTransaction(h, _code) => {
                match bus_set(&mut self.world, h, f, value) {
                    Ok(()) => Ok(()),
                    Err(code) => {
                        if bus_fallback_to_management(f) {
                            mgmt_set_brightness(&mut self.world, id, value)
                        } else {
                            Err(EngineError::HardwareFailure(code))
                        }
                    },
                }
            },
            CallPlan::BacklightChannel(h) => {
                match crate::sim::backlight_set(&mut self.world, h, value) {
                    Ok(()) => Ok(()),
                    Err(code) => Err(EngineError::HardwareFailure(code)),
                }
            },
            CallPlan::ManagementLookup => mgmt_set_brightness(&mut self.world, id, value),
            CallPlan::Unsupported => Err(EngineError::ProtocolUnsupported),
        }
    }

    /// Looks the user-friendly display name of a roster monitor up in
    /// the management data. A cached connection failure surfaces as an
    /// error; an identity that resolves to no instance is no name.
    pub fn get_name(&mut self, id: &str) -> (r: Result<Option<String>, EngineError>)
        requires
            old(self).wf(),
        ensures
            final(self).wf(),
            final(self).registry == old(self).registry,
            final(self).clock_ms == old(self).clock_ms,
            final(self).last_start_ms == old(self).last_start_ms,
            final(self).released == old(self).released,
            final(self).world.direct == old(self).world.direct,
            final(self).world.backlight_levels == old(self).world.backlight_levels,
            final(self).world.backlight_current == old(self).world.backlight_current,
            final(self).world.mgmt_names == old(self).world.mgmt_names,
            final(self).world.mgmt_brightness == old(self).world.mgmt_brightness,
            final(self).world.mgmt_friendly == old(self).world.mgmt_friendly,
            final(self).world.conn_available == old(self).world.conn_available,
            final(self).world.openable == old(self).world.openable,
            ({
                let ms = old(self).registry.models();
                let j = spec_reg_find(ms, id@);
                if j < 0 {
                    &&& r == Result::<Option<String>, EngineError>::Err(EngineError::NoSuchMonitor)
                    &&& final(self).world.conn == old(self).world.conn
                } else {
                    &&& final(self).world.conn == spec_conn_after(old(self).world)
                    &&& match spec_mgmt_friendly(old(self).world, ms[j].monitor.id) {
                        Ok(Some(n)) => r is Ok && r->Ok_0 is Some && r->Ok_0->Some_0@ == n,
                        Ok(None) => r == Result::<Option<String>, EngineError>::Ok(None),
                        Err(e) => r == Result::<Option<String>, EngineError>::Err(e),
                    }
                }
            }),
    {
        proof {
            lemma_reg_find(self.registry.models(), id@);
        }
        if self.registry.find_entry(id).is_none() {
            return Err(EngineError::NoSuchMonitor);
        }
        mgmt_friendly_name(&mut self.world, id)
    }
}

} // verus!
