//! The device enumerator's filtering pass: from the transcript of one
//! adapter/monitor topology walk, build the identity map of the pass.
//!
//! Only entries flagged attached-to-desktop and not flagged as a mirroring
//! driver are included; a device whose name cannot be represented in the
//! process's working text encoding is skipped and flagged, never fatal.

use vstd::prelude::*;

use crate::identity::{spec_insert, IdentityMap};
use crate::ids::{composite_key, spec_composite_key};

verus! {

/// One record of the topology walk: the `monitor_ordinal`-th sub-device
/// of the `adapter_ordinal`-th adapter, living under `device_path`.
pub struct AdapterMonitorEntry {
    pub adapter_ordinal: u32,
    pub monitor_ordinal: u32,
    /// The path of the display output this sub-device hangs under.
    pub device_path: String,
    /// The platform-assigned persistent identity of the device.
    pub device_id: String,
    /// Flagged attached-to-desktop.
    pub attached: bool,
    /// Flagged as a mirroring (virtual/remote) display driver.
    pub mirroring: bool,
    /// Whether the names could be represented in the working encoding.
    pub name_ok: bool,
}

/// The mathematical value of one topology record.
pub ghost struct EntryModel {
    pub adapter_ordinal: u32,
    pub monitor_ordinal: u32,
    pub path: Seq<char>,
    pub id: Seq<char>,
    pub attached: bool,
    pub mirroring: bool,
    pub name_ok: bool,
}

impl View for AdapterMonitorEntry {
    type V = EntryModel;

    open spec fn view(&self) -> EntryModel {
        EntryModel {
            adapter_ordinal: self.adapter_ordinal,
            monitor_ordinal: self.monitor_ordinal,
            path: self.device_path@,
            id: self.device_id@,
            attached: self.attached,
            mirroring: self.mirroring,
            name_ok: self.name_ok,
        }
    }
}

/// The composite key of a topology record.
pub open spec fn spec_entry_key(e: EntryModel) -> Seq<char> {
    spec_composite_key(e.path, e.monitor_ordinal as nat)
}

/// Whether a record belongs in the identity map at all: attached to the
/// desktop and not a mirroring driver.
pub open spec fn spec_entry_selected(e: EntryModel) -> bool {
    e.attached && !e.mirroring
}

/// The enumerator's running state: the identity map so far and the keys
/// of the devices skipped for an unrepresentable name.
pub ghost struct EnumState {
    pub map: Seq<(Seq<char>, Seq<char>)>,
    pub skipped: Seq<Seq<char>>,
}

/// One record's effect on the enumerator's state.
pub open spec fn spec_enum_step(st: EnumState, e: EntryModel) -> EnumState {
    if spec_entry_selected(e) {
        if e.name_ok {
            EnumState { map: spec_insert(st.map, spec_entry_key(e), e.id), skipped: st.skipped }
        } else {
            EnumState { map: st.map, skipped: st.skipped.push(spec_entry_key(e)) }
        }
    } else {
        st
    }
}

/// The enumerator's state after consuming a transcript, front to back.
pub open spec fn spec_enumerate_from(st: EnumState, entries: Seq<EntryModel>) -> EnumState
    decreases entries.len(),
{
    if entries.len() == 0 {
        st
    } else {
        spec_enumerate_from(spec_enum_step(st, entries[0]), entries.drop_first())
    }
}

/// The state a fresh pass starts from.
pub open spec fn spec_enum_empty() -> EnumState {
    EnumState { map: Seq::empty(), skipped: Seq::empty() }
}

/// Builds the identity map of one enumeration pass: each selected,
/// representable record is keyed `<path>\Monitor<ordinal>`; skipped
/// records are flagged by key.
pub fn enumerate_devices(entries: Vec<AdapterMonitorEntry>) -> (r: (IdentityMap, Vec<String>))
    ensures
        ({
            let fin = spec_enumerate_from(
                spec_enum_empty(),
                entries@.map_values(|e: AdapterMonitorEntry| e@),
            );
            &&& r.0@ == fin.map
            &&& r.1@.map_values(|s: String| s@) == fin.skipped
            &&& r.0.wf()
        }),
{
    let ghost models = entries@.map_values(|e: AdapterMonitorEntry| e@);
    let mut map = IdentityMap::new();
    let mut skipped: Vec<String> = Vec::new();
    let mut i: usize = 0;
    proof {
        assert(skipped@.map_values(|s: String| s@) =~= Seq::<Seq<char>>::empty());
        assert(models.skip(0) =~= models);
    }
    while i < entries.len()
        invariant
            0 <= i <= entries@.len(),
            models == entries@.map_values(|e: AdapterMonitorEntry| e@),
            models.len() == entries@.len(),
            map.wf(),
            spec_enumerate_from(
                EnumState { map: map@, skipped: skipped@.map_values(|s: String| s@) },
                models.skip(i as int),
            ) == spec_enumerate_from(spec_enum_empty(), models),
        decreases entries@.len() - i,
    {
        let ghost st = EnumState { map: map@, skipped: skipped@.map_values(|s: String| s@) };
        proof {
            assert(models.skip(i as int).len() > 0);
            assert(models.skip(i as int)[0] == models[i as int]);
            assert(models.skip(i as int).drop_first() =~= models.skip(i + 1));
            assert(models[i as int] == entries@[i as int]@);
        }
        let e = &entries[i];
        if e.attached && !e.mirroring {
            let key = composite_key(e.device_path.as_str(), e.monitor_ordinal);
            if e.name_ok {
                map.insert(key, e.device_id.clone());
            } else {
                skipped.push(key);
                proof {
                    assert(skipped@.map_values(|s: String| s@) =~= st.skipped.push(
                        spec_entry_key(models[i as int]),
                    ));
                }
            }
        }
        proof {
            assert(EnumState {
                map: map@,
                skipped: skipped@.map_values(|s: String| s@),
            } == spec_enum_step(st, models[i as int]));
        }
        i += 1;
    }
    proof {
        assert(models.skip(i as int) =~= Seq::<EntryModel>::empty());
    }
    (map, skipped)
}

} // verus!
