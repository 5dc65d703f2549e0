//! A scripted hardware world: fake devices with the observable behaviour
//! of the three control paths, as plain data. The engine runs against it
//! unchanged, so every dispatch, fallback, quantization and pacing rule
//! is exercised on values a test can choose.

use vstd::prelude::*;

use crate::error::EngineError;
use crate::feature::Feature;
use crate::mgmt::{connection_plan, note_connect_result, spec_instance_name, ConnPlan, ConnState};
use crate::quantize::{snap_to_levels, spec_snap};
use crate::text::chars_eq;

verus! {

/// The platform's code for a handle that addresses nothing.
pub const ERROR_INVALID_HANDLE: u32 = 6;

/// The connection value the scripted management service hands out.
pub const SIM_CONN_HANDLE: u64 = 1;

/// One feature as a bus-backed device carries it.
#[derive(Debug, Copy, Clone, PartialEq, Eq, Structural)]
pub struct SimFeature {
    /// Whether the device implements the feature's code at all.
    pub supported: bool,
    pub current: u32,
    pub maximum: u32,
}

/// One scripted bus-backed device.
#[derive(Debug, Copy, Clone, PartialEq, Eq, Structural)]
pub struct SimDirect {
    pub luminance: SimFeature,
    pub contrast: SimFeature,
    pub brightness: SimFeature,
    pub volume: SimFeature,
    pub power_state: SimFeature,
    /// A failing link: every transaction is answered with `error_code`.
    pub failing: bool,
    pub error_code: u32,
}

/// The feature slot a code addresses on a device.
pub open spec fn spec_feat(d: SimDirect, f: Feature) -> SimFeature {
    match f {
        Feature::Luminance => d.luminance,
        Feature::Contrast => d.contrast,
        Feature::Brightness => d.brightness,
        Feature::Volume => d.volume,
        Feature::PowerState => d.power_state,
    }
}

/// A feature slot within the protocol's limits: a slot the device
/// implements reports a maximum within the 16-bit wire ceiling.
pub open spec fn spec_slot_wf(slot: SimFeature) -> bool {
    slot.supported ==> slot.maximum < 0x10000
}

/// Every slot of a device within the protocol's limits.
pub open spec fn spec_direct_wf(d: SimDirect) -> bool {
    &&& spec_slot_wf(d.luminance)
    &&& spec_slot_wf(d.contrast)
    &&& spec_slot_wf(d.brightness)
    &&& spec_slot_wf(d.volume)
    &&& spec_slot_wf(d.power_state)
}

/// A device after one feature slot is replaced.
pub open spec fn spec_with_feat(d: SimDirect, f: Feature, slot: SimFeature) -> SimDirect {
    match f {
        Feature::Luminance => SimDirect { luminance: slot, ..d },
        Feature::Contrast => SimDirect { contrast: slot, ..d },
        Feature::Brightness => SimDirect { brightness: slot, ..d },
        Feature::Volume => SimDirect { volume: slot, ..d },
        Feature::PowerState => SimDirect { power_state: slot, ..d },
    }
}

/// One entry of the device-file script: this identity opens as a
/// driver-channel handle.
pub struct OpenScript {
    pub id: String,
    pub handle: u64,
}

/// The scripted world: bus devices and driver-channel backlights are
/// addressed by handle (their index), management instances by derived
/// instance name.
pub struct SimWorld {
    /// Bus-backed devices; a `DirectBus` handle is an index here.
    pub direct: Vec<SimDirect>,
    /// Supported-level lists; a `DriverChannel` handle is an index here.
    pub backlight_levels: Vec<Vec<u8>>,
    /// Current backlight level, parallel to `backlight_levels`.
    pub backlight_current: Vec<u8>,
    /// Management instance names, as derived from identities.
    pub mgmt_names: Vec<Vec<char>>,
    /// The 0-100 brightness property, parallel to `mgmt_names`.
    pub mgmt_brightness: Vec<u8>,
    /// The user-friendly-name property, parallel to `mgmt_names`.
    pub mgmt_friendly: Vec<String>,
    /// The shared management connection cache.
    pub conn: ConnState,
    /// Whether the one connection attempt would succeed.
    pub conn_available: bool,
    /// Which identities open as device files, and as what handle.
    pub openable: Vec<OpenScript>,
}

impl SimWorld {
    /// The parallel vectors line up, and every bus device keeps to the
    /// 16-bit protocol ceiling.
    pub open spec fn wf(&self) -> bool {
        &&& self.backlight_levels@.len() == self.backlight_current@.len()
        &&& self.mgmt_names@.len() == self.mgmt_brightness@.len()
        &&& self.mgmt_names@.len() == self.mgmt_friendly@.len()
        &&& forall|i: int| 0 <= i < self.direct@.len() ==> spec_direct_wf(#[trigger] self.direct@[i])
    }
}

/// What a bus "get feature and reply" transaction answers.
pub open spec fn spec_bus_get(w: SimWorld, h: u64, f: Feature) -> Result<(u32, u32), u32> {
    if h >= w.direct@.len() {
        Err(ERROR_INVALID_HANDLE)
    } else {
        let d = w.direct@[h as int];
        if d.failing {
            Err(d.error_code)
        } else {
            let slot = spec_feat(d, f);
            if !slot.supported {
                Err(d.error_code)
            } else {
                Ok((slot.current, slot.maximum))
            }
        }
    }
}

/// A 16-bit wire write: values above the protocol ceiling are truncated
/// to their low 16 bits.
pub open spec fn spec_wire16(v: u32) -> u32 {
    v % 0x10000
}

/// Whether a bus write goes through.
pub open spec fn spec_bus_set_ok(w: SimWorld, h: u64, f: Feature) -> Result<(), u32> {
    if h >= w.direct@.len() {
        Err(ERROR_INVALID_HANDLE)
    } else {
        let d = w.direct@[h as int];
        if d.failing {
            Err(d.error_code)
        } else if !spec_feat(d, f).supported {
            Err(d.error_code)
        } else {
            Ok(())
        }
    }
}

/// The bus devices after a write: on success the addressed slot holds
/// the truncated value, the maximum untouched; otherwise unchanged.
pub open spec fn spec_direct_after_set(w: SimWorld, h: u64, f: Feature, v: u32) -> Seq<SimDirect> {
    if spec_bus_set_ok(w, h, f) is Ok {
        let d = w.direct@[h as int];
        let slot = spec_feat(d, f);
        w.direct@.update(
            h as int,
            spec_with_feat(d, f, SimFeature { current: spec_wire16(v), ..slot }),
        )
    } else {
        w.direct@
    }
}

/// Issues a bus "get feature and reply" transaction against the scripted
/// device behind `h`.
pub fn bus_get(w: &SimWorld, h: u64, f: Feature) -> (r: Result<(u32, u32), u32>)
    ensures
        r == spec_bus_get(*w, h, f),
{
    if h >= w.direct.len() as u64 {
        return Err(ERROR_INVALID_HANDLE);
    }
    let d = w.direct[h as usize];
    if d.failing {
        return Err(d.error_code);
    }
    let slot = match f {
        Feature::Luminance => d.luminance,
        Feature::Contrast => d.contrast,
        Feature::Brightness => d.brightness,
        Feature::Volume => d.volume,
        Feature::PowerState => d.power_state,
    };
    if !slot.supported {
        Err(d.error_code)
    } else {
        Ok((slot.current, slot.maximum))
    }
}

/// Issues a fire-and-forget bus write of a 16-bit value.
pub fn bus_set(w: &mut SimWorld, h: u64, f: Feature, v: u32) -> (r: Result<(), u32>)
    requires
        old(w).wf(),
    ensures
        final(w).wf(),
        r == spec_bus_set_ok(*old(w), h, f),
        final(w).direct@ == spec_direct_after_set(*old(w), h, f, v),
        final(w).backlight_levels == old(w).backlight_levels,
        final(w).backlight_current == old(w).backlight_current,
        final(w).mgmt_names == old(w).mgmt_names,
        final(w).mgmt_brightness == old(w).mgmt_brightness,
        final(w).mgmt_friendly == old(w).mgmt_friendly,
        final(w).conn == old(w).conn,
        final(w).conn_available == old(w).conn_available,
        final(w).openable == old(w).openable,
{
    if h >= w.direct.len() as u64 {
        return Err(ERROR_INVALID_HANDLE);
    }
    let i = h as usize;
    let d = w.direct[i];
    if d.failing {
        return Err(d.error_code);
    }
    let slot = match f {
        Feature::Luminance => d.luminance,
        Feature::Contrast => d.contrast,
        Feature::Brightness => d.brightness,
        Feature::Volume => d.volume,
        Feature::PowerState => d.power_state,
    };
    if !slot.supported {
        return Err(d.error_code);
    }
    let new_slot = SimFeature { supported: slot.supported, current: v % 0x10000, maximum: slot.maximum };
    let nd = match f {
        Feature::Luminance => SimDirect { luminance: new_slot, ..d },
        Feature::Contrast => SimDirect { contrast: new_slot, ..d },
        Feature::Brightness => SimDirect { brightness: new_slot, ..d },
        Feature::Volume => SimDirect { volume: new_slot, ..d },
        Feature::PowerState => SimDirect { power_state: new_slot, ..d },
    };
    w.direct.set(i, nd);
    Ok(())
}

/// What a backlight level query answers.
pub open spec fn spec_backlight_get(w: SimWorld, h: u64) -> Result<u8, u32> {
    if h >= w.backlight_current@.len() {
        Err(ERROR_INVALID_HANDLE)
    } else {
        Ok(w.backlight_current@[h as int])
    }
}

/// The level a driver-channel write leaves: the request snapped to the
/// supported-level list; with no list entries, the byte-truncated request.
pub open spec fn spec_backlight_target(levels: Seq<u8>, v: u32) -> u8 {
    if levels.len() == 0 {
        (v % 0x100) as u8
    } else {
        spec_snap(levels, v)
    }
}

/// The backlight levels after a driver-channel write.
pub open spec fn spec_backlight_after_set(w: SimWorld, h: u64, v: u32) -> Seq<u8> {
    if h >= w.backlight_current@.len() {
        w.backlight_current@
    } else {
        w.backlight_current@.update(
            h as int,
            spec_backlight_target(w.backlight_levels@[h as int]@, v),
        )
    }
}

/// Reads the current backlight level behind a driver-channel handle.
pub fn backlight_get(w: &SimWorld, h: u64) -> (r: Result<u8, u32>)
    ensures
        r == spec_backlight_get(*w, h),
{
    if h >= w.backlight_current.len() as u64 {
        Err(ERROR_INVALID_HANDLE)
    } else {
        Ok(w.backlight_current[h as usize])
    }
}

/// Snaps the request to the driver's supported-level list and writes it.
pub fn backlight_set(w: &mut SimWorld, h: u64, v: u32) -> (r: Result<(), u32>)
    requires
        old(w).wf(),
    ensures
        final(w).wf(),
        r is Ok <==> h < old(w).backlight_current@.len(),
        r is Err ==> r == Result::<(), u32>::Err(ERROR_INVALID_HANDLE),
        final(w).backlight_current@ == spec_backlight_after_set(*old(w), h, v),
        final(w).direct == old(w).direct,
        final(w).backlight_levels == old(w).backlight_levels,
        final(w).mgmt_names == old(w).mgmt_names,
        final(w).mgmt_brightness == old(w).mgmt_brightness,
        final(w).mgmt_friendly == old(w).mgmt_friendly,
        final(w).conn == old(w).conn,
        final(w).conn_available == old(w).conn_available,
        final(w).openable == old(w).openable,
{
    if h >= w.backlight_current.len() as u64 {
        return Err(ERROR_INVALID_HANDLE);
    }
    let i = h as usize;
    let target = if w.backlight_levels[i].len() == 0 {
        (v % 0x100) as u8
    } else {
        snap_to_levels(&w.backlight_levels[i], v)
    };
    w.backlight_current.set(i, target);
    Ok(())
}


/// How many instance names spell `inst`.
pub open spec fn spec_name_count(names: Seq<Vec<char>>, inst: Seq<char>) -> int
    decreases names.len(),
{
    if names.len() == 0 {
        0
    } else {
        (if names[0]@ == inst {
            1int
        } else {
            0int
        }) + spec_name_count(names.drop_first(), inst)
    }
}

/// The first index whose name spells `inst`, or -1.
pub open spec fn spec_name_first(names: Seq<Vec<char>>, inst: Seq<char>) -> int
    decreases names.len(),
{
    if names.len() == 0 {
        -1
    } else if names[0]@ == inst {
        0
    } else {
        let r = spec_name_first(names.drop_first(), inst);
        if r < 0 {
            -1
        } else {
            r + 1
        }
    }
}

/// A filtered lookup resolves to an instance only when exactly one
/// matches: zero and multiple matches both resolve to no instance.
pub open spec fn spec_mgmt_resolve(names: Seq<Vec<char>>, inst: Seq<char>) -> Option<int> {
    if spec_name_count(names, inst) == 1 {
        Some(spec_name_first(names, inst))
    } else {
        None
    }
}

/// Count and first occurrence, characterized.
pub proof fn lemma_name_stats(names: Seq<Vec<char>>, inst: Seq<char>)
    ensures
        0 <= spec_name_count(names, inst) <= names.len(),
        spec_name_first(names, inst) >= 0 ==> {
            &&& spec_name_first(names, inst) < names.len()
            &&& names[spec_name_first(names, inst)]@ == inst
            &&& forall|i: int|
                0 <= i < spec_name_first(names, inst) ==> (#[trigger] names[i])@ != inst
        },
        spec_name_first(names, inst) < 0 ==> forall|i: int|
            0 <= i < names.len() ==> (#[trigger] names[i])@ != inst,
        spec_name_first(names, inst) >= 0 <==> spec_name_count(names, inst) > 0,
    decreases names.len(),
{
    if names.len() > 0 {
        lemma_name_stats(names.drop_first(), inst);
        let nd = names.drop_first();
        if names[0]@ != inst {
            let r = spec_name_first(nd, inst);
            if r >= 0 {
                assert(nd[r] == names[r + 1]);
                assert forall|i: int| 0 <= i < r + 1 implies (#[trigger] names[i])@ != inst by {
                    if i > 0 {
                        assert(nd[i - 1] == names[i]);
                        assert(nd[i - 1]@ != inst);
                    }
                }
            } else {
                assert forall|i: int| 0 <= i < names.len() implies (
                #[trigger] names[i])@ != inst by {
                    if i > 0 {
                        assert(nd[i - 1] == names[i]);
                        assert(nd[i - 1]@ != inst);
                    }
                }
            }
        }
    }
}

/// Resolves an instance name against the scripted instances: `Some` only
/// when exactly one matches.
pub fn resolve_mgmt_index(names: &Vec<Vec<char>>, inst: &Vec<char>) -> (r: Option<usize>)
    ensures
        match spec_mgmt_resolve(names@, inst@) {
            Some(j) => r is Some && r->Some_0 as int == j && j < names@.len(),
            None => r is None,
        },
{
    proof {
        lemma_name_stats(names@, inst@);
        assert(names@.skip(0) =~= names@);
    }
    let mut count: usize = 0;
    let mut first: usize = 0;
    let mut i: usize = 0;
    while i < names.len()
        invariant
            0 <= i <= names@.len(),
            count <= i,
            count as int + spec_name_count(names@.skip(i as int), inst@) == spec_name_count(
                names@,
                inst@,
            ),
            0 <= spec_name_count(names@.skip(i as int), inst@) <= names@.len() - i,
            count > 0 ==> first < i && names@[first as int]@ == inst@,
            count > 0 ==> forall|j: int| 0 <= j < first ==> (#[trigger] names@[j])@ != inst@,
            count == 0 ==> forall|j: int| 0 <= j < i ==> (#[trigger] names@[j])@ != inst@,
        decreases names@.len() - i,
    {
        proof {
            lemma_name_stats(names@.skip(i as int), inst@);
            assert(names@.skip(i as int)[0] == names@[i as int]);
            assert(names@.skip(i as int).drop_first() =~= names@.skip(i + 1));
            lemma_name_stats(names@.skip(i + 1), inst@);
        }
        if chars_eq(&names[i], inst) {
            if count == 0 {
                first = i;
            }
            count += 1;
        }
        i += 1;
    }
    proof {
        assert(names@.skip(names@.len() as int) =~= Seq::<Vec<char>>::empty());
        lemma_name_stats(names@, inst@);
        if count == 1 {
            let f0 = spec_name_first(names@, inst@);
            if f0 < first {
                assert(names@[f0]@ != inst@);
            } else if f0 > first {
                assert(names@[first as int]@ != inst@);
            }
        }
    }
    if count == 1 {
        Some(first)
    } else {
        None
    }
}

/// Whether the shared connection is usable: it stands, or the one
/// attempt that is still owed would succeed.
pub open spec fn spec_conn_ok(w: SimWorld) -> bool {
    match w.conn {
        ConnState::Ready(_) => true,
        ConnState::Untried => w.conn_available,
        ConnState::Failed => false,
    }
}

/// The cache after one management call: the first caller's outcome is
/// recorded, every later state is kept as it is.
pub open spec fn spec_conn_after(w: SimWorld) -> ConnState {
    match w.conn {
        ConnState::Untried => if w.conn_available {
            ConnState::Ready(SIM_CONN_HANDLE)
        } else {
            ConnState::Failed
        },
        s => s,
    }
}

/// The instance a monitor identity resolves to, if exactly one.
pub open spec fn spec_mgmt_index(w: SimWorld, id: Seq<char>) -> Option<int> {
    match spec_instance_name(id) {
        None => None,
        Some(n) => spec_mgmt_resolve(w.mgmt_names@, n),
    }
}

/// What a management brightness read answers.
pub open spec fn spec_mgmt_get(w: SimWorld, id: Seq<char>) -> Result<u8, EngineError> {
    if !spec_conn_ok(w) {
        Err(EngineError::ConnectionInitFailure)
    } else {
        match spec_mgmt_index(w, id) {
            None => Err(EngineError::NoInstance),
            Some(j) => Ok(w.mgmt_brightness@[j]),
        }
    }
}

/// The brightness properties after a management write: the resolved
/// instance holds the byte-truncated value.
pub open spec fn spec_mgmt_after_set(w: SimWorld, id: Seq<char>, v: u32) -> Seq<u8> {
    if spec_conn_ok(w) && spec_mgmt_index(w, id) is Some {
        w.mgmt_brightness@.update(spec_mgmt_index(w, id)->Some_0, (v % 0x100) as u8)
    } else {
        w.mgmt_brightness@
    }
}

/// Establishes or reuses the shared connection; records the outcome of
/// the one attempt that is ever made.
fn touch_conn(w: &mut SimWorld) -> (ok: bool)
    ensures
        ok == spec_conn_ok(*old(w)),
        final(w).conn == spec_conn_after(*old(w)),
        final(w).direct == old(w).direct,
        final(w).backlight_levels == old(w).backlight_levels,
        final(w).backlight_current == old(w).backlight_current,
        final(w).mgmt_names == old(w).mgmt_names,
        final(w).mgmt_brightness == old(w).mgmt_brightness,
        final(w).mgmt_friendly == old(w).mgmt_friendly,
        final(w).conn_available == old(w).conn_available,
        final(w).openable == old(w).openable,
{
    match connection_plan(&w.conn) {
        ConnPlan::UseExisting(_) => true,
        ConnPlan::Fail => false,
        ConnPlan::AttemptConnect => {
            if w.conn_available {
                note_connect_result(&mut w.conn, Some(SIM_CONN_HANDLE));
                true
            } else {
                note_connect_result(&mut w.conn, None);
                false
            }
        },
    }
}

/// Resolves the instance of an identity, behind the shared connection.
/// `Err` only for a connection failure; a failed or ambiguous lookup is
/// `Ok(None)`.
fn resolve_instance(w: &mut SimWorld, id: &str) -> (r: Result<Option<usize>, EngineError>)
    ensures
        final(w).conn == spec_conn_after(*old(w)),
        final(w).direct == old(w).direct,
        final(w).backlight_levels == old(w).backlight_levels,
        final(w).backlight_current == old(w).backlight_current,
        final(w).mgmt_names == old(w).mgmt_names,
        final(w).mgmt_brightness == old(w).mgmt_brightness,
        final(w).mgmt_friendly == old(w).mgmt_friendly,
        final(w).conn_available == old(w).conn_available,
        final(w).openable == old(w).openable,
        !spec_conn_ok(*old(w)) ==> r == Result::<Option<usize>, EngineError>::Err(
            EngineError::ConnectionInitFailure,
        ),
        spec_conn_ok(*old(w)) ==> match spec_mgmt_index(*old(w), id@) {
            Some(j) => r is Ok && r->Ok_0 is Some && r->Ok_0->Some_0 as int == j && j < old(
                w,
            ).mgmt_names@.len(),
            None => r == Result::<Option<usize>, EngineError>::Ok(None),
        },
{
    if !touch_conn(w) {
        return Err(EngineError::ConnectionInitFailure);
    }
    let name = match crate::mgmt::derive_instance_name(id) {
        Some(n) => n,
        None => {
            return Ok(None);
        },
    };
    Ok(resolve_mgmt_index(&w.mgmt_names, &name))
}

/// Reads the 0-100 brightness property of the instance an identity
/// resolves to.
pub fn mgmt_get_brightness(w: &mut SimWorld, id: &str) -> (r: Result<u8, EngineError>)
    requires
        old(w).wf(),
    ensures
        final(w).wf(),
        r == spec_mgmt_get(*old(w), id@),
        final(w).conn == spec_conn_after(*old(w)),
        final(w).direct == old(w).direct,
        final(w).backlight_levels == old(w).backlight_levels,
        final(w).backlight_current == old(w).backlight_current,
        final(w).mgmt_names == old(w).mgmt_names,
        final(w).mgmt_brightness == old(w).mgmt_brightness,
        final(w).mgmt_friendly == old(w).mgmt_friendly,
        final(w).conn_available == old(w).conn_available,
        final(w).openable == old(w).openable,
{
    match resolve_instance(w, id) {
        Err(e) => Err(e),
        Ok(None) => Err(EngineError::NoInstance),
        Ok(Some(j)) => Ok(w.mgmt_brightness[j]),
    }
}

/// Invokes the brightness-set method of the resolved instance with the
/// byte-truncated target.
pub fn mgmt_set_brightness(w: &mut SimWorld, id: &str, v: u32) -> (r: Result<(), EngineError>)
    requires
        old(w).wf(),
    ensures
        final(w).wf(),
        r == if !spec_conn_ok(*old(w)) {
            Result::<(), EngineError>::Err(EngineError::ConnectionInitFailure)
        } else if spec_mgmt_index(*old(w), id@) is None {
            Result::<(), EngineError>::Err(EngineError::NoInstance)
        } else {
            Result::<(), EngineError>::Ok(())
        },
        final(w).mgmt_brightness@ == spec_mgmt_after_set(*old(w), id@, v),
        final(w).conn == spec_conn_after(*old(w)),
        final(w).direct == old(w).direct,
        final(w).backlight_levels == old(w).backlight_levels,
        final(w).backlight_current == old(w).backlight_current,
        final(w).mgmt_names == old(w).mgmt_names,
        final(w).mgmt_friendly == old(w).mgmt_friendly,
        final(w).conn_available == old(w).conn_available,
        final(w).openable == old(w).openable,
{
    match resolve_instance(w, id) {
        Err(e) => Err(e),
        Ok(None) => Err(EngineError::NoInstance),
        Ok(Some(j)) => {
            w.mgmt_brightness.set(j, (v % 0x100) as u8);
            Ok(())
        },
    }
}

/// What a user-friendly-name read answers: the cached connection
/// failure surfaces as an error; a lookup that resolves to no instance
/// is no name.
pub open spec fn spec_mgmt_friendly(w: SimWorld, id: Seq<char>) -> Result<
    Option<Seq<char>>,
    EngineError,
> {
    if !spec_conn_ok(w) {
        Err(EngineError::ConnectionInitFailure)
    } else {
        match spec_mgmt_index(w, id) {
            None => Ok(None),
            Some(j) => Ok(Some(w.mgmt_friendly@[j]@)),
        }
    }
}

/// Reads the user-friendly-name property of the resolved instance.
pub fn mgmt_friendly_name(w: &mut SimWorld, id: &str) -> (r: Result<Option<String>, EngineError>)
    requires
        old(w).wf(),
    ensures
        final(w).wf(),
        match spec_mgmt_friendly(*old(w), id@) {
            Ok(Some(n)) => r is Ok && r->Ok_0 is Some && r->Ok_0->Some_0@ == n,
            Ok(None) => r == Result::<Option<String>, EngineError>::Ok(None),
            Err(e) => r == Result::<Option<String>, EngineError>::Err(e),
        },
        final(w).conn == spec_conn_after(*old(w)),
        final(w).direct == old(w).direct,
        final(w).backlight_levels == old(w).backlight_levels,
        final(w).backlight_current == old(w).backlight_current,
        final(w).mgmt_names == old(w).mgmt_names,
        final(w).mgmt_brightness == old(w).mgmt_brightness,
        final(w).mgmt_friendly == old(w).mgmt_friendly,
        final(w).conn_available == old(w).conn_available,
        final(w).openable == old(w).openable,
{
    match resolve_instance(w, id) {
        Err(e) => Err(e),
        Ok(None) => Ok(None),
        Ok(Some(j)) => Ok(Some(w.mgmt_friendly[j].clone())),
    }
}

/// The handle an identity's device file opens as, by script.
pub open spec fn spec_open_result(script: Seq<OpenScript>, id: Seq<char>) -> Option<u64>
    decreases script.len(),
{
    if script.len() == 0 {
        None
    } else if script[0].id@ == id {
        Some(script[0].handle)
    } else {
        spec_open_result(script.drop_first(), id)
    }
}

/// Tries to open an identity's device file, by script: the handle of the
/// first matching entry.
pub fn open_device(w: &SimWorld, id: &String) -> (r: Option<u64>)
    ensures
        r == spec_open_result(w.openable@, id@),
{
    let mut i: usize = 0;
    proof {
        assert(w.openable@.skip(0) =~= w.openable@);
    }
    while i < w.openable.len()
        invariant
            0 <= i <= w.openable@.len(),
            spec_open_result(w.openable@.skip(i as int), id@) == spec_open_result(w.openable@, id@),
        decreases w.openable@.len() - i,
    {
        proof {
            assert(w.openable@.skip(i as int)[0] == w.openable@[i as int]);
            assert(w.openable@.skip(i as int).drop_first() =~= w.openable@.skip(i + 1));
        }
        if w.openable[i].id == *id {
            return Some(w.openable[i].handle);
        }
        i += 1;
    }
    proof {
        assert(w.openable@.skip(w.openable@.len() as int) =~= Seq::<OpenScript>::empty());
    }
    None
}

} // verus!
