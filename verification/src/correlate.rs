//! The handle correlator: matches live display-output and
//! physical-monitor handles, by positional convention, to the persistent
//! identities of one enumeration pass.
//!
//! The i-th physical handle under output path `P` is assumed to be the
//! sub-device keyed `P\Monitor<i>` — a best-effort positional heuristic,
//! not a platform-guaranteed contract. A handle whose key finds no
//! identity is a soft inconsistency: it is flagged for diagnostics and
//! handed back for release, never leaked and never in the roster.

use vstd::prelude::*;
use vstd::seq_lib::group_to_multiset_ensures;

use crate::identity::{spec_find_key, IdPair, IdentityMap};
use crate::ids::{composite_key, spec_composite_key};
use crate::roster::{Backend, Monitor, MonitorModel};

verus! {

/// One live display output: its device path and the physical control
/// handles multiplexed behind it, in platform order.
pub struct OutputRecord {
    pub path: String,
    pub handles: Vec<u64>,
}

/// The mathematical value of one output record.
pub ghost struct OutputModel {
    pub path: Seq<char>,
    pub handles: Seq<u64>,
}

impl View for OutputRecord {
    type V = OutputModel;

    open spec fn view(&self) -> OutputModel {
        OutputModel { path: self.path@, handles: self.handles@ }
    }
}

/// The correlator's running state.
pub ghost struct CorState {
    /// Identities not yet matched to a handle.
    pub map: Seq<(Seq<char>, Seq<char>)>,
    /// Monitors matched to a bus handle, in discovery order.
    pub matched: Seq<MonitorModel>,
    /// Handles whose key found no identity: to be released.
    pub orphans: Seq<u64>,
    /// The keys that found no identity, for diagnostics.
    pub unmatched: Seq<Seq<char>>,
}

/// One (key, handle) pair's effect on the correlator's state.
pub open spec fn spec_cor_step(st: CorState, key: Seq<char>, handle: u64) -> CorState {
    let j = spec_find_key(st.map, key);
    if j >= 0 {
        CorState {
            map: st.map.remove(j),
            matched: st.matched.push(
                MonitorModel { id: st.map[j].1, backend: Backend::DirectBus(handle) },
            ),
            orphans: st.orphans,
            unmatched: st.unmatched,
        }
    } else {
        CorState {
            map: st.map,
            matched: st.matched,
            orphans: st.orphans.push(handle),
            unmatched: st.unmatched.push(key),
        }
    }
}

/// The (key, handle) pairs one output contributes, in handle order.
pub open spec fn spec_output_pairs(o: OutputModel) -> Seq<(Seq<char>, u64)> {
    Seq::new(o.handles.len(), |i: int| (spec_composite_key(o.path, i as nat), o.handles[i]))
}

/// The pairs of a whole walk, output by output.
pub open spec fn spec_all_pairs(outputs: Seq<OutputModel>) -> Seq<(Seq<char>, u64)>
    decreases outputs.len(),
{
    if outputs.len() == 0 {
        Seq::empty()
    } else {
        spec_output_pairs(outputs[0]) + spec_all_pairs(outputs.drop_first())
    }
}

/// The correlator's state after consuming pairs, front to back.
pub open spec fn spec_correlate_from(st: CorState, pairs: Seq<(Seq<char>, u64)>) -> CorState
    decreases pairs.len(),
{
    if pairs.len() == 0 {
        st
    } else {
        spec_correlate_from(spec_cor_step(st, pairs[0].0, pairs[0].1), pairs.drop_first())
    }
}

/// The state the correlator starts from, holding one pass's identities.
pub open spec fn spec_cor_start(map: Seq<(Seq<char>, Seq<char>)>) -> CorState {
    CorState { map, matched: Seq::empty(), orphans: Seq::empty(), unmatched: Seq::empty() }
}

/// What the correlator found.
pub struct Correlation {
    /// Monitors matched to a bus handle, in discovery order.
    pub matched: Vec<Monitor>,
    /// Handles whose key found no identity; the caller releases each.
    pub orphan_handles: Vec<u64>,
    /// The keys that found no identity, for diagnostics.
    pub unmatched_keys: Vec<String>,
}

/// The identities held by a map's pairs, in map order.
pub open spec fn spec_map_ids(m: Seq<(Seq<char>, Seq<char>)>) -> Seq<Seq<char>> {
    m.map_values(|p: (Seq<char>, Seq<char>)| p.1)
}

/// The identities of matched monitors, in discovery order.
pub open spec fn spec_matched_ids(ms: Seq<MonitorModel>) -> Seq<Seq<char>> {
    ms.map_values(|m: MonitorModel| m.id)
}

/// The correlator loses nothing: matched monitors and unconsumed
/// identities together carry exactly the identities it started with, and
/// every orphaned handle is flagged exactly once.
pub proof fn lemma_correlation_accounts(st: CorState, pairs: Seq<(Seq<char>, u64)>)
    ensures
        spec_correlate_from(st, pairs).matched.len() + spec_correlate_from(st, pairs).map.len()
            == st.matched.len() + st.map.len(),
        spec_correlate_from(st, pairs).orphans.len() + st.unmatched.len() == spec_correlate_from(
            st,
            pairs,
        ).unmatched.len() + st.orphans.len(),
        spec_matched_ids(spec_correlate_from(st, pairs).matched).to_multiset().add(
            spec_map_ids(spec_correlate_from(st, pairs).map).to_multiset(),
        ) == spec_matched_ids(st.matched).to_multiset().add(spec_map_ids(st.map).to_multiset()),
    decreases pairs.len(),
{
    broadcast use group_to_multiset_ensures;
    broadcast use vstd::multiset::group_multiset_axioms;

    if pairs.len() > 0 {
        let key = pairs[0].0;
        let handle = pairs[0].1;
        let st2 = spec_cor_step(st, key, handle);
        let j = spec_find_key(st.map, key);
        if j >= 0 {
            crate::identity::lemma_find_key(st.map, key);
            let x = st.map[j].1;
            let ma = spec_matched_ids(st.matched);
            let mb = spec_map_ids(st.map);
            assert(spec_map_ids(st.map.remove(j)) =~= mb.remove(j));
            assert(spec_matched_ids(st2.matched) =~= ma.push(x));
            assert(mb[j] == x);
            assert(mb.remove(j).to_multiset() =~= mb.to_multiset().remove(x));
            assert(mb.to_multiset().count(x) > 0) by {
                assert(mb.contains(x));
            }
            assert(ma.push(x).to_multiset().add(mb.to_multiset().remove(x)) =~= ma.to_multiset()
                .add(mb.to_multiset()));
        } else {
            assert(spec_matched_ids(st2.matched) =~= spec_matched_ids(st.matched));
            assert(spec_map_ids(st2.map) =~= spec_map_ids(st.map));
        }
        lemma_correlation_accounts(st2, pairs.drop_first());
    }
}

/// Matches every physical handle of the walk against the identity map:
/// the i-th handle under path `P` consumes key `P\Monitor<i>`. Matched
/// pairs become bus-backed monitors; a key with no identity leaves its
/// handle in `orphan_handles` and its key in `unmatched_keys`; consumed
/// identities leave the map.
pub fn correlate(map: &mut IdentityMap, outputs: &Vec<OutputRecord>) -> (c: Correlation)
    requires
        old(map).wf(),
        forall|k: int|
            0 <= k < outputs@.len() ==> (#[trigger] outputs@[k]).handles@.len() <= u32::MAX,
    ensures
        final(map).wf(),
        ({
            let fin = spec_correlate_from(
                spec_cor_start(old(map)@),
                spec_all_pairs(outputs@.map_values(|o: OutputRecord| o@)),
            );
            &&& final(map)@ == fin.map
            &&& c.matched@.map_values(|m: Monitor| m@) == fin.matched
            &&& c.orphan_handles@ == fin.orphans
            &&& c.unmatched_keys@.map_values(|s: String| s@) == fin.unmatched
        }),
{
    let ghost om = outputs@.map_values(|o: OutputRecord| o@);
    let ghost goal = spec_correlate_from(spec_cor_start(old(map)@), spec_all_pairs(om));
    let mut matched: Vec<Monitor> = Vec::new();
    let mut orphan_handles: Vec<u64> = Vec::new();
    let mut unmatched_keys: Vec<String> = Vec::new();
    let mut oi: usize = 0;
    proof {
        assert(matched@.map_values(|m: Monitor| m@) =~= Seq::<MonitorModel>::empty());
        assert(unmatched_keys@.map_values(|s: String| s@) =~= Seq::<Seq<char>>::empty());
        assert(om.skip(0) =~= om);
    }
    while oi < outputs.len()
        invariant
            0 <= oi <= om.len(),
            om == outputs@.map_values(|o: OutputRecord| o@),
            om.len() == outputs@.len(),
            map.wf(),
            forall|k: int|
                0 <= k < outputs@.len() ==> (#[trigger] outputs@[k]).handles@.len() <= u32::MAX,
            spec_correlate_from(
                CorState {
                    map: map@,
                    matched: matched@.map_values(|m: Monitor| m@),
                    orphans: orphan_handles@,
                    unmatched: unmatched_keys@.map_values(|s: String| s@),
                },
                spec_all_pairs(om.skip(oi as int)),
            ) == goal,
        decreases om.len() - oi,
    {
        proof {
            assert(om.skip(oi as int).len() > 0);
            assert(om.skip(oi as int)[0] == om[oi as int]);
            assert(om.skip(oi as int).drop_first() =~= om.skip(oi + 1));
            assert(om[oi as int] == outputs@[oi as int]@);
            assert(spec_output_pairs(om[oi as int]).skip(0) =~= spec_output_pairs(om[oi as int]));
        }
        let output = &outputs[oi];
        let mut hi: usize = 0;
        while hi < output.handles.len()
            invariant
                0 <= hi <= output.handles@.len(),
                output == &outputs[oi as int],
                oi < om.len(),
                om == outputs@.map_values(|o: OutputRecord| o@),
                om.len() == outputs@.len(),
                om[oi as int] == outputs@[oi as int]@,
                output.handles@.len() <= u32::MAX,
                map.wf(),
                spec_correlate_from(
                    CorState {
                        map: map@,
                        matched: matched@.map_values(|m: Monitor| m@),
                        orphans: orphan_handles@,
                        unmatched: unmatched_keys@.map_values(|s: String| s@),
                    },
                    spec_output_pairs(om[oi as int]).skip(hi as int) + spec_all_pairs(
                        om.skip(oi + 1),
                    ),
                ) == goal,
            decreases output.handles@.len() - hi,
        {
            let ghost st = CorState {
                map: map@,
                matched: matched@.map_values(|m: Monitor| m@),
                orphans: orphan_handles@,
                unmatched: unmatched_keys@.map_values(|s: String| s@),
            };
            let ghost rem = spec_output_pairs(om[oi as int]).skip(hi as int) + spec_all_pairs(
                om.skip(oi + 1),
            );
            proof {
                assert(spec_output_pairs(om[oi as int]).len() == output.handles@.len());
                assert(rem[0] == spec_output_pairs(om[oi as int])[hi as int]);
                assert(rem.drop_first() =~= spec_output_pairs(om[oi as int]).skip(hi + 1)
                    + spec_all_pairs(om.skip(oi + 1)));
            }
            let key = composite_key(output.path.as_str(), hi as u32);
            let handle = output.handles[hi];
            match map.remove(&key) {
                Some(id) => {
                    matched.push(Monitor { id, backend: Backend::DirectBus(handle) });
                    proof {
                        assert(matched@.map_values(|m: Monitor| m@) =~= st.matched.push(
                            MonitorModel {
                                id: st.map[spec_find_key(st.map, key@)].1,
                                backend: Backend::DirectBus(handle),
                            },
                        ));
                    }
                },
                None => {
                    orphan_handles.push(handle);
                    unmatched_keys.push(key);
                    proof {
                        assert(unmatched_keys@.map_values(|s: String| s@) =~= st.unmatched.push(
                            spec_composite_key(om[oi as int].path, hi as nat),
                        ));
                    }
                },
            }
            proof {
                assert(CorState {
                    map: map@,
                    matched: matched@.map_values(|m: Monitor| m@),
                    orphans: orphan_handles@,
                    unmatched: unmatched_keys@.map_values(|s: String| s@),
                } == spec_cor_step(st, rem[0].0, rem[0].1));
            }
            hi += 1;
        }
        proof {
            assert(spec_output_pairs(om[oi as int]).skip(output.handles@.len() as int)
                =~= Seq::<(Seq<char>, u64)>::empty());
            assert(spec_output_pairs(om[oi as int]).skip(output.handles@.len() as int)
                + spec_all_pairs(om.skip(oi + 1)) =~= spec_all_pairs(om.skip(oi + 1)));
        }
        oi += 1;
    }
    proof {
        assert(om.skip(oi as int) =~= Seq::<OutputModel>::empty());
    }
    Correlation { matched, orphan_handles, unmatched_keys }
}

/// The backend an unconsumed identity resolves to: a driver-channel
/// handle where the device file opened, the management-data service
/// otherwise.
pub open spec fn spec_resolve_one(p: (Seq<char>, Seq<char>), open_result: Option<u64>) -> MonitorModel {
    MonitorModel {
        id: p.1,
        backend: match open_result {
            Some(h) => Backend::DriverChannel(h),
            None => Backend::ManagementOnly,
        },
    }
}

/// Turns the identities left after bus correlation into roster entries:
/// each is kept, as a driver-channel monitor where its device file
/// opened, as a management-data-only monitor otherwise. Never drops one.
pub fn resolve_remaining(leftover: &Vec<IdPair>, opens: &Vec<Option<u64>>) -> (v: Vec<Monitor>)
    requires
        opens@.len() == leftover@.len(),
    ensures
        v@.map_values(|m: Monitor| m@) == Seq::new(
            leftover@.len(),
            |i: int| spec_resolve_one(leftover@.map_values(|p: IdPair| p@)[i], opens@[i]),
        ),
{
    let ghost goal = Seq::new(
        leftover@.len(),
        |i: int| spec_resolve_one(leftover@.map_values(|p: IdPair| p@)[i], opens@[i]),
    );
    let mut v: Vec<Monitor> = Vec::new();
    let n = leftover.len();
    let mut i: usize = 0;
    proof {
        assert(v@.map_values(|m: Monitor| m@) =~= goal.take(0));
    }
    while i < n
        invariant
            0 <= i <= n,
            n == leftover@.len(),
            n == opens@.len(),
            goal.len() == n,
            goal == Seq::new(
                leftover@.len(),
                |k: int| spec_resolve_one(leftover@.map_values(|p: IdPair| p@)[k], opens@[k]),
            ),
            v@.map_values(|m: Monitor| m@) == goal.take(i as int),
        decreases n - i,
    {
        proof {
            assert(v@.map_values(|m: Monitor| m@).len() == i);
            assert(v@.len() == i);
        }
        let backend = match opens[i] {
            Some(h) => Backend::DriverChannel(h),
            None => Backend::ManagementOnly,
        };
        v.push(Monitor { id: leftover[i].id.clone(), backend });
        proof {
            assert(goal[i as int] == spec_resolve_one(
                leftover@.map_values(|p: IdPair| p@)[i as int],
                opens@[i as int],
            ));
            assert(leftover@.map_values(|p: IdPair| p@)[i as int] == leftover@[i as int]@);
            assert(v@.map_values(|m: Monitor| m@) =~= goal.take(i + 1));
        }
        i += 1;
    }
    proof {
        assert(goal.take(n as int) =~= goal);
    }
    v
}

} // verus!
