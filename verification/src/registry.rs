//! The monitor registry: the current roster, one pacing marker per
//! entry, and the diagnostics of the pass that built it. A refresh
//! replaces the whole roster at once and hands the previous roster's
//! handles back for release; nothing is ever partially updated.

use vstd::prelude::*;

use crate::roster::{Monitor, MonitorModel, spec_roster_handles};
use crate::text::str_eq;

verus! {

/// One roster slot: a monitor and its next-allowed-time marker.
pub struct RosterEntry {
    pub monitor: Monitor,
    /// No call against this monitor may start before this instant.
    pub next_allowed_ms: u64,
}

/// The mathematical value of one roster slot.
pub ghost struct RosterEntryModel {
    pub monitor: MonitorModel,
    pub next_allowed_ms: u64,
}

impl View for RosterEntry {
    type V = RosterEntryModel;

    open spec fn view(&self) -> RosterEntryModel {
        RosterEntryModel { monitor: self.monitor@, next_allowed_ms: self.next_allowed_ms }
    }
}

/// The current roster and the diagnostics of the pass that built it.
pub struct Registry {
    pub entries: Vec<RosterEntry>,
    /// Soft findings of the last refresh: skipped devices, orphaned keys.
    pub diagnostics: Vec<String>,
}

/// The monitors of a roster, in roster order.
pub open spec fn spec_reg_monitors(es: Seq<RosterEntryModel>) -> Seq<MonitorModel> {
    es.map_values(|e: RosterEntryModel| e.monitor)
}

/// The first roster index holding `id`, or -1.
pub open spec fn spec_reg_find(es: Seq<RosterEntryModel>, id: Seq<char>) -> int
    decreases es.len(),
{
    if es.len() == 0 {
        -1
    } else if es[0].monitor.id == id {
        0
    } else {
        let r = spec_reg_find(es.drop_first(), id);
        if r < 0 {
            -1
        } else {
            r + 1
        }
    }
}

/// What `spec_reg_find` finds is the first occurrence; -1 means none.
pub proof fn lemma_reg_find(es: Seq<RosterEntryModel>, id: Seq<char>)
    ensures
        spec_reg_find(es, id) >= 0 ==> {
            &&& spec_reg_find(es, id) < es.len()
            &&& es[spec_reg_find(es, id)].monitor.id == id
            &&& forall|i: int|
                0 <= i < spec_reg_find(es, id) ==> (#[trigger] es[i]).monitor.id != id
        },
        spec_reg_find(es, id) < 0 ==> forall|i: int|
            0 <= i < es.len() ==> (#[trigger] es[i]).monitor.id != id,
    decreases es.len(),
{
    if es.len() > 0 && es[0].monitor.id != id {
        lemma_reg_find(es.drop_first(), id);
        let ed = es.drop_first();
        let r = spec_reg_find(ed, id);
        if r >= 0 {
            assert(ed[r] == es[r + 1]);
            assert forall|i: int| 0 <= i < r + 1 implies (#[trigger] es[i]).monitor.id != id by {
                if i > 0 {
                    assert(ed[i - 1] == es[i]);
                    assert(ed[i - 1].monitor.id != id);
                }
            }
        } else {
            assert forall|i: int| 0 <= i < es.len() implies (#[trigger] es[i]).monitor.id != id by {
                if i > 0 {
                    assert(ed[i - 1] == es[i]);
                    assert(ed[i - 1].monitor.id != id);
                }
            }
        }
    }
}

impl Registry {
    /// The roster's mathematical value.
    pub open spec fn models(&self) -> Seq<RosterEntryModel> {
        self.entries@.map_values(|e: RosterEntry| e@)
    }

    /// An empty registry.
    pub fn new() -> (r: Registry)
        ensures
            r.models() == Seq::<RosterEntryModel>::empty(),
            r.diagnostics@ == Seq::<String>::empty(),
    {
        let r = Registry { entries: Vec::new(), diagnostics: Vec::new() };
        proof {
            assert(r.models() =~= Seq::<RosterEntryModel>::empty());
        }
        r
    }

    /// The identities of the roster, in roster order.
    pub fn list_ids(&self) -> (ids: Vec<String>)
        ensures
            ids@.map_values(|s: String| s@) == spec_reg_monitors(self.models()).map_values(
                |m: MonitorModel| m.id,
            ),
    {
        let ghost goal = spec_reg_monitors(self.models()).map_values(|m: MonitorModel| m.id);
        let mut ids: Vec<String> = Vec::new();
        let mut i: usize = 0;
        proof {
            assert(ids@.map_values(|s: String| s@) =~= goal.take(0));
        }
        while i < self.entries.len()
            invariant
                0 <= i <= self.entries@.len(),
                goal == spec_reg_monitors(self.models()).map_values(|m: MonitorModel| m.id),
                goal.len() == self.entries@.len(),
                ids@.map_values(|s: String| s@) == goal.take(i as int),
            decreases self.entries@.len() - i,
        {
            proof {
                assert(ids@.map_values(|s: String| s@).len() == i);
                assert(ids@.len() == i);
            }
            ids.push(self.entries[i].monitor.id.clone());
            proof {
                assert(spec_reg_monitors(self.models())[i as int] == self.models()[i as int].monitor);
                assert(goal[i as int] == self.entries@[i as int]@.monitor.id);
                assert(ids@.map_values(|s: String| s@) =~= goal.take(i + 1));
            }
            i += 1;
        }
        proof {
            assert(goal.take(goal.len() as int) =~= goal);
        }
        ids
    }

    /// The first roster index holding `id`, linearly.
    pub fn find_entry(&self, id: &str) -> (r: Option<usize>)
        ensures
            spec_reg_find(self.models(), id@) >= 0 ==> r is Some && r->Some_0 as int
                == spec_reg_find(self.models(), id@) && spec_reg_find(self.models(), id@)
                < self.models().len(),
            spec_reg_find(self.models(), id@) < 0 ==> r is None,
    {
        proof {
            lemma_reg_find(self.models(), id@);
        }
        let mut i: usize = 0;
        while i < self.entries.len()
            invariant
                0 <= i <= self.models().len(),
                self.models().len() == self.entries@.len(),
                forall|j: int| 0 <= j < i ==> (#[trigger] self.models()[j]).monitor.id != id@,
                spec_reg_find(self.models(), id@) >= 0 ==> spec_reg_find(self.models(), id@)
                    < self.models().len(),
                spec_reg_find(self.models(), id@) >= 0 ==> self.models()[spec_reg_find(
                    self.models(),
                    id@,
                )].monitor.id == id@,
                spec_reg_find(self.models(), id@) >= 0 ==> forall|j: int|
                    0 <= j < spec_reg_find(self.models(), id@) ==> (
                    #[trigger] self.models()[j]).monitor.id != id@,
                spec_reg_find(self.models(), id@) < 0 ==> forall|j: int|
                    0 <= j < self.models().len() ==> (#[trigger] self.models()[j]).monitor.id
                        != id@,
            decreases self.models().len() - i,
        {
            if str_eq(self.entries[i].monitor.id.as_str(), id) {
                proof {
                    let j0 = spec_reg_find(self.models(), id@);
                    assert(self.models()[i as int].monitor.id == id@);
                    if j0 < 0 {
                        assert(self.models()[i as int].monitor.id != id@);
                    } else if j0 < i {
                        assert(self.models()[j0].monitor.id != id@);
                    } else if j0 > i {
                        assert(self.models()[i as int].monitor.id != id@);
                    }
                }
                return Some(i);
            }
            i += 1;
        }
        None
    }

    /// Replaces the whole roster at once: every new entry starts with a
    /// clear pacing marker, the previous entries' handles come back for
    /// release, exactly once each.
    pub fn replace(&mut self, roster: Vec<Monitor>, diagnostics: Vec<String>) -> (released: Vec<
        u64,
    >)
        ensures
            released@ == spec_roster_handles(spec_reg_monitors(old(self).models())),
            final(self).models() == roster@.map_values(|m: Monitor| m@).map_values(
                |m: MonitorModel| RosterEntryModel { monitor: m, next_allowed_ms: 0 },
            ),
            final(self).diagnostics == diagnostics,
    {
        let ghost oldms = spec_reg_monitors(self.models());
        let mut released: Vec<u64> = Vec::new();
        let mut i: usize = 0;
        proof {
            assert(oldms.skip(0) =~= oldms);
            assert(released@ + spec_roster_handles(oldms.skip(0)) =~= spec_roster_handles(oldms));
        }
        while i < self.entries.len()
            invariant
                0 <= i <= self.entries@.len(),
                oldms == spec_reg_monitors(self.models()),
                oldms.len() == self.entries@.len(),
                released@ + spec_roster_handles(oldms.skip(i as int)) == spec_roster_handles(
                    oldms,
                ),
            decreases self.entries@.len() - i,
        {
            let ghost rs = released@;
            proof {
                assert(oldms.skip(i as int)[0] == oldms[i as int]);
                assert(oldms.skip(i as int).drop_first() =~= oldms.skip(i + 1));
                assert(oldms[i as int] == self.entries@[i as int]@.monitor);
            }
            match self.entries[i].monitor.backend {
                crate::roster::Backend::DirectBus(h) => {
                    released.push(h);
                    proof {
                        assert(released@ + spec_roster_handles(oldms.skip(i + 1)) =~= rs
                            + spec_roster_handles(oldms.skip(i as int)));
                    }
                },
                crate::roster::Backend::DriverChannel(h) => {
                    released.push(h);
                    proof {
                        assert(released@ + spec_roster_handles(oldms.skip(i + 1)) =~= rs
                            + spec_roster_handles(oldms.skip(i as int)));
                    }
                },
                crate::roster::Backend::ManagementOnly => {},
            }
            i += 1;
        }
        proof {
            assert(oldms.skip(oldms.len() as int) =~= Seq::<MonitorModel>::empty());
            assert(released@ + spec_roster_handles(oldms.skip(oldms.len() as int)) =~= released@);
        }
        let ghost goal = roster@.map_values(|m: Monitor| m@).map_values(
            |m: MonitorModel| RosterEntryModel { monitor: m, next_allowed_ms: 0 },
        );
        self.entries.clear();
        let mut j: usize = 0;
        proof {
            assert(self.models() =~= goal.take(0));
        }
        while j < roster.len()
            invariant
                0 <= j <= roster@.len(),
                goal == roster@.map_values(|m: Monitor| m@).map_values(
                    |m: MonitorModel| RosterEntryModel { monitor: m, next_allowed_ms: 0 },
                ),
                goal.len() == roster@.len(),
                self.models() == goal.take(j as int),
            decreases roster@.len() - j,
        {
            proof {
                assert(self.models().len() == j);
                assert(self.entries@.len() == j);
            }
            let m = &roster[j];
            self.entries.push(
                RosterEntry {
                    monitor: Monitor { id: m.id.clone(), backend: m.backend },
                    next_allowed_ms: 0,
                },
            );
            proof {
                assert(goal[j as int] == RosterEntryModel {
                    monitor: roster@[j as int]@,
                    next_allowed_ms: 0,
                });
                assert(self.models() =~= goal.take(j + 1));
            }
            j += 1;
        }
        proof {
            assert(goal.take(goal.len() as int) =~= goal);
        }
        self.diagnostics = diagnostics;
        released
    }

    /// Moves one entry's pacing marker.
    pub fn set_marker(&mut self, i: usize, marker: u64)
        requires
            i < old(self).models().len(),
        ensures
            final(self).models() == old(self).models().update(
                i as int,
                RosterEntryModel {
                    monitor: old(self).models()[i as int].monitor,
                    next_allowed_ms: marker,
                },
            ),
            final(self).diagnostics == old(self).diagnostics,
    {
        let e = &self.entries[i];
        let ne = RosterEntry {
            monitor: Monitor { id: e.monitor.id.clone(), backend: e.monitor.backend },
            next_allowed_ms: marker,
        };
        self.entries.set(i, ne);
        proof {
            assert(final(self).models() =~= old(self).models().update(
                i as int,
                RosterEntryModel {
                    monitor: old(self).models()[i as int].monitor,
                    next_allowed_ms: marker,
                },
            ));
        }
    }
}

} // verus!
