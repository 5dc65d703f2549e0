//! The management-data backend's pure logic: deriving a per-monitor
//! instance name from the persistent identity, building the filtered
//! lookup query, and the process-wide connection cache.
//!
//! An instance name is derived by stripping the fixed 4-character
//! device-namespace prefix, replacing each `#` separator with a path
//! separator up through the last occurrence, dropping everything from the
//! last separator on (the trailing hardware suffix), and appending the
//! fixed `_0` literal.

use vstd::prelude::*;

use crate::text::chars_of;

verus! {

/// Whether an identity begins with the `\\?\` device-namespace prefix.
pub open spec fn spec_has_ns_prefix(id: Seq<char>) -> bool {
    id.len() >= 4 && id.subrange(0, 4) == seq!['\\', '\\', '?', '\\']
}

/// The index of the last `#` in `s`, or -1.
pub open spec fn spec_last_hash(s: Seq<char>) -> int
    decreases s.len(),
{
    if s.len() == 0 {
        -1
    } else if s.last() == '#' {
        s.len() - 1
    } else {
        spec_last_hash(s.drop_last())
    }
}

/// `spec_last_hash` finds the last occurrence; -1 means none.
pub proof fn lemma_last_hash(s: Seq<char>)
    ensures
        spec_last_hash(s) >= 0 ==> {
            &&& spec_last_hash(s) < s.len()
            &&& s[spec_last_hash(s)] == '#'
            &&& forall|j: int| spec_last_hash(s) < j < s.len() ==> s[j] != '#'
        },
        spec_last_hash(s) < 0 ==> forall|j: int| 0 <= j < s.len() ==> s[j] != '#',
    decreases s.len(),
{
    if s.len() > 0 && s.last() != '#' {
        lemma_last_hash(s.drop_last());
        let sd = s.drop_last();
        assert(forall|j: int| 0 <= j < sd.len() ==> sd[j] == s[j]);
    }
}

/// Each `#` separator replaced by a path separator.
pub open spec fn spec_hash_to_sep(s: Seq<char>) -> Seq<char> {
    s.map_values(
        |c: char|
            if c == '#' {
                '\\'
            } else {
                c
            },
    )
}

/// The management instance name an identity derives to, or `None` for an
/// identity that does not have the expected shape.
pub open spec fn spec_instance_name(id: Seq<char>) -> Option<Seq<char>> {
    if !spec_has_ns_prefix(id) {
        None
    } else {
        let t = id.skip(4);
        let lh = spec_last_hash(t);
        if lh <= 0 {
            None
        } else {
            Some(spec_hash_to_sep(t.take(lh)) + seq!['_', '0'])
        }
    }
}

/// Derives the management instance name of a persistent identity.
pub fn derive_instance_name(id: &str) -> (r: Option<Vec<char>>)
    ensures
        match spec_instance_name(id@) {
            Some(n) => r is Some && r->Some_0@ == n,
            None => r is None,
        },
{
    let cs = chars_of(id);
    let n = cs.len();
    if n < 4 {
        return None;
    }
    if !(cs[0] == '\\' && cs[1] == '\\' && cs[2] == '?' && cs[3] == '\\') {
        proof {
            assert(!spec_has_ns_prefix(id@));
        }
        return None;
    }
    proof {
        assert(id@.subrange(0, 4) =~= seq!['\\', '\\', '?', '\\']);
    }
    let ghost t = id@.skip(4);
    // Find the last separator in the stripped identity.
    let mut last: usize = 0;
    let mut found = false;
    let mut k: usize = 4;
    while k < n
        invariant
            4 <= k <= n,
            n == id@.len(),
            cs@ == id@,
            t == id@.skip(4),
            t.len() == n - 4,
            found ==> 0 <= last < k - 4 && t[last as int] == '#',
            found ==> forall|j: int| last < j < k - 4 ==> t[j] != '#',
            !found ==> forall|j: int| 0 <= j < k - 4 ==> t[j] != '#',
        decreases n - k,
    {
        if cs[k] == '#' {
            last = k - 4;
            found = true;
        }
        proof {
            assert(t[k - 4] == id@[k as int]);
        }
        k += 1;
    }
    proof {
        lemma_last_hash(t);
        if found {
            let lh = spec_last_hash(t);
            if lh < 0 {
                assert(t[last as int] != '#');
            } else if lh < last {
                assert(t[last as int] != '#');
            } else if lh > last {
                assert(t[lh] != '#');
            }
            assert(lh == last);
        } else {
            assert(spec_last_hash(t) < 0) by {
                if spec_last_hash(t) >= 0 {
                    assert(t[spec_last_hash(t)] != '#');
                }
            }
        }
    }
    if !found || last == 0 {
        return None;
    }
    // Rewrite separators over the kept prefix, then append the literal.
    let mut out: Vec<char> = Vec::new();
    let mut j: usize = 0;
    while j < last
        invariant
            0 <= j <= last,
            last < t.len(),
            n == id@.len(),
            cs@ == id@,
            t == id@.skip(4),
            t.len() == n - 4,
            out@ =~= spec_hash_to_sep(t.take(last as int)).take(j as int),
        decreases last - j,
    {
        let c = cs[j + 4];
        proof {
            assert(t[j as int] == id@[j + 4]);
        }
        if c == '#' {
            out.push('\\');
        } else {
            out.push(c);
        }
        proof {
            assert(out@ =~= spec_hash_to_sep(t.take(last as int)).take(j + 1));
        }
        j += 1;
    }
    out.push('_');
    out.push('0');
    proof {
        assert(spec_hash_to_sep(t.take(last as int)).take(last as int) =~= spec_hash_to_sep(
            t.take(last as int),
        ));
        assert(out@ =~= spec_hash_to_sep(t.take(last as int)) + seq!['_', '0']);
    }
    Some(out)
}

/// A character as the query escapes it: path separators doubled, quotes
/// preceded by a separator, everything else kept.
pub open spec fn spec_escape_char(c: char) -> Seq<char> {
    if c == '\\' {
        seq!['\\', '\\']
    } else if c == '"' {
        seq!['\\', c]
    } else {
        seq![c]
    }
}

/// A whole instance name as the query escapes it.
pub open spec fn spec_escape(s: Seq<char>) -> Seq<char>
    decreases s.len(),
{
    if s.len() == 0 {
        Seq::empty()
    } else {
        spec_escape_char(s[0]) + spec_escape(s.drop_first())
    }
}

/// The filtered lookup for one instance of a management class.
pub open spec fn spec_instance_query(class: Seq<char>, inst: Seq<char>) -> Seq<char> {
    "SELECT * FROM "@ + class + " WHERE InstanceName=\""@ + spec_escape(inst) + seq!['"']
}

/// Builds the query that looks one instance of `class` up by name.
pub fn build_instance_query(class: &str, inst: &Vec<char>) -> (q: Vec<char>)
    ensures
        q@ == spec_instance_query(class@, inst@),
{
    let mut q = chars_of("SELECT * FROM ");
    let mut cls = chars_of(class);
    q.append(&mut cls);
    let mut mid = chars_of(" WHERE InstanceName=\"");
    q.append(&mut mid);
    let ghost prefix = q@;
    let mut i: usize = 0;
    proof {
        assert(inst@.skip(0) =~= inst@);
    }
    while i < inst.len()
        invariant
            0 <= i <= inst@.len(),
            q@ + spec_escape(inst@.skip(i as int)) == prefix + spec_escape(inst@),
        decreases inst@.len() - i,
    {
        let ghost qs = q@;
        proof {
            assert(inst@.skip(i as int).len() > 0);
            assert(inst@.skip(i as int)[0] == inst@[i as int]);
            assert(inst@.skip(i as int).drop_first() =~= inst@.skip(i + 1));
        }
        let c = inst[i];
        if c == '\\' {
            q.push('\\');
            q.push('\\');
        } else if c == '"' {
            q.push('\\');
            q.push(c);
        } else {
            q.push(c);
        }
        proof {
            assert(q@ =~= qs + spec_escape_char(inst@[i as int]));
            assert(q@ + spec_escape(inst@.skip(i + 1)) =~= qs + spec_escape(
                inst@.skip(i as int),
            ));
        }
        i += 1;
    }
    proof {
        assert(inst@.skip(inst@.len() as int) =~= Seq::<char>::empty());
        assert(q@ + spec_escape(inst@.skip(inst@.len() as int)) =~= q@);
    }
    q.push('"');
    proof {
        assert(q@ =~= spec_instance_query(class@, inst@));
    }
    q
}

/// The process-wide management connection cache: created at most once; a
/// failed initialization is cached and returned again, never retried.
#[derive(Debug, Copy, Clone, PartialEq, Eq, Structural)]
pub enum ConnState {
    /// No attempt has been made yet.
    Untried,
    /// The connection stands and is shared.
    Ready(u64),
    /// Initialization failed once; the failure is cached.
    Failed,
}

/// What a caller holding the cache should do.
#[derive(Debug, Copy, Clone, PartialEq, Eq, Structural)]
pub enum ConnPlan {
    /// Use the cached connection.
    UseExisting(u64),
    /// No attempt was made yet: connect now, then record the outcome.
    AttemptConnect,
    /// A cached failure: fail without touching the service again.
    Fail,
}

/// Decides what to do with the connection cache. Only the very first
/// caller ever attempts to connect; afterwards the cached connection or
/// the cached failure is returned, so there is no retry storm.
pub fn connection_plan(state: &ConnState) -> (p: ConnPlan)
    ensures
        p == match *state {
            ConnState::Untried => ConnPlan::AttemptConnect,
            ConnState::Ready(c) => ConnPlan::UseExisting(c),
            ConnState::Failed => ConnPlan::Fail,
        },
        !(*state is Untried) ==> p != ConnPlan::AttemptConnect,
{
    match state {
        ConnState::Untried => ConnPlan::AttemptConnect,
        ConnState::Ready(c) => ConnPlan::UseExisting(*c),
        ConnState::Failed => ConnPlan::Fail,
    }
}

/// Records the outcome of the one connection attempt.
pub fn note_connect_result(state: &mut ConnState, outcome: Option<u64>)
    requires
        *old(state) is Untried,
    ensures
        *final(state) == match outcome {
            Some(c) => ConnState::Ready(c),
            None => ConnState::Failed,
        },
{
    *state = match outcome {
        Some(c) => ConnState::Ready(c),
        None => ConnState::Failed,
    };
}

} // verus!
