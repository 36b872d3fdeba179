use vstd::prelude::*;
use crate::audit::{audit_json, create_event_v, delete_event_v, modify_event_v, rename_event_v};
use crate::audit::{AuditEvent, AuditKind};
use crate::exclude::{excluded_by, ExclusionSet};
use crate::metrics::{sat_dec_i64, sat_inc_i64, sat_inc_u64, Metrics};
use crate::store::{rec_data, BaselineStore, FileRecord, StoreError};

verus! {

// ---------------------------------------------------------------------------
// The debounce map
// ---------------------------------------------------------------------------

/// The map an association list builds, later entries overwriting earlier
/// ones at the same key.
pub open spec fn pairs_map(es: Seq<(String, i128)>) -> Map<Seq<char>, i128>
    decreases es.len(),
{
    if es.len() == 0 {
        Map::<Seq<char>, i128>::empty()
    } else {
        pairs_map(es.drop_last()).insert(es.last().0@, es.last().1)
    }
}

/// Transient, process-local record of when each canonical path was last
/// processed; owned by one watch run and intentionally not persisted.
pub struct DebounceMap {
    entries: Vec<(String, i128)>,
}

impl View for DebounceMap {
    type V = Map<Seq<char>, i128>;

    closed spec fn view(&self) -> Map<Seq<char>, i128> {
        pairs_map(self.entries@)
    }
}

impl DebounceMap {
    /// Well-formed: one entry per path, and every recorded timestamp is
    /// non-negative (timestamps are wall-clock milliseconds).
    pub closed spec fn inv(&self) -> bool {
        &&& forall|i: int, j: int|
            0 <= i < j < self.entries@.len() ==> (#[trigger] self.entries@[i]).0@ != (
            #[trigger] self.entries@[j]).0@
        &&& forall|i: int| 0 <= i < self.entries@.len() ==> (#[trigger] self.entries@[i]).1 >= 0
    }

    /// An empty map: no path has been processed yet.
    pub fn new() -> (r: DebounceMap)
        ensures
            r.inv(),
            r@ == Map::<Seq<char>, i128>::empty(),
    {
        DebounceMap { entries: Vec::new() }
    }
}

proof fn lemma_pairs_map_index(es: Seq<(String, i128)>, i: int)
    requires
        0 <= i < es.len(),
        forall|j: int, k: int|
            0 <= j < k < es.len() ==> (#[trigger] es[j]).0@ != (#[trigger] es[k]).0@,
    ensures
        pairs_map(es).contains_key(es[i].0@),
        pairs_map(es)[es[i].0@] == es[i].1,
    decreases es.len(),
{
    if i == es.len() - 1 {
    } else {
        lemma_pairs_map_index(es.drop_last(), i);
        assert(es.drop_last()[i] == es[i]);
        assert(es[i].0@ != es.last().0@);
    }
}

proof fn lemma_pairs_map_absent(es: Seq<(String, i128)>, k: Seq<char>)
    requires
        forall|i: int| 0 <= i < es.len() ==> (#[trigger] es[i]).0@ != k,
    ensures
        !pairs_map(es).contains_key(k),
    decreases es.len(),
{
    if es.len() > 0 {
        assert(forall|i: int|
            0 <= i < es.drop_last().len() ==> (#[trigger] es.drop_last()[i]).0@ == es[i].0@);
        lemma_pairs_map_absent(es.drop_last(), k);
    }
}

proof fn lemma_pairs_map_update(es: Seq<(String, i128)>, i: int, v: (String, i128))
    requires
        0 <= i < es.len(),
        v.0@ == es[i].0@,
        forall|j: int, k: int|
            0 <= j < k < es.len() ==> (#[trigger] es[j]).0@ != (#[trigger] es[k]).0@,
    ensures
        pairs_map(es.update(i, v)) == pairs_map(es).insert(v.0@, v.1),
    decreases es.len(),
{
    let es2 = es.update(i, v);
    if i == es.len() - 1 {
        assert(es2.drop_last() == es.drop_last());
        assert(es2.last() == v);
        assert(pairs_map(es.drop_last()).insert(es.last().0@, es.last().1).insert(v.0@, v.1)
            =~= pairs_map(es.drop_last()).insert(v.0@, v.1));
    } else {
        assert(es2.drop_last() == es.drop_last().update(i, v));
        assert(es.drop_last()[i] == es[i]);
        lemma_pairs_map_update(es.drop_last(), i, v);
        assert(es2.last() == es.last());
        assert(es.last().0@ != v.0@);
        assert(pairs_map(es.drop_last()).insert(v.0@, v.1).insert(es.last().0@, es.last().1)
            =~= pairs_map(es.drop_last()).insert(es.last().0@, es.last().1).insert(v.0@, v.1));
    }
}

// ---------------------------------------------------------------------------
// The debounce test
// ---------------------------------------------------------------------------

/// Whether an event for `path` at time `now` falls within the debounce
/// window of the last processed event for that path.
pub open spec fn debounce_is_hit(
    m: Map<Seq<char>, i128>,
    path: Seq<char>,
    now: i128,
    window_ms: u64,
) -> bool {
    m.contains_key(path) && (now as int) - (m[path] as int) <= window_ms as int
}

/// The single-path debounce test: reports a hit when an event for this
/// path was processed within the window — a hit suppresses the event
/// entirely and leaves the recorded timestamp alone. On a miss, `now`
/// becomes the path's new timestamp and processing may proceed.
pub fn debounce_hit(last: &mut DebounceMap, path: &String, now: i128, window_ms: u64) -> (r: bool)
    requires
        old(last).inv(),
        0 <= now,
    ensures
        final(last).inv(),
        r == debounce_is_hit(old(last)@, path@, now, window_ms),
        r ==> final(last)@ == old(last)@,
        !r ==> final(last)@ == old(last)@.insert(path@, now),
{
    let n = last.entries.len();
    let mut i: usize = 0;
    while i < n
        invariant
            n == last.entries@.len(),
            i <= n,
            *last == *old(last),
            last.inv(),
            0 <= now,
            forall|j: int| 0 <= j < i ==> (#[trigger] last.entries@[j]).0@ != path@,
        decreases n - i,
    {
        if last.entries[i].0 == *path {
            proof {
                assert((last.entries@[i as int]).1 >= 0);
                lemma_pairs_map_index(last.entries@, i as int);
            }
            let prev = last.entries[i].1;
            if now - prev <= window_ms as i128 {
                return true;
            }
            let ghost es = last.entries@;
            let entry = (path.clone(), now);
            proof {
                assert(entry.0@ == es[i as int].0@);
            }
            last.entries.set(i, entry);
            proof {
                lemma_pairs_map_update(es, i as int, entry);
                assert forall|j: int, k: int|
                    0 <= j < k < last.entries@.len() implies (#[trigger] last.entries@[j]).0@ != (
                #[trigger] last.entries@[k]).0@ by {
                    assert(es[j].0@ != es[k].0@);
                }
                assert forall|j: int| 0 <= j < last.entries@.len() implies (
                #[trigger] last.entries@[j]).1 >= 0 by {
                    assert(j != i ==> last.entries@[j] == es[j]);
                }
            }
            return false;
        }
        i = i + 1;
    }
    proof {
        lemma_pairs_map_absent(last.entries@, path@);
    }
    let ghost es = last.entries@;
    last.entries.push((path.clone(), now));
    proof {
        assert(last.entries@.drop_last() == es);
        assert(last.entries@.last().0@ == path@ && last.entries@.last().1 == now);
        assert forall|j: int, k: int|
            0 <= j < k < last.entries@.len() implies (#[trigger] last.entries@[j]).0@ != (
        #[trigger] last.entries@[k]).0@ by {
            assert(k < es.len() ==> (es[j].0@ != es[k].0@));
            assert(k == es.len() ==> last.entries@[k].0@ == path@ && es[j].0@ != path@);
        }
        assert forall|j: int| 0 <= j < last.entries@.len() implies (
        #[trigger] last.entries@[j]).1 >= 0 by {
            assert(j < es.len() ==> last.entries@[j] == es[j]);
        }
    }
    false
}

// ---------------------------------------------------------------------------
// The admission gate: exclusion, then debounce
// ---------------------------------------------------------------------------

/// What one event path does to the dispatcher: whether it is admitted for
/// processing, and the debounce map afterwards. An excluded path is
/// dropped without touching the map; a debounced one is dropped with the
/// map unchanged; an admitted one records `now`.
pub open spec fn admit_one(
    m: Map<Seq<char>, i128>,
    pats: Seq<Seq<char>>,
    path: Seq<char>,
    now: i128,
    window_ms: u64,
) -> (bool, Map<Seq<char>, i128>) {
    if excluded_by(pats, path) {
        (false, m)
    } else if debounce_is_hit(m, path, now, window_ms) {
        (false, m)
    } else {
        (true, m.insert(path, now))
    }
}

/// Applies the exclusion filter, then the debounce filter, to one path.
pub fn admit_path(
    deb: &mut DebounceMap,
    excl: &ExclusionSet,
    path: &String,
    now: i128,
    window_ms: u64,
) -> (r: bool)
    requires
        old(deb).inv(),
        0 <= now,
    ensures
        final(deb).inv(),
        r == admit_one(old(deb)@, excl@, path@, now, window_ms).0,
        final(deb)@ == admit_one(old(deb)@, excl@, path@, now, window_ms).1,
{
    if excl.is_excluded(path) {
        false
    } else {
        !debounce_hit(deb, path, now, window_ms)
    }
}

// ---------------------------------------------------------------------------
// Law: two notifications within the window collapse into one
// ---------------------------------------------------------------------------

/// Law: when a non-excluded path is admitted at time `t1`, a second
/// notification for the same path at any `t2` within the debounce window
/// is suppressed outright, and leaves the debounce state exactly as the
/// first admission left it — so the pair produces one processed event,
/// not two.
pub proof fn lemma_debounce_collapses(
    m: Map<Seq<char>, i128>,
    pats: Seq<Seq<char>>,
    path: Seq<char>,
    t1: i128,
    t2: i128,
    window_ms: u64,
)
    requires
        !excluded_by(pats, path),
        !debounce_is_hit(m, path, t1, window_ms),
        (t2 as int) - (t1 as int) <= window_ms as int,
    ensures
        admit_one(m, pats, path, t1, window_ms) == (true, m.insert(path, t1)),
        admit_one(m.insert(path, t1), pats, path, t2, window_ms) == (
            false,
            m.insert(path, t1),
        ),
{
}

// ---------------------------------------------------------------------------
// Raw notification events and the per-event plan
// ---------------------------------------------------------------------------

/// The kind tag of a raw filesystem notification, as the dispatcher
/// classifies it: a creation, a generic content change, a removal, or a
/// rename segment carrying its endpoints.
#[derive(Clone, Copy, PartialEq, Eq, Structural)]
pub enum FsEventKind {
    Create,
    Modify,
    Remove,
    Rename,
}

/// One raw notification: a kind tag and the canonical paths it concerns.
pub struct FsEvent {
    pub kind: FsEventKind,
    pub paths: Vec<String>,
}

/// One store action the dispatcher decided on for the current event.
pub enum PlannedAction {
    Upsert(String),
    Delete(String),
    RenamePair(String, String),
}

/// The mathematical shape of a planned action.
pub enum PlannedActionV {
    Upsert(Seq<char>),
    Delete(Seq<char>),
    RenamePair(Seq<char>, Seq<char>),
}

impl View for PlannedAction {
    type V = PlannedActionV;

    open spec fn view(&self) -> PlannedActionV {
        match self {
            PlannedAction::Upsert(p) => PlannedActionV::Upsert(p@),
            PlannedAction::Delete(p) => PlannedActionV::Delete(p@),
            PlannedAction::RenamePair(f, t) => PlannedActionV::RenamePair(f@, t@),
        }
    }
}

/// The views of a sequence of strings.
pub open spec fn views_of(v: Seq<String>) -> Seq<Seq<char>> {
    Seq::new(v.len(), |i: int| v[i]@)
}

/// The views of a sequence of planned actions.
pub open spec fn action_views(v: Seq<PlannedAction>) -> Seq<PlannedActionV> {
    Seq::new(v.len(), |i: int| v[i]@)
}

/// What a list of event paths does to the dispatcher, path by path in
/// order: which paths are admitted, and the debounce map afterwards.
pub open spec fn admit_paths(
    m: Map<Seq<char>, i128>,
    pats: Seq<Seq<char>>,
    paths: Seq<Seq<char>>,
    now: i128,
    window_ms: u64,
) -> (Seq<Seq<char>>, Map<Seq<char>, i128>)
    decreases paths.len(),
{
    if paths.len() == 0 {
        (Seq::<Seq<char>>::empty(), m)
    } else {
        let first = admit_one(m, pats, paths[0], now, window_ms);
        let rest = admit_paths(first.1, pats, paths.drop_first(), now, window_ms);
        (
            (if first.0 {
                seq![paths[0]]
            } else {
                Seq::<Seq<char>>::empty()
            }) + rest.0,
            rest.1,
        )
    }
}

/// The two-endpoint gate for a rename segment. An excluded endpoint drops
/// the event without touching the debounce state. Otherwise the debounce
/// test runs on `from`, and only on a hit also on `to`; the event is
/// suppressed only when both report hits. This AND-semantics is carried
/// over deliberately: a rename whose endpoints are only partly within
/// their windows still goes through.
pub open spec fn rename_gate(
    m: Map<Seq<char>, i128>,
    pats: Seq<Seq<char>>,
    from: Seq<char>,
    to: Seq<char>,
    now: i128,
    window_ms: u64,
) -> (bool, Map<Seq<char>, i128>) {
    if excluded_by(pats, from) || excluded_by(pats, to) {
        (false, m)
    } else if debounce_is_hit(m, from, now, window_ms) {
        if debounce_is_hit(m, to, now, window_ms) {
            (false, m)
        } else {
            (true, m.insert(to, now))
        }
    } else {
        (true, m.insert(from, now))
    }
}

/// Applies the two-endpoint rename gate.
pub fn rename_admits(
    deb: &mut DebounceMap,
    excl: &ExclusionSet,
    from: &String,
    to: &String,
    now: i128,
    window_ms: u64,
) -> (r: bool)
    requires
        old(deb).inv(),
        0 <= now,
    ensures
        final(deb).inv(),
        r == rename_gate(old(deb)@, excl@, from@, to@, now, window_ms).0,
        final(deb)@ == rename_gate(old(deb)@, excl@, from@, to@, now, window_ms).1,
{
    if excl.is_excluded(from) || excl.is_excluded(to) {
        return false;
    }
    let hit_from = debounce_hit(deb, from, now, window_ms);
    if hit_from {
        !debounce_hit(deb, to, now, window_ms)
    } else {
        true
    }
}

/// Applies the exclusion and debounce gates to each path of an event, in
/// order, returning the admitted paths.
pub fn filter_paths(
    deb: &mut DebounceMap,
    excl: &ExclusionSet,
    paths: &Vec<String>,
    now: i128,
    window_ms: u64,
) -> (r: Vec<String>)
    requires
        old(deb).inv(),
        0 <= now,
    ensures
        final(deb).inv(),
        views_of(r@) == admit_paths(old(deb)@, excl@, views_of(paths@), now, window_ms).0,
        final(deb)@ == admit_paths(old(deb)@, excl@, views_of(paths@), now, window_ms).1,
{
    let ghost full = views_of(paths@);
    let ghost m0 = old(deb)@;
    let mut out: Vec<String> = Vec::new();
    let mut i: usize = 0;
    proof {
        assert(full.skip(0) == full);
    }
    while i < paths.len()
        invariant
            i <= paths.len(),
            full == views_of(paths@),
            0 <= now,
            deb.inv(),
            admit_paths(m0, excl@, full, now, window_ms).0 =~= views_of(out@) + admit_paths(
                deb@,
                excl@,
                full.skip(i as int),
                now,
                window_ms,
            ).0,
            admit_paths(m0, excl@, full, now, window_ms).1 == admit_paths(
                deb@,
                excl@,
                full.skip(i as int),
                now,
                window_ms,
            ).1,
        decreases paths.len() - i,
    {
        let ghost m_before = deb@;
        let ghost s = full.skip(i as int);
        let p = &paths[i];
        let ok = admit_path(deb, excl, p, now, window_ms);
        proof {
            assert(s.len() > 0);
            assert(s[0] == p@);
            assert(s.drop_first() =~= full.skip(i as int + 1));
        }
        if ok {
            let ghost out_before = out@;
            out.push(p.clone());
            proof {
                assert(views_of(out@) =~= views_of(out_before).push(p@));
            }
        }
        i = i + 1;
        proof {
            assert(views_of(out@) + admit_paths(deb@, excl@, full.skip(i as int), now, window_ms).0
                =~= views_of(out@.subrange(0, out@.len() as int)) + admit_paths(
                deb@,
                excl@,
                full.skip(i as int),
                now,
                window_ms,
            ).0);
            assert(admit_paths(m_before, excl@, s, now, window_ms).0 =~= (if ok {
                seq![s[0]]
            } else {
                Seq::<Seq<char>>::empty()
            }) + admit_paths(deb@, excl@, full.skip(i as int), now, window_ms).0);
        }
    }
    proof {
        assert(full.skip(paths@.len() as int) =~= Seq::<Seq<char>>::empty());
        assert(admit_paths(deb@, excl@, full.skip(paths@.len() as int), now, window_ms).0
            =~= Seq::<Seq<char>>::empty());
        assert(views_of(out@) + Seq::<Seq<char>>::empty() =~= views_of(out@));
    }
    out
}

/// What a whole raw event turns into: the planned store actions, and the
/// debounce state afterwards. A rename segment with both endpoints goes
/// through the two-endpoint gate; a degraded rename segment (fewer than
/// two paths) only runs its paths through the gates and plans nothing;
/// create and generic-modify events plan an upsert per admitted path;
/// removals plan a delete per admitted path.
pub open spec fn plan_spec(
    m: Map<Seq<char>, i128>,
    pats: Seq<Seq<char>>,
    kind: FsEventKind,
    paths: Seq<Seq<char>>,
    now: i128,
    window_ms: u64,
) -> (Seq<PlannedActionV>, Map<Seq<char>, i128>) {
    if kind == FsEventKind::Rename {
        if paths.len() >= 2 {
            let g = rename_gate(m, pats, paths[0], paths[1], now, window_ms);
            (
                if g.0 {
                    seq![PlannedActionV::RenamePair(paths[0], paths[1])]
                } else {
                    Seq::<PlannedActionV>::empty()
                },
                g.1,
            )
        } else {
            (Seq::<PlannedActionV>::empty(), admit_paths(m, pats, paths, now, window_ms).1)
        }
    } else {
        let a = admit_paths(m, pats, paths, now, window_ms);
        (
            a.0.map_values(
                |p: Seq<char>|
                    if kind == FsEventKind::Remove {
                        PlannedActionV::Delete(p)
                    } else {
                        PlannedActionV::Upsert(p)
                    },
            ),
            a.1,
        )
    }
}

/// Classifies one raw event and decides, under the exclusion set and the
/// debounce state, which store actions it calls for.
pub fn plan_event(
    deb: &mut DebounceMap,
    excl: &ExclusionSet,
    ev: &FsEvent,
    now: i128,
    window_ms: u64,
) -> (r: Vec<PlannedAction>)
    requires
        old(deb).inv(),
        0 <= now,
    ensures
        final(deb).inv(),
        action_views(r@) == plan_spec(old(deb)@, excl@, ev.kind, views_of(ev.paths@), now, window_ms).0,
        final(deb)@ == plan_spec(old(deb)@, excl@, ev.kind, views_of(ev.paths@), now, window_ms).1,
{
    let mut out: Vec<PlannedAction> = Vec::new();
    match ev.kind {
        FsEventKind::Rename => {
            if ev.paths.len() >= 2 {
                let from = &ev.paths[0];
                let to = &ev.paths[1];
                let ok = rename_admits(deb, excl, from, to, now, window_ms);
                if ok {
                    out.push(PlannedAction::RenamePair(from.clone(), to.clone()));
                }
                proof {
                    assert(views_of(ev.paths@)[0] == from@);
                    assert(views_of(ev.paths@)[1] == to@);
                    assert(action_views(out@) =~= plan_spec(
                        old(deb)@,
                        excl@,
                        ev.kind,
                        views_of(ev.paths@),
                        now,
                        window_ms,
                    ).0);
                }
            } else {
                let _dropped = filter_paths(deb, excl, &ev.paths, now, window_ms);
                proof {
                    assert(action_views(out@) =~= Seq::<PlannedActionV>::empty());
                }
            }
        },
        FsEventKind::Remove => {
            let admitted = filter_paths(deb, excl, &ev.paths, now, window_ms);
            let ghost adm = views_of(admitted@);
            let mut i: usize = 0;
            while i < admitted.len()
                invariant
                    i <= admitted.len(),
                    adm == views_of(admitted@),
                    out@.len() == i,
                    forall|j: int| 0 <= j < i ==> (#[trigger] out@[j])@ == PlannedActionV::Delete(adm[j]),
                decreases admitted.len() - i,
            {
                out.push(PlannedAction::Delete(admitted[i].clone()));
                i = i + 1;
            }
            proof {
                assert(action_views(out@) =~= plan_spec(
                    old(deb)@,
                    excl@,
                    ev.kind,
                    views_of(ev.paths@),
                    now,
                    window_ms,
                ).0);
            }
        },
        FsEventKind::Create | FsEventKind::Modify => {
            let admitted = filter_paths(deb, excl, &ev.paths, now, window_ms);
            let ghost adm = views_of(admitted@);
            let mut i: usize = 0;
            while i < admitted.len()
                invariant
                    i <= admitted.len(),
                    adm == views_of(admitted@),
                    out@.len() == i,
                    forall|j: int| 0 <= j < i ==> (#[trigger] out@[j])@ == PlannedActionV::Upsert(adm[j]),
                decreases admitted.len() - i,
            {
                out.push(PlannedAction::Upsert(admitted[i].clone()));
                i = i + 1;
            }
            proof {
                assert(action_views(out@) =~= plan_spec(
                    old(deb)@,
                    excl@,
                    ev.kind,
                    views_of(ev.paths@),
                    now,
                    window_ms,
                ).0);
            }
        },
    }
    out
}

/// Law: two notifications for one non-excluded path, the second arriving
/// within the debounce window of the first, plan exactly one upsert
/// between them: the first event plans it, the second plans nothing and
/// leaves the debounce state alone.
pub proof fn lemma_plan_collapses_pair(
    m: Map<Seq<char>, i128>,
    pats: Seq<Seq<char>>,
    p: Seq<char>,
    t1: i128,
    t2: i128,
    window_ms: u64,
)
    requires
        !excluded_by(pats, p),
        !debounce_is_hit(m, p, t1, window_ms),
        (t2 as int) - (t1 as int) <= window_ms as int,
    ensures
        plan_spec(m, pats, FsEventKind::Modify, seq![p], t1, window_ms).0 == seq![
            PlannedActionV::Upsert(p),
        ],
        plan_spec(m, pats, FsEventKind::Modify, seq![p], t1, window_ms).1 == m.insert(p, t1),
        plan_spec(m.insert(p, t1), pats, FsEventKind::Modify, seq![p], t2, window_ms).0
            == Seq::<PlannedActionV>::empty(),
        plan_spec(m.insert(p, t1), pats, FsEventKind::Modify, seq![p], t2, window_ms).1
            == m.insert(p, t1),
{
    lemma_debounce_collapses(m, pats, p, t1, t2, window_ms);
    let s = seq![p];
    assert(s.len() == 1);
    assert(s[0] == p);
    assert(s.drop_first() =~= Seq::<Seq<char>>::empty());
    let g1 = admit_one(m, pats, p, t1, window_ms);
    assert(g1 == (true, m.insert(p, t1)));
    assert(admit_paths(g1.1, pats, s.drop_first(), t1, window_ms) == (
        Seq::<Seq<char>>::empty(),
        g1.1,
    ));
    let a1 = admit_paths(m, pats, s, t1, window_ms);
    assert(a1 == ((seq![p] + Seq::<Seq<char>>::empty()), g1.1));
    assert(a1.0 =~= seq![p]);
    assert(a1.1 == m.insert(p, t1));
    assert(a1.0.map_values(
        |q: Seq<char>|
            if FsEventKind::Modify == FsEventKind::Remove {
                PlannedActionV::Delete(q)
            } else {
                PlannedActionV::Upsert(q)
            },
    ) =~= seq![PlannedActionV::Upsert(p)]);
    let g2 = admit_one(m.insert(p, t1), pats, p, t2, window_ms);
    assert(g2 == (false, m.insert(p, t1)));
    assert(admit_paths(g2.1, pats, s.drop_first(), t2, window_ms) == (
        Seq::<Seq<char>>::empty(),
        g2.1,
    ));
    let a2 = admit_paths(m.insert(p, t1), pats, s, t2, window_ms);
    assert(a2 == ((Seq::<Seq<char>>::empty() + Seq::<Seq<char>>::empty()), g2.1));
    assert(a2.0 =~= Seq::<Seq<char>>::empty());
    assert(a2.1 == m.insert(p, t1));
    assert(a2.0.map_values(
        |q: Seq<char>|
            if FsEventKind::Modify == FsEventKind::Remove {
                PlannedActionV::Delete(q)
            } else {
                PlannedActionV::Upsert(q)
            },
    ) =~= Seq::<PlannedActionV>::empty());
}

// ---------------------------------------------------------------------------
// Executing planned actions against the store
// ---------------------------------------------------------------------------

/// The upsert procedure for a path that is currently a regular file, with
/// `rec` carrying the freshly computed hash, size and modification time.
/// The record is written unconditionally. A changed hash yields a `modify`
/// audit line and bumps the modified counter; an unchanged hash is a
/// silent metadata refresh; an untracked path yields a `create` line and
/// bumps the created counter and the tracked gauge. On a store error
/// nothing has changed and no line is owed.
pub fn process_upsert(
    store: &mut BaselineStore,
    metrics: &mut Metrics,
    rec: &FileRecord,
    ts: i128,
) -> (r: Result<Option<String>, StoreError>)
    requires
        old(store).inv(),
    ensures
        final(store).inv(),
        r is Err ==> final(store)@ == old(store)@ && *final(metrics) == *old(metrics),
        r matches Ok(line) ==> {
            &&& final(store)@ == old(store)@.insert(rec.path@, rec_data(*rec))
            &&& (!old(store)@.contains_key(rec.path@)) ==> {
                &&& line matches Some(l) && l@ == audit_json(
                    create_event_v(ts, rec.path@, rec.hash@, rec.size),
                )
                &&& final(metrics).created == sat_inc_u64(old(metrics).created)
                &&& final(metrics).tracked_files == sat_inc_i64(old(metrics).tracked_files)
                &&& final(metrics).modified == old(metrics).modified
                &&& final(metrics).deleted == old(metrics).deleted
            }
            &&& (old(store)@.contains_key(rec.path@) && old(store)@[rec.path@].0 != rec.hash@)
                ==> {
                &&& line matches Some(l) && l@ == audit_json(
                    modify_event_v(ts, rec.path@, old(store)@[rec.path@].0, rec.hash@, rec.size),
                )
                &&& final(metrics).modified == sat_inc_u64(old(metrics).modified)
                &&& final(metrics).created == old(metrics).created
                &&& final(metrics).deleted == old(metrics).deleted
                &&& final(metrics).tracked_files == old(metrics).tracked_files
            }
            &&& (old(store)@.contains_key(rec.path@) && old(store)@[rec.path@].0 == rec.hash@)
                ==> line is None && *final(metrics) == *old(metrics)
        },
{
    let prior = match store.lookup(&rec.path) {
        Ok(o) => o,
        Err(e) => {
            return Err(e);
        },
    };
    match store.upsert(rec) {
        Ok(_) => {},
        Err(e) => {
            return Err(e);
        },
    }
    match prior {
        Option::Some(old_rec) => {
            if old_rec.hash != rec.hash {
                metrics.inc_modified();
                let ev = AuditEvent {
                    ts,
                    kind: AuditKind::Modify,
                    path: rec.path.clone(),
                    old_path: Option::None,
                    old_hash: Option::Some(old_rec.hash),
                    new_hash: Option::Some(rec.hash.clone()),
                    size: Option::Some(rec.size),
                };
                Ok(Option::Some(ev.to_json()))
            } else {
                Ok(Option::None)
            }
        },
        Option::None => {
            metrics.inc_created();
            metrics.inc_tracked();
            let ev = AuditEvent {
                ts,
                kind: AuditKind::Create,
                path: rec.path.clone(),
                old_path: Option::None,
                old_hash: Option::None,
                new_hash: Option::Some(rec.hash.clone()),
                size: Option::Some(rec.size),
            };
            Ok(Option::Some(ev.to_json()))
        },
    }
}

/// The delete procedure: removes the record if one exists; a real removal
/// yields a `delete` audit line, bumps the deleted counter and drops the
/// tracked gauge; an untracked path is a silent no-op. On a store error
/// nothing has changed.
pub fn process_delete(
    store: &mut BaselineStore,
    metrics: &mut Metrics,
    path: &String,
    ts: i128,
) -> (r: Result<Option<String>, StoreError>)
    requires
        old(store).inv(),
    ensures
        final(store).inv(),
        r is Err ==> final(store)@ == old(store)@ && *final(metrics) == *old(metrics),
        r matches Ok(line) ==> {
            &&& final(store)@ == old(store)@.remove(path@)
            &&& old(store)@.contains_key(path@) ==> {
                &&& line matches Some(l) && l@ == audit_json(delete_event_v(ts, path@))
                &&& final(metrics).deleted == sat_inc_u64(old(metrics).deleted)
                &&& final(metrics).tracked_files == sat_dec_i64(old(metrics).tracked_files)
                &&& final(metrics).created == old(metrics).created
                &&& final(metrics).modified == old(metrics).modified
            }
            &&& !old(store)@.contains_key(path@) ==> line is None && *final(metrics) == *old(
                metrics,
            )
        },
{
    match store.delete(path) {
        Ok(existed) => {
            if existed {
                metrics.inc_deleted();
                metrics.dec_tracked();
                let ev = AuditEvent {
                    ts,
                    kind: AuditKind::Delete,
                    path: path.clone(),
                    old_path: Option::None,
                    old_hash: Option::None,
                    new_hash: Option::None,
                    size: Option::None,
                };
                Ok(Option::Some(ev.to_json()))
            } else {
                Ok(Option::None)
            }
        },
        Err(e) => Err(e),
    }
}

/// The rename procedure: retargets the record in place, preserving its
/// hash, size and modification time, and always yields exactly one
/// `rename` audit line — the event is about the identity change, not
/// store state. Reports whether the caller still owes a fresh insert
/// (no record stood at the source). On a store error nothing has changed.
pub fn process_rename(store: &mut BaselineStore, from: &String, to: &String, ts: i128) -> (r:
    Result<(bool, String), StoreError>)
    requires
        old(store).inv(),
    ensures
        final(store).inv(),
        r is Err ==> final(store)@ == old(store)@,
        r matches Ok(pair) ==> {
            &&& pair.1@ == audit_json(rename_event_v(ts, to@, from@))
            &&& pair.0 == !old(store)@.contains_key(from@)
            &&& !old(store)@.contains_key(from@) ==> final(store)@ == old(store)@
            &&& (old(store)@.contains_key(from@) && from@ == to@) ==> final(store)@ == old(
                store,
            )@
            &&& (old(store)@.contains_key(from@) && from@ != to@ && !old(store)@.contains_key(
                to@,
            )) ==> {
                &&& final(store)@ == old(store)@.remove(from@).insert(to@, old(store)@[from@])
                &&& final(store)@.contains_key(to@) && final(store)@[to@] == old(store)@[from@]
                &&& !final(store)@.contains_key(from@)
            }
        },
{
    match store.rename(from, to) {
        Ok(existed) => {
            let ev = AuditEvent {
                ts,
                kind: AuditKind::Rename,
                path: to.clone(),
                old_path: Option::Some(from.clone()),
                old_hash: Option::None,
                new_hash: Option::None,
                size: Option::None,
            };
            Ok((!existed, ev.to_json()))
        },
        Err(e) => Err(e),
    }
}

} // verus!
