use vstd::prelude::*;
use crate::audit::{added_event_v, audit_json, changed_event_v, missing_event_v};
use crate::audit::{AuditEvent, AuditEventV, AuditKind};
use crate::audit::{dec_nat, push_dec_u64_digits};
use crate::util::{chars_to_string, push_chars};
use crate::store::{in_store, rec_data, BaselineStore, FileRecord, StoreError};

verus! {

// ---------------------------------------------------------------------------
// Classification of one observed file against the baseline
// ---------------------------------------------------------------------------

/// An observed file that the baseline does not track.
pub open spec fn obs_is_added(m: Map<Seq<char>, (Seq<char>, u64, u64)>, r: FileRecord) -> bool {
    !m.contains_key(r.path@)
}

/// An observed file that the baseline tracks with different hash, size or
/// modification time.
pub open spec fn obs_is_changed(m: Map<Seq<char>, (Seq<char>, u64, u64)>, r: FileRecord) -> bool {
    m.contains_key(r.path@) && m[r.path@] != rec_data(r)
}

/// Whether some record in the sequence carries this path.
pub open spec fn has_path(rs: Seq<FileRecord>, p: Seq<char>) -> bool {
    exists|i: int| 0 <= i < rs.len() && rs[i].path@ == p
}

/// The `added` and `changed` findings of the disk pass, in observation
/// order: one event per observed file the baseline does not agree with.
pub open spec fn disk_events(
    m: Map<Seq<char>, (Seq<char>, u64, u64)>,
    obs: Seq<FileRecord>,
    ts: i128,
) -> Seq<AuditEventV>
    decreases obs.len(),
{
    if obs.len() == 0 {
        Seq::<AuditEventV>::empty()
    } else {
        disk_events(m, obs.drop_last(), ts) + (if obs_is_added(m, obs.last()) {
            seq![added_event_v(ts, obs.last().path@, obs.last().hash@, obs.last().size)]
        } else if obs_is_changed(m, obs.last()) {
            seq![
                changed_event_v(
                    ts,
                    obs.last().path@,
                    m[obs.last().path@].0,
                    obs.last().hash@,
                    obs.last().size,
                ),
            ]
        } else {
            Seq::<AuditEventV>::empty()
        })
    }
}

/// How many observed files the baseline does not track.
pub open spec fn added_count(m: Map<Seq<char>, (Seq<char>, u64, u64)>, obs: Seq<FileRecord>) -> nat
    decreases obs.len(),
{
    if obs.len() == 0 {
        0
    } else {
        added_count(m, obs.drop_last()) + (if obs_is_added(m, obs.last()) {
            1nat
        } else {
            0nat
        })
    }
}

/// How many observed files disagree with their baseline record.
pub open spec fn changed_count(
    m: Map<Seq<char>, (Seq<char>, u64, u64)>,
    obs: Seq<FileRecord>,
) -> nat
    decreases obs.len(),
{
    if obs.len() == 0 {
        0
    } else {
        changed_count(m, obs.drop_last()) + (if obs_is_changed(m, obs.last()) {
            1nat
        } else {
            0nat
        })
    }
}

/// The `missing` findings: one event per baseline record whose path was
/// not seen on disk, in the order the store enumerated them.
pub open spec fn missing_events(base: Seq<FileRecord>, obs: Seq<FileRecord>, ts: i128) -> Seq<
    AuditEventV,
>
    decreases base.len(),
{
    if base.len() == 0 {
        Seq::<AuditEventV>::empty()
    } else {
        missing_events(base.drop_last(), obs, ts) + (if !has_path(obs, base.last().path@) {
            seq![missing_event_v(ts, base.last().path@)]
        } else {
            Seq::<AuditEventV>::empty()
        })
    }
}

/// How many baseline records were not seen on disk.
pub open spec fn missing_count(base: Seq<FileRecord>, obs: Seq<FileRecord>) -> nat
    decreases base.len(),
{
    if base.len() == 0 {
        0
    } else {
        missing_count(base.drop_last(), obs) + (if !has_path(obs, base.last().path@) {
            1nat
        } else {
            0nat
        })
    }
}

/// The views of a sequence of audit events.
pub open spec fn event_views(v: Seq<AuditEvent>) -> Seq<AuditEventV> {
    Seq::new(v.len(), |i: int| v[i]@)
}

/// A faithful enumeration of the store view `m`: every entry is a tracked
/// record, every tracked path appears, and no path appears twice.
pub open spec fn enum_ok(m: Map<Seq<char>, (Seq<char>, u64, u64)>, base: Seq<FileRecord>) -> bool {
    &&& forall|i: int| 0 <= i < base.len() ==> in_store(m, #[trigger] base[i])
    &&& forall|p: Seq<char>|
        #[trigger] m.contains_key(p) ==> exists|i: int|
            0 <= i < base.len() && (#[trigger] base[i]).path@ == p
    &&& forall|i: int, j: int|
        0 <= i < j < base.len() ==> (#[trigger] base[i]).path@ != (#[trigger] base[j]).path@
}

// ---------------------------------------------------------------------------
// The scanner
// ---------------------------------------------------------------------------

/// What one reconciliation pass found: the findings as audit events
/// (disk pass first, then the missing pass) and the three counts. `base`
/// is the enumeration of the baseline the pass compared against.
pub struct ScanReport {
    pub events: Vec<AuditEvent>,
    pub added: u64,
    pub changed: u64,
    pub missing: u64,
    pub base: Ghost<Seq<FileRecord>>,
}

/// Whether `observed` holds an entry with this path.
fn observed_contains(observed: &Vec<FileRecord>, path: &String) -> (r: bool)
    ensures
        r == has_path(observed@, path@),
{
    let mut k: usize = 0;
    while k < observed.len()
        invariant
            k <= observed.len(),
            forall|j: int| 0 <= j < k ==> (#[trigger] observed@[j]).path@ != path@,
        decreases observed.len() - k,
    {
        if observed[k].path == *path {
            proof {
                assert(observed@[k as int].path@ == path@);
            }
            return true;
        }
        k = k + 1;
    }
    false
}

impl BaselineStore {
    /// The offline reconciliation pass: compares the observed files
    /// (already filtered for exclusions and hashed) against the baseline,
    /// reading it only — repeated passes over an unchanged tree and
    /// baseline find the same (empty) difference every time. Each observed
    /// file the baseline does not track yields an `added` finding; each
    /// whose record disagrees yields a `changed` finding carrying both
    /// hashes; each tracked path not observed yields a `missing` finding.
    pub fn scan_classify(&self, observed: &Vec<FileRecord>, ts: i128) -> (r: Result<
        ScanReport,
        StoreError,
    >)
        ensures
            r matches Ok(rep) ==> {
                &&& enum_ok(self@, rep.base@)
                &&& event_views(rep.events@) == disk_events(self@, observed@, ts) + missing_events(
                    rep.base@,
                    observed@,
                    ts,
                )
                &&& rep.added == added_count(self@, observed@)
                &&& rep.changed == changed_count(self@, observed@)
                &&& rep.missing == missing_count(rep.base@, observed@)
            },
    {
        let ghost m = self@;
        let mut events: Vec<AuditEvent> = Vec::new();
        let mut added: u64 = 0;
        let mut changed: u64 = 0;
        let mut i: usize = 0;
        while i < observed.len()
            invariant
                i <= observed.len(),
                m == self@,
                event_views(events@) =~= disk_events(m, observed@.take(i as int), ts),
                added == added_count(m, observed@.take(i as int)),
                changed == changed_count(m, observed@.take(i as int)),
                added as int <= i as int,
                changed as int <= i as int,
            decreases observed.len() - i,
        {
            let rec = &observed[i];
            let ghost evs = events@;
            match self.lookup(&rec.path) {
                Err(e) => {
                    return Err(e);
                },
                Ok(Option::None) => {
                    added = added + 1;
                    events.push(
                        AuditEvent {
                            ts,
                            kind: AuditKind::Added,
                            path: rec.path.clone(),
                            old_path: Option::None,
                            old_hash: Option::None,
                            new_hash: Option::Some(rec.hash.clone()),
                            size: Option::Some(rec.size),
                        },
                    );
                    proof {
                        assert(event_views(events@) =~= event_views(evs).push(
                            added_event_v(ts, rec.path@, rec.hash@, rec.size),
                        ));
                    }
                },
                Ok(Option::Some(old_rec)) => {
                    if old_rec.hash != rec.hash || old_rec.size != rec.size || old_rec.modified_at
                        != rec.modified_at {
                        changed = changed + 1;
                        events.push(
                            AuditEvent {
                                ts,
                                kind: AuditKind::Changed,
                                path: rec.path.clone(),
                                old_path: Option::None,
                                old_hash: Option::Some(old_rec.hash),
                                new_hash: Option::Some(rec.hash.clone()),
                                size: Option::Some(rec.size),
                            },
                        );
                        proof {
                            assert(m[rec.path@] != rec_data(*rec));
                            assert(event_views(events@) =~= event_views(evs).push(
                                changed_event_v(ts, rec.path@, m[rec.path@].0, rec.hash@, rec.size),
                            ));
                        }
                    } else {
                        proof {
                            assert(rec_data(old_rec) == rec_data(*rec));
                            assert(!obs_is_changed(m, *rec));
                        }
                    }
                },
            }
            i = i + 1;
            proof {
                assert(observed@.take(i as int).drop_last() == observed@.take(i as int - 1));
                assert(observed@.take(i as int).last() == observed@[i as int - 1]);
            }
        }
        proof {
            assert(observed@.take(observed@.len() as int) == observed@);
        }
        let base = match self.enumerate() {
            Ok(v) => v,
            Err(e) => {
                return Err(e);
            },
        };
        let ghost disk = event_views(events@);
        let mut missing: u64 = 0;
        let mut j: usize = 0;
        while j < base.len()
            invariant
                j <= base.len(),
                m == self@,
                disk == disk_events(m, observed@, ts),
                event_views(events@) =~= disk + missing_events(base@.take(j as int), observed@, ts),
                missing == missing_count(base@.take(j as int), observed@),
                missing as int <= j as int,
            decreases base.len() - j,
        {
            let brec = &base[j];
            let ghost evs = events@;
            let seen = observed_contains(observed, &brec.path);
            if !seen {
                missing = missing + 1;
                events.push(
                    AuditEvent {
                        ts,
                        kind: AuditKind::Missing,
                        path: brec.path.clone(),
                        old_path: Option::None,
                        old_hash: Option::None,
                        new_hash: Option::None,
                        size: Option::None,
                    },
                );
                proof {
                    assert(event_views(events@) =~= event_views(evs).push(
                        missing_event_v(ts, brec.path@),
                    ));
                }
            }
            j = j + 1;
            proof {
                assert(base@.take(j as int).drop_last() == base@.take(j as int - 1));
                assert(base@.take(j as int).last() == base@[j as int - 1]);
            }
        }
        proof {
            assert(base@.take(base@.len() as int) == base@);
        }
        Ok(ScanReport { events, added, changed, missing, base: Ghost(base@) })
    }
}

// ---------------------------------------------------------------------------
// Laws of the reconciliation pass
// ---------------------------------------------------------------------------

/// When every observed file agrees with its baseline record, the disk
/// pass finds nothing.
pub proof fn lemma_disk_all_match(
    m: Map<Seq<char>, (Seq<char>, u64, u64)>,
    obs: Seq<FileRecord>,
    ts: i128,
)
    requires
        forall|i: int| 0 <= i < obs.len() ==> in_store(m, #[trigger] obs[i]),
    ensures
        added_count(m, obs) == 0,
        changed_count(m, obs) == 0,
        disk_events(m, obs, ts) == Seq::<AuditEventV>::empty(),
    decreases obs.len(),
{
    if obs.len() > 0 {
        assert(forall|i: int|
            0 <= i < obs.drop_last().len() ==> #[trigger] obs.drop_last()[i] == obs[i]);
        lemma_disk_all_match(m, obs.drop_last(), ts);
        assert(in_store(m, obs.last()));
        assert(disk_events(m, obs, ts) =~= Seq::<AuditEventV>::empty());
    }
}

/// When every enumerated baseline path was seen on disk, the missing
/// pass finds nothing.
pub proof fn lemma_missing_none(base: Seq<FileRecord>, obs: Seq<FileRecord>, ts: i128)
    requires
        forall|j: int| 0 <= j < base.len() ==> has_path(obs, (#[trigger] base[j]).path@),
    ensures
        missing_count(base, obs) == 0,
        missing_events(base, obs, ts) == Seq::<AuditEventV>::empty(),
    decreases base.len(),
{
    if base.len() > 0 {
        assert(forall|j: int|
            0 <= j < base.drop_last().len() ==> #[trigger] base.drop_last()[j] == base[j]);
        lemma_missing_none(base.drop_last(), obs, ts);
        assert(missing_events(base, obs, ts) =~= Seq::<AuditEventV>::empty());
    }
}

/// Law (idempotence): against an unchanged tree and baseline — every
/// observed file agrees with its record and every tracked path was
/// observed — a reconciliation pass finds zero added, changed and missing
/// files and emits no events; so any two such passes produce identical
/// output.
pub proof fn lemma_scan_unchanged(
    m: Map<Seq<char>, (Seq<char>, u64, u64)>,
    obs: Seq<FileRecord>,
    base: Seq<FileRecord>,
    ts: i128,
)
    requires
        forall|i: int| 0 <= i < obs.len() ==> in_store(m, #[trigger] obs[i]),
        forall|p: Seq<char>| #[trigger] m.contains_key(p) ==> has_path(obs, p),
        enum_ok(m, base),
    ensures
        added_count(m, obs) == 0,
        changed_count(m, obs) == 0,
        missing_count(base, obs) == 0,
        disk_events(m, obs, ts) + missing_events(base, obs, ts) == Seq::<AuditEventV>::empty(),
{
    lemma_disk_all_match(m, obs, ts);
    assert forall|j: int| 0 <= j < base.len() implies has_path(
        obs,
        (#[trigger] base[j]).path@,
    ) by {
        assert(in_store(m, base[j]));
    }
    lemma_missing_none(base, obs, ts);
    assert(disk_events(m, obs, ts) + missing_events(base, obs, ts)
        =~= Seq::<AuditEventV>::empty());
}

/// Law: when exactly one observed file (the one at `i0`) disagrees with
/// its baseline record and every other observed file agrees, the disk
/// pass reports exactly one `changed` finding, for that path, carrying
/// the baseline's hash as `old_hash` and the freshly computed one as
/// `new_hash` — and nothing is `added`.
pub proof fn lemma_scan_one_changed(
    m: Map<Seq<char>, (Seq<char>, u64, u64)>,
    obs: Seq<FileRecord>,
    i0: int,
    ts: i128,
)
    requires
        0 <= i0 < obs.len(),
        forall|j: int| 0 <= j < obs.len() && j != i0 ==> in_store(m, #[trigger] obs[j]),
        m.contains_key(obs[i0].path@),
        m[obs[i0].path@] != rec_data(obs[i0]),
    ensures
        added_count(m, obs) == 0,
        changed_count(m, obs) == 1,
        disk_events(m, obs, ts) == seq![
            changed_event_v(ts, obs[i0].path@, m[obs[i0].path@].0, obs[i0].hash@, obs[i0].size),
        ],
    decreases obs.len(),
{
    if i0 == obs.len() - 1 {
        assert(forall|j: int|
            0 <= j < obs.drop_last().len() ==> in_store(m, #[trigger] obs.drop_last()[j]));
        lemma_disk_all_match(m, obs.drop_last(), ts);
        assert(obs_is_changed(m, obs.last()));
        assert(disk_events(m, obs, ts) =~= seq![
            changed_event_v(ts, obs[i0].path@, m[obs[i0].path@].0, obs[i0].hash@, obs[i0].size),
        ]);
    } else {
        assert(forall|j: int|
            0 <= j < obs.drop_last().len() && j != i0 ==> in_store(
                m,
                #[trigger] obs.drop_last()[j],
            ));
        assert(obs.drop_last()[i0] == obs[i0]);
        lemma_scan_one_changed(m, obs.drop_last(), i0, ts);
        assert(in_store(m, obs.last()));
        assert(disk_events(m, obs, ts) =~= seq![
            changed_event_v(ts, obs[i0].path@, m[obs[i0].path@].0, obs[i0].hash@, obs[i0].size),
        ]);
    }
}

/// Law: when exactly one observed file (the one at `i0`) is untracked and
/// every other observed file agrees with its record, the disk pass
/// reports exactly one `added` finding for that path — an event that by
/// construction carries no `old_hash` — and nothing is `changed`.
pub proof fn lemma_scan_one_added(
    m: Map<Seq<char>, (Seq<char>, u64, u64)>,
    obs: Seq<FileRecord>,
    i0: int,
    ts: i128,
)
    requires
        0 <= i0 < obs.len(),
        forall|j: int| 0 <= j < obs.len() && j != i0 ==> in_store(m, #[trigger] obs[j]),
        !m.contains_key(obs[i0].path@),
    ensures
        added_count(m, obs) == 1,
        changed_count(m, obs) == 0,
        disk_events(m, obs, ts) == seq![
            added_event_v(ts, obs[i0].path@, obs[i0].hash@, obs[i0].size),
        ],
    decreases obs.len(),
{
    if i0 == obs.len() - 1 {
        assert(forall|j: int|
            0 <= j < obs.drop_last().len() ==> in_store(m, #[trigger] obs.drop_last()[j]));
        lemma_disk_all_match(m, obs.drop_last(), ts);
        assert(obs_is_added(m, obs.last()));
        assert(disk_events(m, obs, ts) =~= seq![
            added_event_v(ts, obs[i0].path@, obs[i0].hash@, obs[i0].size),
        ]);
    } else {
        assert(forall|j: int|
            0 <= j < obs.drop_last().len() && j != i0 ==> in_store(
                m,
                #[trigger] obs.drop_last()[j],
            ));
        assert(obs.drop_last()[i0] == obs[i0]);
        lemma_scan_one_added(m, obs.drop_last(), i0, ts);
        assert(in_store(m, obs.last()));
        assert(disk_events(m, obs, ts) =~= seq![
            added_event_v(ts, obs[i0].path@, obs[i0].hash@, obs[i0].size),
        ]);
    }
}

/// When exactly one enumerated path `p` was not seen on disk and every
/// other enumerated path was, the missing pass reports exactly one
/// `missing` finding, for `p`.
pub proof fn lemma_missing_one(
    base: Seq<FileRecord>,
    obs: Seq<FileRecord>,
    p: Seq<char>,
    ts: i128,
)
    requires
        exists|j: int| 0 <= j < base.len() && (#[trigger] base[j]).path@ == p,
        !has_path(obs, p),
        forall|j: int|
            0 <= j < base.len() && (#[trigger] base[j]).path@ != p ==> has_path(
                obs,
                base[j].path@,
            ),
        forall|i: int, j: int|
            0 <= i < j < base.len() ==> (#[trigger] base[i]).path@ != (#[trigger] base[j]).path@,
    ensures
        missing_count(base, obs) == 1,
        missing_events(base, obs, ts) == seq![missing_event_v(ts, p)],
    decreases base.len(),
{
    if base.last().path@ == p {
        assert forall|j: int| 0 <= j < base.drop_last().len() implies has_path(
            obs,
            (#[trigger] base.drop_last()[j]).path@,
        ) by {
            assert(base[j].path@ != base.last().path@);
        }
        lemma_missing_none(base.drop_last(), obs, ts);
        assert(missing_events(base, obs, ts) =~= seq![missing_event_v(ts, p)]);
    } else {
        let j0 = choose|j: int| 0 <= j < base.len() && (#[trigger] base[j]).path@ == p;
        assert(j0 < base.len() - 1);
        assert(base.drop_last()[j0] == base[j0]);
        assert(forall|j: int|
            0 <= j < base.drop_last().len() ==> #[trigger] base.drop_last()[j] == base[j]);
        lemma_missing_one(base.drop_last(), obs, p, ts);
        assert(has_path(obs, base.last().path@));
        assert(missing_events(base, obs, ts) =~= seq![missing_event_v(ts, p)]);
    }
}

/// Law: deleting one tracked file (path `p` tracked, not observed, while
/// everything else agrees and is observed) yields exactly one `missing`
/// finding for `p` and zero `added` and `changed` findings.
pub proof fn lemma_scan_deleted(
    m: Map<Seq<char>, (Seq<char>, u64, u64)>,
    obs: Seq<FileRecord>,
    base: Seq<FileRecord>,
    p: Seq<char>,
    ts: i128,
)
    requires
        forall|i: int| 0 <= i < obs.len() ==> in_store(m, #[trigger] obs[i]),
        m.contains_key(p),
        !has_path(obs, p),
        forall|q: Seq<char>| #[trigger] m.contains_key(q) && q != p ==> has_path(obs, q),
        enum_ok(m, base),
    ensures
        added_count(m, obs) == 0,
        changed_count(m, obs) == 0,
        missing_count(base, obs) == 1,
        disk_events(m, obs, ts) + missing_events(base, obs, ts) == seq![missing_event_v(ts, p)],
{
    lemma_disk_all_match(m, obs, ts);
    assert forall|j: int|
        0 <= j < base.len() && (#[trigger] base[j]).path@ != p implies has_path(
        obs,
        base[j].path@,
    ) by {
        assert(in_store(m, base[j]));
    }
    lemma_missing_one(base, obs, p, ts);
    assert(disk_events(m, obs, ts) + missing_events(base, obs, ts) =~= seq![
        missing_event_v(ts, p),
    ]);
}

/// Law (the rename asymmetry): a rename that happened while no dispatcher
/// was running is seen by a later reconciliation as a `missing` finding
/// for the old path plus an `added` finding for the new one — never as a
/// `rename`. This is deliberate: offline, only the two endpoints are
/// observable. (Handled live, the same rename is instead one `rename`
/// event that keeps the record's hash: see `process_rename`.)
pub proof fn lemma_scan_offline_rename(
    m: Map<Seq<char>, (Seq<char>, u64, u64)>,
    obs: Seq<FileRecord>,
    base: Seq<FileRecord>,
    i0: int,
    old_path: Seq<char>,
    ts: i128,
)
    requires
        0 <= i0 < obs.len(),
        forall|j: int| 0 <= j < obs.len() && j != i0 ==> in_store(m, #[trigger] obs[j]),
        !m.contains_key(obs[i0].path@),
        m.contains_key(old_path),
        !has_path(obs, old_path),
        forall|q: Seq<char>|
            #[trigger] m.contains_key(q) && q != old_path ==> has_path(obs, q),
        enum_ok(m, base),
    ensures
        added_count(m, obs) == 1,
        changed_count(m, obs) == 0,
        missing_count(base, obs) == 1,
        disk_events(m, obs, ts) + missing_events(base, obs, ts) == seq![
            added_event_v(ts, obs[i0].path@, obs[i0].hash@, obs[i0].size),
            missing_event_v(ts, old_path),
        ],
{
    lemma_scan_one_added(m, obs, i0, ts);
    assert forall|j: int|
        0 <= j < base.len() && (#[trigger] base[j]).path@ != old_path implies has_path(
        obs,
        base[j].path@,
    ) by {
        assert(in_store(m, base[j]));
    }
    lemma_missing_one(base, obs, old_path, ts);
    assert(disk_events(m, obs, ts) + missing_events(base, obs, ts) =~= seq![
        added_event_v(ts, obs[i0].path@, obs[i0].hash@, obs[i0].size),
        missing_event_v(ts, old_path),
    ]);
}

/// The missing pass emits one finding per record, so its length is the
/// missing count.
proof fn lemma_missing_events_len(base: Seq<FileRecord>, obs: Seq<FileRecord>, ts: i128)
    ensures
        missing_events(base, obs, ts).len() == missing_count(base, obs),
    decreases base.len(),
{
    if base.len() > 0 {
        lemma_missing_events_len(base.drop_last(), obs, ts);
    }
}

/// How often one event value occurs among the missing findings: once when
/// it is the missing finding of a path the enumeration holds and the disk
/// pass did not see, never otherwise.
proof fn lemma_missing_events_count(
    base: Seq<FileRecord>,
    obs: Seq<FileRecord>,
    ts: i128,
    e: AuditEventV,
)
    requires
        forall|i: int, j: int|
            0 <= i < j < base.len() ==> (#[trigger] base[i]).path@ != (#[trigger] base[j]).path@,
    ensures
        missing_events(base, obs, ts).to_multiset().count(e) == (
        if has_path(base, e.path) && !has_path(obs, e.path) && e == missing_event_v(ts, e.path) {
            1nat
        } else {
            0nat
        }),
    decreases base.len(),
{
    broadcast use vstd::seq_lib::group_to_multiset_ensures;

    if base.len() == 0 {
        assert(!missing_events(base, obs, ts).contains(e));
    } else {
        let prev = base.drop_last();
        let p_last = base.last().path@;
        assert(forall|i: int| 0 <= i < prev.len() ==> #[trigger] prev[i] == base[i]);
        lemma_missing_events_count(prev, obs, ts, e);
        // the last record's path is new: the rest of the enumeration lacks it
        assert(!has_path(prev, p_last));
        // a path of the shorter enumeration is one of the longer, and a path
        // of the longer is either the last record's or one of the shorter
        if has_path(prev, e.path) {
            let j = choose|j: int| 0 <= j < prev.len() && prev[j].path@ == e.path;
            assert(base[j].path@ == e.path);
        }
        if has_path(base, e.path) && e.path != p_last {
            let j = choose|j: int| 0 <= j < base.len() && base[j].path@ == e.path;
            assert(j < prev.len() && prev[j].path@ == e.path);
        }
        if !has_path(obs, p_last) {
            assert(missing_events(base, obs, ts) =~= missing_events(prev, obs, ts).push(
                missing_event_v(ts, p_last),
            ));
        } else {
            assert(missing_events(base, obs, ts) =~= missing_events(prev, obs, ts));
        }
    }
}

/// A faithful enumeration holds exactly the tracked paths.
proof fn lemma_enum_has_path(
    m: Map<Seq<char>, (Seq<char>, u64, u64)>,
    base: Seq<FileRecord>,
    p: Seq<char>,
)
    requires
        enum_ok(m, base),
    ensures
        has_path(base, p) <==> m.contains_key(p),
{
    if has_path(base, p) {
        let j = choose|j: int| 0 <= j < base.len() && base[j].path@ == p;
        assert(in_store(m, base[j]));
    }
}

/// Law (idempotence, in general): the missing findings depend only on the
/// baseline's record set and the observed tree, never on the order the
/// store happens to enumerate records in — two enumerations of the same
/// record set give equal missing counts and, at any one report time, equal
/// multisets of missing findings. The disk-pass findings and the added and
/// changed counts are already fixed exactly by `scan_classify`'s contract,
/// and the report time is the only field of a finding that two passes can
/// differ in; so two passes against an unchanged baseline and tree report
/// the same findings and the same counts.
pub proof fn lemma_scan_enumeration_independent(
    m: Map<Seq<char>, (Seq<char>, u64, u64)>,
    obs: Seq<FileRecord>,
    base1: Seq<FileRecord>,
    base2: Seq<FileRecord>,
    ts: i128,
)
    requires
        enum_ok(m, base1),
        enum_ok(m, base2),
    ensures
        missing_count(base1, obs) == missing_count(base2, obs),
        missing_events(base1, obs, ts).to_multiset() == missing_events(base2, obs, ts).to_multiset(),
{
    broadcast use vstd::seq_lib::group_to_multiset_ensures;

    assert forall|e: AuditEventV|
        missing_events(base1, obs, ts).to_multiset().count(e) == missing_events(
            base2,
            obs,
            ts,
        ).to_multiset().count(e) by {
        lemma_missing_events_count(base1, obs, ts, e);
        lemma_missing_events_count(base2, obs, ts, e);
        lemma_enum_has_path(m, base1, e.path);
        lemma_enum_has_path(m, base2, e.path);
    }
    assert(missing_events(base1, obs, ts).to_multiset() =~= missing_events(
        base2,
        obs,
        ts,
    ).to_multiset());
    lemma_missing_events_len(base1, obs, ts);
    lemma_missing_events_len(base2, obs, ts);
    assert(missing_events(base1, obs, ts).to_multiset().len() == missing_events(
        base2,
        obs,
        ts,
    ).to_multiset().len());
}

/// A finding with its report time struck out: the kind, path, hashes and
/// size that two passes can be compared on.
pub open spec fn finding_of(e: AuditEventV) -> AuditEventV {
    AuditEventV {
        ts: 0,
        kind: e.kind,
        path: e.path,
        old_path: e.old_path,
        old_hash: e.old_hash,
        new_hash: e.new_hash,
        size: e.size,
    }
}

/// The findings of a whole event sequence, report times struck out.
pub open spec fn findings_of(es: Seq<AuditEventV>) -> Seq<AuditEventV> {
    es.map_values(|e: AuditEventV| finding_of(e))
}

/// The disk pass reports the same findings at every report time.
proof fn lemma_disk_events_findings(
    m: Map<Seq<char>, (Seq<char>, u64, u64)>,
    obs: Seq<FileRecord>,
    ts: i128,
)
    ensures
        findings_of(disk_events(m, obs, ts)) =~= disk_events(m, obs, 0),
    decreases obs.len(),
{
    if obs.len() > 0 {
        lemma_disk_events_findings(m, obs.drop_last(), ts);
        let pre = disk_events(m, obs.drop_last(), ts);
        assert(findings_of(disk_events(m, obs, ts)) =~= findings_of(pre) + findings_of(
            disk_events(m, obs, ts).skip(pre.len() as int),
        ));
    }
}

/// The missing pass reports the same findings at every report time.
proof fn lemma_missing_events_findings(base: Seq<FileRecord>, obs: Seq<FileRecord>, ts: i128)
    ensures
        findings_of(missing_events(base, obs, ts)) =~= missing_events(base, obs, 0),
    decreases base.len(),
{
    if base.len() > 0 {
        lemma_missing_events_findings(base.drop_last(), obs, ts);
        let pre = missing_events(base.drop_last(), obs, ts);
        assert(findings_of(missing_events(base, obs, ts)) =~= findings_of(pre) + findings_of(
            missing_events(base, obs, ts).skip(pre.len() as int),
        ));
    }
}

/// Law (idempotence, in full): two reconciliation passes, at any two
/// report times and under any two enumerations of the same baseline
/// record set, report the same multiset of findings — kind, path, hashes
/// and size, with only the report time aside — and the same counts (the
/// added and changed counts are functions of the record set and the tree
/// outright).
pub proof fn lemma_scan_two_runs_agree(
    m: Map<Seq<char>, (Seq<char>, u64, u64)>,
    obs: Seq<FileRecord>,
    base1: Seq<FileRecord>,
    base2: Seq<FileRecord>,
    ts1: i128,
    ts2: i128,
)
    requires
        enum_ok(m, base1),
        enum_ok(m, base2),
    ensures
        missing_count(base1, obs) == missing_count(base2, obs),
        findings_of(disk_events(m, obs, ts1) + missing_events(base1, obs, ts1)).to_multiset()
            == findings_of(disk_events(m, obs, ts2) + missing_events(base2, obs, ts2)).to_multiset(),
{
    lemma_scan_enumeration_independent(m, obs, base1, base2, 0);
    lemma_disk_events_findings(m, obs, ts1);
    lemma_disk_events_findings(m, obs, ts2);
    lemma_missing_events_findings(base1, obs, ts1);
    lemma_missing_events_findings(base2, obs, ts2);
    let d0 = disk_events(m, obs, 0);
    let m1 = missing_events(base1, obs, 0);
    let m2 = missing_events(base2, obs, 0);
    assert(findings_of(disk_events(m, obs, ts1) + missing_events(base1, obs, ts1)) =~= d0 + m1);
    assert(findings_of(disk_events(m, obs, ts2) + missing_events(base2, obs, ts2)) =~= d0 + m2);
    vstd::seq_lib::lemma_multiset_commutative(d0, m1);
    vstd::seq_lib::lemma_multiset_commutative(d0, m2);
    assert((d0 + m1).to_multiset() =~= (d0 + m2).to_multiset());
}

/// Law (live rename, scan half): once a live rename has retargeted the
/// record at `from` to `to` — the updated baseline holds the old record's
/// data at `to` and nothing at `from` — a reconciliation of a tree that
/// agrees with that baseline finds nothing: no `added` + `missing` pair
/// for the renamed file, and the record keeps its hash, size and
/// modification time.
pub proof fn lemma_live_rename_scan_quiet(
    m: Map<Seq<char>, (Seq<char>, u64, u64)>,
    from: Seq<char>,
    to: Seq<char>,
    obs: Seq<FileRecord>,
    base: Seq<FileRecord>,
    ts: i128,
)
    requires
        m.contains_key(from),
        from != to,
        !m.contains_key(to),
        forall|i: int|
            0 <= i < obs.len() ==> in_store(
                m.remove(from).insert(to, m[from]),
                #[trigger] obs[i],
            ),
        forall|p: Seq<char>|
            #[trigger] m.remove(from).insert(to, m[from]).contains_key(p) ==> has_path(obs, p),
        enum_ok(m.remove(from).insert(to, m[from]), base),
    ensures
        m.remove(from).insert(to, m[from])[to] == m[from],
        added_count(m.remove(from).insert(to, m[from]), obs) == 0,
        changed_count(m.remove(from).insert(to, m[from]), obs) == 0,
        missing_count(base, obs) == 0,
        disk_events(m.remove(from).insert(to, m[from]), obs, ts) + missing_events(base, obs, ts)
            == Seq::<AuditEventV>::empty(),
{
    lemma_scan_unchanged(m.remove(from).insert(to, m[from]), obs, base, ts);
}

// ---------------------------------------------------------------------------
// Rendering a report
// ---------------------------------------------------------------------------

/// The human-readable spelling of one finding.
pub open spec fn human_line_spec(e: AuditEventV) -> Seq<char> {
    (match e.kind {
        AuditKind::Create => "CREATE: "@,
        AuditKind::Modify => "MODIFY: "@,
        AuditKind::Delete => "DELETE: "@,
        AuditKind::Rename => "RENAME: "@,
        AuditKind::Added => "ADDED: "@,
        AuditKind::Changed => "CHANGED: "@,
        AuditKind::Missing => "MISSING: "@,
    }) + e.path
}

/// The final count line every scan prints.
pub open spec fn summary_line_spec(added: u64, changed: u64, missing: u64) -> Seq<char> {
    "Summary -> added: "@ + dec_nat(added as nat) + ", changed: "@ + dec_nat(changed as nat)
        + ", missing: "@ + dec_nat(missing as nat)
}

impl ScanReport {
    /// One JSON line per finding, in report order: the diff-report form.
    pub fn render_jsonl(&self) -> (r: Vec<String>)
        ensures
            r@.len() == self.events@.len(),
            forall|i: int| 0 <= i < r@.len() ==> (#[trigger] r@[i])@ == audit_json(
                self.events@[i]@,
            ),
    {
        let mut out: Vec<String> = Vec::new();
        let mut i: usize = 0;
        while i < self.events.len()
            invariant
                i <= self.events.len(),
                out@.len() == i,
                forall|j: int| 0 <= j < i ==> (#[trigger] out@[j])@ == audit_json(
                    self.events@[j]@,
                ),
            decreases self.events.len() - i,
        {
            out.push(self.events[i].to_json());
            i = i + 1;
        }
        out
    }

    /// One human-readable line per finding, in report order.
    pub fn render_human(&self) -> (r: Vec<String>)
        ensures
            r@.len() == self.events@.len(),
            forall|i: int| 0 <= i < r@.len() ==> (#[trigger] r@[i])@ == human_line_spec(
                self.events@[i]@,
            ),
    {
        let mut out: Vec<String> = Vec::new();
        let mut i: usize = 0;
        while i < self.events.len()
            invariant
                i <= self.events.len(),
                out@.len() == i,
                forall|j: int| 0 <= j < i ==> (#[trigger] out@[j])@ == human_line_spec(
                    self.events@[j]@,
                ),
            decreases self.events.len() - i,
        {
            let e = &self.events[i];
            let mut cs: Vec<char> = Vec::new();
            match e.kind {
                AuditKind::Create => push_chars(&mut cs, "CREATE: "),
                AuditKind::Modify => push_chars(&mut cs, "MODIFY: "),
                AuditKind::Delete => push_chars(&mut cs, "DELETE: "),
                AuditKind::Rename => push_chars(&mut cs, "RENAME: "),
                AuditKind::Added => push_chars(&mut cs, "ADDED: "),
                AuditKind::Changed => push_chars(&mut cs, "CHANGED: "),
                AuditKind::Missing => push_chars(&mut cs, "MISSING: "),
            }
            push_chars(&mut cs, e.path.as_str());
            out.push(chars_to_string(&cs));
            i = i + 1;
        }
        out
    }

    /// The summary line: the three counts, always printed.
    pub fn summary_line(&self) -> (r: String)
        ensures
            r@ == summary_line_spec(self.added, self.changed, self.missing),
    {
        let mut cs: Vec<char> = Vec::new();
        push_chars(&mut cs, "Summary -> added: ");
        push_dec_u64_digits(&mut cs, self.added);
        push_chars(&mut cs, ", changed: ");
        push_dec_u64_digits(&mut cs, self.changed);
        push_chars(&mut cs, ", missing: ");
        push_dec_u64_digits(&mut cs, self.missing);
        proof {
            assert(cs@ =~= summary_line_spec(self.added, self.changed, self.missing));
        }
        chars_to_string(&cs)
    }
}

} // verus!
