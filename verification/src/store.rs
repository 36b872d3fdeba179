use vstd::prelude::*;
use rusqlite::OptionalExtension;

verus! {

// ---------------------------------------------------------------------------
// Records and the store's mathematical view
// ---------------------------------------------------------------------------

/// One tracked file: the canonical path is the primary key; hash, size and
/// modification time describe the expected content.
#[derive(Clone, Debug)]
pub struct FileRecord {
    pub path: String,
    pub hash: String,
    pub size: u64,
    pub modified_at: u64,
}

/// The non-key fields of a record, as the store's view holds them.
pub open spec fn rec_data(r: FileRecord) -> (Seq<char>, u64, u64) {
    (r.hash@, r.size, r.modified_at)
}

/// Whether the store view `m` holds exactly this record at its path.
pub open spec fn in_store(m: Map<Seq<char>, (Seq<char>, u64, u64)>, r: FileRecord) -> bool {
    m.contains_key(r.path@) && m[r.path@] == rec_data(r)
}

/// The map a sequence of records builds, later records overwriting
/// earlier ones at the same path.
pub open spec fn records_map(rs: Seq<FileRecord>) -> Map<Seq<char>, (Seq<char>, u64, u64)>
    decreases rs.len(),
{
    if rs.len() == 0 {
        empty_view()
    } else {
        records_map(rs.drop_last()).insert(rs.last().path@, rec_data(rs.last()))
    }
}

/// The view of a store with nothing tracked.
pub open spec fn empty_view() -> Map<Seq<char>, (Seq<char>, u64, u64)> {
    Map::<Seq<char>, (Seq<char>, u64, u64)>::empty()
}

/// A storage failure: the wrapped engine's message, kept for logging.
#[derive(Debug)]
pub struct StoreError {
    pub msg: String,
}

// ---------------------------------------------------------------------------
// The durable index, behind trusted wrappers
// ---------------------------------------------------------------------------

#[verifier::external_type_specification]
#[verifier::external_body]
pub struct ExConnection(rusqlite::Connection);

/// Name for the record set a database connection currently sees: canonical
/// path to (hash, size, modification time).
pub uninterp spec fn db_files(c: rusqlite::Connection) -> Map<Seq<char>, (Seq<char>, u64, u64)>;

/// Name for whether the connection has an explicit transaction open. A
/// statement that fails inside one can take the whole transaction down
/// with it, so the row wrappers promise an unchanged record set on
/// failure only outside a transaction.
pub uninterp spec fn db_in_txn(c: rusqlite::Connection) -> bool;

/// The durable keyed index of tracked files. All reads and writes go
/// through one SQLite table whose sole key is the canonical path.
pub struct BaselineStore {
    conn: rusqlite::Connection,
}

impl View for BaselineStore {
    type V = Map<Seq<char>, (Seq<char>, u64, u64)>;

    closed spec fn view(&self) -> Map<Seq<char>, (Seq<char>, u64, u64)> {
        db_files(self.conn)
    }
}

/// Relies on `rusqlite::Connection::open` and `execute_batch`: opens (or
/// creates) the database and ensures the files table exists. The resulting
/// record set is whatever the file on disk held: finitely many rows, and a
/// fresh connection starts in autocommit mode, with no transaction open.
#[verifier::external_body]
fn db_open(path: &String) -> (r: Result<rusqlite::Connection, StoreError>)
    ensures
        r matches Ok(c) ==> !db_in_txn(c) && db_files(c).dom().finite(),
{
    let conn = rusqlite::Connection::open(path).map_err(|e| StoreError { msg: e.to_string() })?;
    conn.execute_batch(
        "PRAGMA journal_mode=WAL;\n         CREATE TABLE IF NOT EXISTS files (\n           path TEXT PRIMARY KEY,\n           hash TEXT NOT NULL,\n           size INTEGER NOT NULL,\n           mtime INTEGER NOT NULL\n         );",
    ).map_err(|e| StoreError { msg: e.to_string() })?;
    Ok(conn)
}

/// Relies on `rusqlite::Connection::execute_batch` running `BEGIN
/// IMMEDIATE`: starts a transaction and changes no rows; when it fails
/// (the lock was not available), no transaction has started.
#[verifier::external_body]
fn db_begin(c: &mut rusqlite::Connection) -> (r: Result<(), StoreError>)
    ensures
        r is Ok ==> db_files(*final(c)) == db_files(*old(c)) && db_in_txn(*final(c)),
        r is Err ==> db_files(*final(c)) == db_files(*old(c)) && db_in_txn(*final(c))
            == db_in_txn(*old(c)),
{
    c.execute_batch("BEGIN IMMEDIATE;").map_err(|e| StoreError { msg: e.to_string() })
}

/// Relies on `rusqlite::Connection::execute_batch` running `COMMIT`: makes
/// the open transaction durable; on success the rows are unchanged and the
/// connection is back in autocommit mode. A failed commit may leave the
/// transaction open or rolled back, so nothing is claimed of it.
#[verifier::external_body]
fn db_commit(c: &mut rusqlite::Connection) -> (r: Result<(), StoreError>)
    ensures
        r is Ok ==> db_files(*final(c)) == db_files(*old(c)) && !db_in_txn(*final(c)),
{
    c.execute_batch("COMMIT;").map_err(|e| StoreError { msg: e.to_string() })
}

/// Relies on `rusqlite::Connection::execute_batch` running `ROLLBACK`:
/// abandons the open transaction, leaving the rows as they stood when it
/// began — a state this module's callers no longer track, so nothing is
/// claimed of the record set afterwards, only that no transaction is left
/// open on success.
#[verifier::external_body]
fn db_rollback(c: &mut rusqlite::Connection) -> (r: Result<(), StoreError>)
    ensures
        r is Ok ==> !db_in_txn(*final(c)),
{
    c.execute_batch("ROLLBACK;").map_err(|e| StoreError { msg: e.to_string() })
}

/// Relies on `rusqlite::Connection::execute` running `DELETE FROM files`:
/// removes every row, leaving the transaction state as it was. A failed
/// statement rolls its own changes back; only inside an explicit
/// transaction can the failure also take earlier changes with it, so the
/// unchanged-rows claim holds outside one alone.
#[verifier::external_body]
fn db_clear(c: &mut rusqlite::Connection) -> (r: Result<(), StoreError>)
    ensures
        r is Ok ==> db_files(*final(c)) == empty_view() && db_in_txn(*final(c)) == db_in_txn(
            *old(c),
        ),
        r is Err ==> db_in_txn(*old(c)) || (db_files(*final(c)) == db_files(*old(c))
            && !db_in_txn(*final(c))),
{
    match c.execute("DELETE FROM files", ()) {
        Ok(_) => Ok(()),
        Err(e) => Err(StoreError { msg: e.to_string() }),
    }
}

/// Relies on `rusqlite::Connection::execute` running `INSERT OR REPLACE`:
/// the row at `path` afterwards holds exactly these fields, with the
/// transaction state as it was. A failed statement rolls its own changes
/// back; only inside an explicit transaction can the failure also take
/// earlier changes with it, so the unchanged-rows claim holds outside one
/// alone.
#[verifier::external_body]
fn db_put(c: &mut rusqlite::Connection, path: &String, hash: &String, size: u64, mtime: u64) -> (r:
    Result<(), StoreError>)
    ensures
        r is Ok ==> db_files(*final(c)) == db_files(*old(c)).insert(path@, (hash@, size, mtime))
            && db_in_txn(*final(c)) == db_in_txn(*old(c)),
        r is Err ==> db_in_txn(*old(c)) || (db_files(*final(c)) == db_files(*old(c))
            && !db_in_txn(*final(c))),
{
    match c.execute(
        "INSERT OR REPLACE INTO files(path, hash, size, mtime) VALUES(?1, ?2, ?3, ?4)",
        (path, hash, size as i64, mtime as i64),
    ) {
        Ok(_) => Ok(()),
        Err(e) => Err(StoreError { msg: e.to_string() }),
    }
}

/// Relies on `rusqlite::Connection::query_row` over `SELECT ... WHERE
/// path=?1`: returns the row's fields when the path is present, nothing
/// when it is absent.
#[verifier::external_body]
fn db_get(c: &rusqlite::Connection, path: &String) -> (r: Result<Option<FileRecord>, StoreError>)
    ensures
        r matches Ok(o) ==> (o is Some <==> db_files(*c).contains_key(path@)),
        r matches Ok(Some(rec)) ==> rec.path@ == path@ && rec_data(rec) == db_files(*c)[path@],
{
    c.query_row(
        "SELECT hash, size, mtime FROM files WHERE path=?1",
        (path,),
        |row| {
            Ok(FileRecord {
                path: path.clone(),
                hash: row.get(0)?,
                size: row.get::<_, i64>(1)? as u64,
                modified_at: row.get::<_, i64>(2)? as u64,
            })
        },
    ).optional().map_err(|e| StoreError { msg: e.to_string() })
}

/// Relies on `rusqlite::Connection::execute` running `DELETE ... WHERE
/// path=?1`: reports how many rows went away (one when the path was
/// present, none otherwise), with the transaction state as it was. A
/// failed statement rolls its own changes back; only inside an explicit
/// transaction can the failure also take earlier changes with it, so the
/// unchanged-rows claim holds outside one alone.
#[verifier::external_body]
fn db_delete(c: &mut rusqlite::Connection, path: &String) -> (r: Result<usize, StoreError>)
    ensures
        r matches Ok(n) ==> {
            &&& db_files(*final(c)) == db_files(*old(c)).remove(path@)
            &&& db_in_txn(*final(c)) == db_in_txn(*old(c))
            &&& n == (if db_files(*old(c)).contains_key(path@) {
                1int
            } else {
                0int
            })
        },
        r is Err ==> db_in_txn(*old(c)) || (db_files(*final(c)) == db_files(*old(c))
            && !db_in_txn(*final(c))),
{
    match c.execute("DELETE FROM files WHERE path=?1", (path,)) {
        Ok(n) => Ok(n),
        Err(e) => Err(StoreError { msg: e.to_string() }),
    }
}

/// Relies on `rusqlite::Connection::execute` running `UPDATE files SET
/// path=?1 WHERE path=?2`: retargets the row in place, keeping its other
/// fields, leaving the transaction state as it was. When the source row
/// is absent nothing changes. When source and target both exist the
/// unique key makes the statement fail instead of succeeding, so of that
/// case only the table's finiteness is claimed. A failed statement rolls its own changes
/// back; only inside an explicit transaction can the failure also take
/// earlier changes with it, so the unchanged-rows claim holds outside one
/// alone.
#[verifier::external_body]
fn db_rename(c: &mut rusqlite::Connection, from: &String, to: &String) -> (r: Result<
    usize,
    StoreError,
>)
    ensures
        r is Ok ==> db_in_txn(*final(c)) == db_in_txn(*old(c)),
        r matches Ok(n) ==> {
            if !db_files(*old(c)).contains_key(from@) {
                n == 0 && db_files(*final(c)) == db_files(*old(c))
            } else if from@ == to@ {
                n == 1 && db_files(*final(c)) == db_files(*old(c))
            } else if !db_files(*old(c)).contains_key(to@) {
                n == 1 && db_files(*final(c)) == db_files(*old(c)).remove(from@).insert(
                    to@,
                    db_files(*old(c))[from@],
                )
            } else {
                db_files(*final(c)).dom().finite()
            }
        },
        r is Err ==> db_in_txn(*old(c)) || (db_files(*final(c)) == db_files(*old(c))
            && !db_in_txn(*final(c))),
{
    match c.execute("UPDATE files SET path=?1 WHERE path=?2", (to, from)) {
        Ok(n) => Ok(n),
        Err(e) => Err(StoreError { msg: e.to_string() }),
    }
}

/// Relies on `rusqlite::Connection::query_row` over `SELECT COUNT(*)`:
/// the number of rows, which is the number of tracked paths.
#[verifier::external_body]
fn db_count(c: &rusqlite::Connection) -> (r: Result<u64, StoreError>)
    ensures
        r matches Ok(n) ==> n as nat == db_files(*c).dom().len(),
{
    match c.query_row("SELECT COUNT(*) FROM files", (), |row| row.get::<_, i64>(0)) {
        Ok(n) => Ok(n as u64),
        Err(e) => Err(StoreError { msg: e.to_string() }),
    }
}

/// Relies on `rusqlite::Statement::query_map` over `SELECT path, hash,
/// size, mtime FROM files`: one row per tracked path, each carrying that
/// path's stored fields.
#[verifier::external_body]
fn db_enumerate(c: &rusqlite::Connection) -> (r: Result<Vec<FileRecord>, StoreError>)
    ensures
        r matches Ok(v) ==> {
            &&& forall|i: int| 0 <= i < v@.len() ==> in_store(db_files(*c), #[trigger] v@[i])
            &&& forall|p: Seq<char>|
                #[trigger] db_files(*c).contains_key(p) ==> exists|i: int|
                    0 <= i < v@.len() && (#[trigger] v@[i]).path@ == p
            &&& forall|i: int, j: int|
                0 <= i < j < v@.len() ==> (#[trigger] v@[i]).path@ != (#[trigger] v@[j]).path@
        },
{
    let inner = || -> Result<Vec<FileRecord>, rusqlite::Error> {
        let mut stmt = c.prepare("SELECT path, hash, size, mtime FROM files")?;
        let rows = stmt.query_map((), |row| {
            Ok(FileRecord {
                path: row.get(0)?,
                hash: row.get(1)?,
                size: row.get::<_, i64>(2)? as u64,
                modified_at: row.get::<_, i64>(3)? as u64,
            })
        })?;
        rows.collect()
    };
    inner().map_err(|e| StoreError { msg: e.to_string() })
}

// ---------------------------------------------------------------------------
// The verified store interface
// ---------------------------------------------------------------------------

impl BaselineStore {
    /// Ready for row operations: no explicit transaction is open on the
    /// connection (`rebuild` opens one only inside its own call), and the
    /// record set is finite, as a table's row set is. `open` establishes
    /// this and every operation but a failed `rebuild` preserves it.
    pub closed spec fn inv(&self) -> bool {
        &&& !db_in_txn(self.conn)
        &&& db_files(self.conn).dom().finite()
    }

    /// Opens (or creates) the store at `path`. The record set is whatever
    /// the database file held.
    pub fn open(path: &String) -> (r: Result<BaselineStore, StoreError>)
        ensures
            r matches Ok(s) ==> s.inv(),
    {
        match db_open(path) {
            Ok(conn) => Ok(BaselineStore { conn }),
            Err(e) => Err(e),
        }
    }

    /// Point read by canonical path.
    pub fn lookup(&self, path: &String) -> (r: Result<Option<FileRecord>, StoreError>)
        ensures
            r matches Ok(o) ==> (o is Some <==> self@.contains_key(path@)),
            r matches Ok(Some(rec)) ==> rec.path@ == path@ && rec_data(rec) == self@[path@],
    {
        db_get(&self.conn, path)
    }

    /// Insert if absent, else overwrite; reports whether a record already
    /// stood at that path.
    pub fn upsert(&mut self, rec: &FileRecord) -> (r: Result<bool, StoreError>)
        requires
            old(self).inv(),
        ensures
            final(self).inv(),
            r matches Ok(existed) ==> {
                &&& final(self)@ == old(self)@.insert(rec.path@, rec_data(*rec))
                &&& existed == old(self)@.contains_key(rec.path@)
            },
            r is Err ==> final(self)@ == old(self)@,
    {
        let prior = match db_get(&self.conn, &rec.path) {
            Ok(o) => o,
            Err(e) => {
                return Err(e);
            },
        };
        match db_put(&mut self.conn, &rec.path, &rec.hash, rec.size, rec.modified_at) {
            Ok(()) => Ok(prior.is_some()),
            Err(e) => Err(e),
        }
    }

    /// Removes the record at `path`; reports whether one existed.
    pub fn delete(&mut self, path: &String) -> (r: Result<bool, StoreError>)
        requires
            old(self).inv(),
        ensures
            final(self).inv(),
            r matches Ok(existed) ==> {
                &&& final(self)@ == old(self)@.remove(path@)
                &&& existed == old(self)@.contains_key(path@)
            },
            r is Err ==> final(self)@ == old(self)@,
    {
        match db_delete(&mut self.conn, path) {
            Ok(n) => Ok(n > 0),
            Err(e) => Err(e),
        }
    }

    /// Retargets the record at `from` to `to`, keeping hash, size and
    /// modification time; reports whether a source record existed. When
    /// both endpoints already hold records the engine refuses the move and
    /// an error comes back with the rows unchanged.
    pub fn rename(&mut self, from: &String, to: &String) -> (r: Result<bool, StoreError>)
        requires
            old(self).inv(),
        ensures
            final(self).inv(),
            r matches Ok(existed) ==> {
                &&& existed == old(self)@.contains_key(from@)
                &&& !existed ==> final(self)@ == old(self)@
                &&& (existed && from@ == to@) ==> final(self)@ == old(self)@
                &&& (existed && from@ != to@ && !old(self)@.contains_key(to@)) ==> final(self)@
                    == old(self)@.remove(from@).insert(to@, old(self)@[from@])
            },
            r is Err ==> final(self)@ == old(self)@,
    {
        let had_from = match db_get(&self.conn, from) {
            Ok(o) => o.is_some(),
            Err(e) => {
                return Err(e);
            },
        };
        match db_rename(&mut self.conn, from, to) {
            Ok(_) => Ok(had_from),
            Err(e) => Err(e),
        }
    }

    /// How many paths are tracked.
    pub fn count(&self) -> (r: Result<u64, StoreError>)
        ensures
            r matches Ok(n) ==> n as nat == self@.dom().len(),
    {
        db_count(&self.conn)
    }

    /// Read-only full scan: every tracked record, one per path.
    pub fn enumerate(&self) -> (r: Result<Vec<FileRecord>, StoreError>)
        ensures
            r matches Ok(v) ==> {
                &&& forall|i: int| 0 <= i < v@.len() ==> in_store(self@, #[trigger] v@[i])
                &&& forall|p: Seq<char>|
                    #[trigger] self@.contains_key(p) ==> exists|i: int|
                        0 <= i < v@.len() && (#[trigger] v@[i]).path@ == p
                &&& forall|i: int, j: int|
                    0 <= i < j < v@.len() ==> (#[trigger] v@[i]).path@ != (#[trigger] v@[j]).path@
            },
    {
        db_enumerate(&self.conn)
    }

    /// Atomically replaces the whole record set with `records`: one
    /// transaction wraps the wipe and every insert, so the store ends with
    /// either the old complete set or the new complete one. On failure the
    /// engine rolls the open transaction back (and a rollback is issued
    /// besides), restoring the set from before the call — but that set is
    /// not in the model once the transaction has begun, so the contract
    /// claims nothing of a failed rebuild; callers treat it as fatal for
    /// the invocation and reopen the store. Returns how many records were
    /// written.
    pub fn rebuild(&mut self, records: &Vec<FileRecord>) -> (r: Result<usize, StoreError>)
        requires
            old(self).inv(),
        ensures
            r matches Ok(n) ==> {
                &&& final(self).inv()
                &&& final(self)@ == records_map(records@)
                &&& n == records@.len()
            },
    {
        match db_begin(&mut self.conn) {
            Ok(()) => {},
            Err(e) => {
                return Err(e);
            },
        }
        match db_clear(&mut self.conn) {
            Ok(()) => {},
            Err(e) => {
                let _ = db_rollback(&mut self.conn);
                return Err(e);
            },
        }
        let mut i: usize = 0;
        while i < records.len()
            invariant
                i <= records.len(),
                self@ == records_map(records@.take(i as int)),
            decreases records.len() - i,
        {
            let rec = &records[i];
            match db_put(&mut self.conn, &rec.path, &rec.hash, rec.size, rec.modified_at) {
                Ok(()) => {},
                Err(e) => {
                    let _ = db_rollback(&mut self.conn);
                    return Err(e);
                },
            }
            i = i + 1;
            proof {
                assert(records@.take(i as int).drop_last() == records@.take(i as int - 1));
                assert(records@.take(i as int).last() == records@[i as int - 1]);
            }
        }
        proof {
            assert(records@.take(records@.len() as int) == records@);
            lemma_records_map_finite(records@);
        }
        match db_commit(&mut self.conn) {
            Ok(()) => Ok(records.len()),
            Err(e) => {
                let _ = db_rollback(&mut self.conn);
                Err(e)
            },
        }
    }
}

/// A record list builds a finite map.
proof fn lemma_records_map_finite(rs: Seq<FileRecord>)
    ensures
        records_map(rs).dom().finite(),
    decreases rs.len(),
{
    if rs.len() > 0 {
        lemma_records_map_finite(rs.drop_last());
    }
}

// ---------------------------------------------------------------------------
// Law: a freshly built baseline answers lookups with the hashed values
// ---------------------------------------------------------------------------

/// Law: in a baseline built from `rs`, every record's path is tracked and
/// maps to exactly the hash, size and modification time that were computed
/// for it, provided no two records share a path. With `rebuild` and
/// `lookup`, this says a lookup after a fresh build returns the record
/// whose hash was computed from the file's bytes.
pub proof fn lemma_fresh_baseline_lookup(rs: Seq<FileRecord>, i: int)
    requires
        0 <= i < rs.len(),
        forall|j: int, k: int| 0 <= j < k < rs.len() ==> rs[j].path@ != rs[k].path@,
    ensures
        records_map(rs).contains_key(rs[i].path@),
        records_map(rs)[rs[i].path@] == rec_data(rs[i]),
    decreases rs.len(),
{
    if i == rs.len() - 1 {
    } else {
        lemma_fresh_baseline_lookup(rs.drop_last(), i);
        assert(rs.drop_last()[i] == rs[i]);
        assert(rs[i].path@ != rs.last().path@);
    }
}

} // verus!
