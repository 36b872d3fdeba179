use vstd::prelude::*;

verus! {

/// The live counters the watch dispatcher drives: files created, modified
/// and deleted since start, and a gauge of currently tracked files. The
/// arithmetic saturates instead of wrapping, so a counter can never run
/// backwards. An exporter publishes these; the core only updates them.
pub struct Metrics {
    pub created: u64,
    pub modified: u64,
    pub deleted: u64,
    pub tracked_files: i64,
}

/// A saturating increment on a u64 counter.
pub open spec fn sat_inc_u64(n: u64) -> u64 {
    if n == u64::MAX {
        n
    } else {
        (n + 1) as u64
    }
}

/// A saturating increment on the i64 gauge.
pub open spec fn sat_inc_i64(n: i64) -> i64 {
    if n == i64::MAX {
        n
    } else {
        (n + 1) as i64
    }
}

/// A saturating decrement on the i64 gauge.
pub open spec fn sat_dec_i64(n: i64) -> i64 {
    if n == i64::MIN {
        n
    } else {
        (n - 1) as i64
    }
}

impl Metrics {
    /// Fresh counters: everything at zero.
    pub fn new() -> (r: Metrics)
        ensures
            r.created == 0 && r.modified == 0 && r.deleted == 0 && r.tracked_files == 0,
    {
        Metrics { created: 0, modified: 0, deleted: 0, tracked_files: 0 }
    }

    pub fn inc_created(&mut self)
        ensures
            final(self).created == sat_inc_u64(old(self).created),
            final(self).modified == old(self).modified,
            final(self).deleted == old(self).deleted,
            final(self).tracked_files == old(self).tracked_files,
    {
        if self.created < u64::MAX {
            self.created = self.created + 1;
        }
    }

    pub fn inc_modified(&mut self)
        ensures
            final(self).modified == sat_inc_u64(old(self).modified),
            final(self).created == old(self).created,
            final(self).deleted == old(self).deleted,
            final(self).tracked_files == old(self).tracked_files,
    {
        if self.modified < u64::MAX {
            self.modified = self.modified + 1;
        }
    }

    pub fn inc_deleted(&mut self)
        ensures
            final(self).deleted == sat_inc_u64(old(self).deleted),
            final(self).created == old(self).created,
            final(self).modified == old(self).modified,
            final(self).tracked_files == old(self).tracked_files,
    {
        if self.deleted < u64::MAX {
            self.deleted = self.deleted + 1;
        }
    }

    pub fn inc_tracked(&mut self)
        ensures
            final(self).tracked_files == sat_inc_i64(old(self).tracked_files),
            final(self).created == old(self).created,
            final(self).modified == old(self).modified,
            final(self).deleted == old(self).deleted,
    {
        if self.tracked_files < i64::MAX {
            self.tracked_files = self.tracked_files + 1;
        }
    }

    pub fn dec_tracked(&mut self)
        ensures
            final(self).tracked_files == sat_dec_i64(old(self).tracked_files),
            final(self).created == old(self).created,
            final(self).modified == old(self).modified,
            final(self).deleted == old(self).deleted,
    {
        if self.tracked_files > i64::MIN {
            self.tracked_files = self.tracked_files - 1;
        }
    }

    /// Seeds the gauge from a freshly counted store, clamping a count that
    /// would not fit the gauge.
    pub fn set_tracked(&mut self, n: u64)
        ensures
            final(self).tracked_files == (if n > i64::MAX as u64 {
                i64::MAX
            } else {
                n as i64
            }),
            final(self).created == old(self).created,
            final(self).modified == old(self).modified,
            final(self).deleted == old(self).deleted,
    {
        if n > i64::MAX as u64 {
            self.tracked_files = i64::MAX;
        } else {
            self.tracked_files = n as i64;
        }
    }
}

} // verus!
