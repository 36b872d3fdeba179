pub mod audit;
pub mod config;
pub mod dispatch;
pub mod exclude;
pub mod hash;
pub mod metrics;
pub mod scan;
pub mod store;
mod util;

pub use audit::{AuditEvent, AuditKind};
pub use config::Config;
pub use dispatch::{
    admit_path, debounce_hit, filter_paths, plan_event, process_delete, process_rename,
    process_upsert, rename_admits, DebounceMap, FsEvent, FsEventKind, PlannedAction,
};
pub use exclude::{ExcludeError, ExclusionSet};
pub use hash::{hash_bytes, hex_encode, resolve_alg, Digester, HashAlg};
pub use metrics::Metrics;
pub use scan::ScanReport;
pub use store::{BaselineStore, FileRecord, StoreError};
