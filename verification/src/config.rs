use vstd::prelude::*;

verus! {

/// Run configuration for the monitor: where the baseline lives, what to
/// watch, what to skip, how to hash, and how long the debounce window is.
pub struct Config {
    pub baseline_db: String,
    pub metrics_bind: String,
    pub watch_paths: Vec<String>,
    pub exclude: Vec<String>,
    pub hash_alg: String,
    pub debounce_ms: u64,
}

/// Default digest algorithm name used when the configuration gives none.
pub fn default_hash_alg() -> (r: String)
    ensures
        r@ == "blake3"@,
{
    let r = String::from_str("blake3");
    r
}

/// Default debounce window, in milliseconds, used when the configuration
/// gives none.
pub fn default_debounce_ms() -> (r: u64)
    ensures
        r == 250,
{
    250
}

} // verus!
