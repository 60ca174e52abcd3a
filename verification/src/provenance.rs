use vstd::prelude::*;

verus! {

/// Build provenance baked in at compile time.
#[derive(Debug, Clone, Copy)]
pub struct BuildInfo {
    pub rustc_version: &'static str,
    pub musl_gcc_version: &'static str,
    pub musl_libc_version: &'static str,
    pub build_timestamp: &'static str,
    pub build_target: &'static str,
}

} // verus!
