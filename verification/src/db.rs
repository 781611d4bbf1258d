//! What the database reports: time spent per application.

use vstd::prelude::*;

verus! {

/// Time spent in one application, in seconds.
#[derive(Debug, Clone)]
pub struct AppSummary {
    pub app_id: String,
    pub duration_sec: i64,
}

} // verus!
