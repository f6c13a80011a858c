//! The stored record of a deployed function.
use vstd::prelude::*;

verus! {

/// A row of the `functions` table. Timestamps are seconds since the Unix epoch.
pub struct DeployedFunction {
    pub id: String,
    pub created_at: i64,
    pub updated_at: i64,
    pub invoked_at: i64,
    pub container_id: Option<String>,
    pub exposed_port: Option<i32>,
}

} // verus!
