//! The persistent store's schema: its tables, the version gate, and the
//! decision taken on the version found at startup.

use vstd::prelude::*;

verus! {

/// Current schema version.
pub const SCHEMA_VERSION: i32 = 3;

/// Schema version tracking table.
pub const SCHEMA_VERSION_TABLE: &'static str = "
CREATE TABLE IF NOT EXISTS schema_version (
    id INTEGER PRIMARY KEY CHECK (id = 1),
    version INTEGER NOT NULL,
    updated_at TEXT NOT NULL
);
";

/// Immutable box configuration: one row per box, the full configuration
/// as JSON beside the queryable columns. Names are unique but optional.
pub const BOX_CONFIG_TABLE: &'static str = "
CREATE TABLE IF NOT EXISTS box_config (
    id TEXT PRIMARY KEY NOT NULL,
    name TEXT UNIQUE,
    created_at INTEGER NOT NULL,
    json TEXT NOT NULL
);

CREATE INDEX IF NOT EXISTS idx_box_config_created_at ON box_config(created_at);
CREATE INDEX IF NOT EXISTS idx_box_config_name ON box_config(name);
";

/// Mutable box state: status and pid beside the JSON blob, dropped with
/// its configuration row.
pub const BOX_STATE_TABLE: &'static str = "
CREATE TABLE IF NOT EXISTS box_state (
    id TEXT PRIMARY KEY NOT NULL,
    status TEXT NOT NULL,
    pid INTEGER,
    json TEXT NOT NULL,
    FOREIGN KEY (id) REFERENCES box_config(id) ON DELETE CASCADE
);

CREATE INDEX IF NOT EXISTS idx_box_state_status ON box_state(status);
CREATE INDEX IF NOT EXISTS idx_box_state_pid ON box_state(pid);
";

/// The runtime boot identity; a stale row at startup means the previous
/// boot crashed and stale `Running` rows must be reconciled.
pub const ALIVE_TABLE: &'static str = "
CREATE TABLE IF NOT EXISTS alive (
    id INTEGER PRIMARY KEY CHECK (id = 1),
    boot_id TEXT NOT NULL,
    started_at INTEGER NOT NULL
);
";

/// All schema creation statements, in creation order.
pub fn all_schemas() -> (r: Vec<&'static str>)
    ensures
        r@.len() == 4,
        r@[0] == SCHEMA_VERSION_TABLE,
        r@[1] == BOX_CONFIG_TABLE,
        r@[2] == BOX_STATE_TABLE,
        r@[3] == ALIVE_TABLE,
{
    let r: Vec<&'static str> = vec![
        SCHEMA_VERSION_TABLE,
        BOX_CONFIG_TABLE,
        BOX_STATE_TABLE,
        ALIVE_TABLE,
    ];
    r
}

/// What to do with the schema version found at startup.
#[derive(Debug, Clone, Copy, PartialEq, Eq, Structural)]
pub enum SchemaAction {
    /// A fresh store: apply the full schema.
    ApplyFullSchema,
    /// Already at the current version: nothing to do.
    UpToDate,
    /// Any other version is refused; migration is an explicit command.
    VersionMismatch,
}

/// The strict version gate: a fresh store gets the schema, the current
/// version passes, anything else is refused.
pub fn schema_action(current_version: Option<i32>) -> (r: SchemaAction)
    ensures
        current_version is None ==> r is ApplyFullSchema,
        current_version == Some(SCHEMA_VERSION) ==> r is UpToDate,
        (current_version matches Some(x) && x != SCHEMA_VERSION) ==> r is VersionMismatch,
{
    match current_version {
        None => SchemaAction::ApplyFullSchema,
        Some(x) => {
            if x == SCHEMA_VERSION {
                SchemaAction::UpToDate
            } else {
                SchemaAction::VersionMismatch
            }
        },
    }
}

} // verus!
