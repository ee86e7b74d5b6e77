//! The decisions of the history database: which schema work opening it
//! needs, and when a run's checkpoint is written or replaces what is
//! stored. Running the SQL is the storage worker's work.
use vstd::prelude::*;

use crate::text::{concat, decimal, i64_text};

verus! {

/// The schema version this library writes.
pub const SCHEMA_VERSION: i64 = 7;

/// What opening the database does to its schema.
#[derive(Clone, Copy, Debug, PartialEq, Eq, Structural)]
pub enum SchemaPlan {
    /// No schema yet: create the current one.
    Create,
    /// The current schema: mark runs left unfinished as interrupted.
    Recover,
    /// An older schema: add what it lacks, then move to the current one.
    Upgrade {
        /// Versions before 3 lack the conversations' model preference.
        add_model_preference: bool,
        /// Versions before 4 lack the favorites' note.
        add_favorite_note: bool,
        /// Version 5 lacks the installed plugins' kind.
        add_plugin_kind: bool,
    },
}

/// What opening a database of schema `existing` (`None` for none) does,
/// or why it cannot be opened.
pub open spec fn schema_plan_of(existing: Option<i64>) -> Result<SchemaPlan, Seq<char>> {
    match existing {
        None => Ok(SchemaPlan::Create),
        Some(v) => if v < 1 || v > 7 {
            Err("database schema version "@ + decimal(v as int) + " is not supported"@)
        } else if v == 7 {
            Ok(SchemaPlan::Recover)
        } else {
            Ok(SchemaPlan::Upgrade { add_model_preference: v < 3, add_favorite_note: v < 4, add_plugin_kind: v == 5 })
        },
    }
}

/// What opening a database of schema `existing` does.
pub fn schema_plan(existing: Option<i64>) -> (r: Result<SchemaPlan, String>)
    ensures
        match schema_plan_of(existing) {
            Ok(p) => r == Ok::<SchemaPlan, String>(p),
            Err(e) => r matches Err(x) && x@ == e,
        },
{
    match existing {
        None => Ok(SchemaPlan::Create),
        Some(v) => if v < 1 || v > SCHEMA_VERSION {
            let head = concat("database schema version ", i64_text(v).as_str());
            Err(concat(head.as_str(), " is not supported"))
        } else if v == SCHEMA_VERSION {
            Ok(SchemaPlan::Recover)
        } else {
            Ok(SchemaPlan::Upgrade { add_model_preference: v < 3, add_favorite_note: v < 4, add_plugin_kind: v == 5 })
        },
    }
}

/// Whether a run's checkpoint is written at all: only while its retention
/// generation is the stored one, and neither the run nor its conversation
/// has been deleted.
pub fn checkpoint_applies(
    stored_generation: u64,
    checkpoint_generation: u64,
    run_deleted: bool,
    conversation_deleted: bool,
) -> (r: bool)
    ensures
        r == (stored_generation == checkpoint_generation && !run_deleted && !conversation_deleted),
{
    stored_generation == checkpoint_generation && !run_deleted && !conversation_deleted
}

/// Whether a checkpoint of `sequence` in `generation` replaces a stored row
/// of `stored_sequence` in `stored_generation`: only a later sequence, in
/// no earlier generation.
pub fn checkpoint_replaces(sequence: u64, generation: u64, stored_sequence: u64, stored_generation: u64) -> (r:
    bool)
    ensures
        r == (sequence > stored_sequence && generation >= stored_generation),
{
    sequence > stored_sequence && generation >= stored_generation
}

/// A stored row only moves forward: once a checkpoint replaces it, an
/// older or equal sequence never replaces the result.
pub proof fn checkpoints_only_move_forward(s1: u64, g1: u64, s0: u64, g0: u64, s2: u64, g2: u64)
    requires
        s1 > s0 && g1 >= g0,
        s2 <= s1,
    ensures
        !(s2 > s1 && g2 >= g1),
{
}

} // verus!
