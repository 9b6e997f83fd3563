//! Verified storage logic of a chain rollback.
//!
//! A rollback discards a suffix of checkpoints. Before anything is deleted, every
//! row of the suffix is copied into an archive, the participants agree on barriers,
//! and the state in front of the suffix is restored and published. The modules here
//! hold the rows, codecs, queries and decisions of that process; they perform no
//! I/O. Whoever drives them reads, writes and hands the outcomes back.

// Bytes, text and hashes.
pub mod bytes;
pub mod commitment;
pub mod hash;
pub mod keyspace;
pub mod lwt;
pub mod text;

// The chain, the tables and their keys.
pub mod identity;
pub mod imt_family;
pub mod imt_write_plan;
pub mod key;
pub mod manifest_artifact;
pub mod manifest_artifact_set;
pub mod model;
pub mod registry;
pub mod rollback_participant;
pub mod typed_key;

// The archive of a suffix.
pub mod coordinator_rollback_archive_persist;
pub mod coordinator_rollback_archive_plan;
pub mod coordinator_rollback_archive_scan;
pub mod coordinator_rollback_archive_store;
pub mod coordinator_rollback_branch_accumulator;
pub mod coordinator_rollback_branch_catalog;
pub mod coordinator_rollback_branch_scan;
pub mod coordinator_rollback_branch_transition;
pub mod coordinator_rollback_branch_walk;
pub mod coordinator_rollback_mapping_archive_row;
pub mod coordinator_rollback_realm_reward_catalog;

// Commits, and what is restored from them.
pub mod coordinator_commit_target_restore;
pub mod coordinator_guta_durable_submission_store;
pub mod coordinator_processor_capture_open;
pub mod coordinator_processor_durable_capture;
pub mod coordinator_processor_full_commit;
pub mod coordinator_rollback_floor_singleton_anchor;

// The course of a rollback.
pub mod coordinator_rollback_delete_completion_store;
pub mod coordinator_rollback_global_progress;
pub mod coordinator_rollback_maintenance;
pub mod coordinator_rollback_runtime_publication;
pub mod delete_executor;
pub mod event_store;
