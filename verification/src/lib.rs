//! Transactional substrate of the managed-agents store.
//!
//! `managed-agents.json` / `teams.json` stay the canonical user-visible files.
//! `store-journal.sqlite` (beside them, at the **store-family anchor**) holds
//! shared recovery facts: operation records, per-key generation / tombstone
//! metadata, immutable inbox/outbox rows.
//!
//! - [`anchor`]: where the lock and the journal stand.
//! - [`lock`], [`write`], [`store`]: the steps by which the lock is acquired, a
//!   file is replaced, and the store is read or mutated under the lock.
//! - [`schema`], [`keys`], [`operations`], [`events`]: the journal and its rows,
//!   over the database calls in [`sql`], which keep a record of themselves.
//! - [`rows`]: what these calls do to the journal's rows, and what follows of
//!   whole functions.
//! - [`generation`], [`disposition`]: the rules that the rows follow.
//! - [`codec`]: fail-closed decoding of the files.
//! - [`effort`], [`env_vars`]: the thinking effort in an agent's environment.
//!
//! **Posture**: protects against crashes and concurrent cooperating processes
//! on one machine only.  Does not defend against adversarial same-user
//! tampering, cross-machine duplication, supply-chain attack, mixed-version
//! writers, sign-out/reset races, or concurrent bundles.

pub mod anchor;
pub mod clock;
pub mod codec;
pub mod disposition;
pub mod effort;
pub mod env_vars;
pub mod events;
pub mod generation;
pub mod ids;
pub mod keys;
pub mod lock;
pub mod operations;
pub mod rows;
pub mod schema;
pub mod sql;
pub mod store;
pub mod text;
pub mod write;
