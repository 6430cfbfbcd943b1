//! Mail synchronisation data: messages, threads, and the per-account
//! incremental sync state, with the migration of the legacy flat state
//! layout.

use vstd::prelude::*;

verus! {

pub struct Message {
    pub id: String,
    pub thread_id: String,
    pub from: String,
    pub date: String,
    pub subject: String,
    pub body: String,
}

pub struct Thread {
    pub id: String,
    pub subject: String,
    pub labels: Vec<String>,
    pub accounts: Vec<String>,
    pub messages: Vec<Message>,
    pub last_date: String,
}

/// Where an incremental sync of one label stands.
pub struct LabelState {
    pub uidvalidity: u32,
    pub last_uid: u32,
}

/// One label's sync state, keyed by label name.
pub struct LabelEntry {
    pub label: String,
    pub state: LabelState,
}

pub struct AccountSyncState {
    pub labels: Vec<LabelEntry>,
}

/// One account's sync state, keyed by account name.
pub struct AccountEntry {
    pub account: String,
    pub state: AccountSyncState,
}

/// The persisted sync state: per-account states, plus the legacy flat
/// per-label layout kept only for migration.
pub struct SyncState {
    pub accounts: Vec<AccountEntry>,
    pub labels: Vec<LabelEntry>,
}

/// Migrates a decoded sync state: a legacy flat label list, when no
/// per-account state exists yet, moves whole under a reserved account
/// key; anything else is left untouched.
pub fn migrate_state(state: SyncState) -> (r: SyncState)
    ensures
        old_needs_migration(&state) ==> (r.accounts@.len() == 1 && r.accounts@[0].account@
            == "_legacy"@ && r.accounts@[0].state.labels@ == state.labels@ && r.labels@.len()
            == 0),
        !old_needs_migration(&state) ==> (r.accounts@ == state.accounts@ && r.labels@
            == state.labels@),
{
    if state.labels.len() > 0 && state.accounts.len() == 0 {
        let mut accounts: Vec<AccountEntry> = Vec::new();
        accounts.push(
            AccountEntry {
                account: String::from_str("_legacy"),
                state: AccountSyncState { labels: state.labels },
            },
        );
        SyncState { accounts, labels: Vec::new() }
    } else {
        state
    }
}

/// The legacy layout is migrated exactly when flat labels exist and no
/// per-account state does.
pub open spec fn old_needs_migration(state: &SyncState) -> bool {
    state.labels@.len() > 0 && state.accounts@.len() == 0
}

} // verus!
