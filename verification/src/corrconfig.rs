//! The unified configuration data: owner identity, accounts, routing of
//! labels to mailboxes, per-mailbox settings, and the watch loop's
//! parameters.  Reading the backing file is the caller's concern; the
//! engine only carries these values.

use vstd::prelude::*;

verus! {

/// The owner's identity: hosting user name and display name.
pub struct OwnerConfig {
    pub github_user: String,
    pub name: String,
}

/// One mail account.
pub struct Account {
    pub provider: String,
    pub user: String,
    pub password_cmd: String,
    pub labels: Vec<String>,
    pub default: bool,
}

/// An account, keyed by its configuration name.
pub struct AccountConfigEntry {
    pub name: String,
    pub account: Account,
}

/// One routing rule: a label mapped to the mailboxes it feeds.
pub struct RoutingEntry {
    pub label: String,
    pub targets: Vec<String>,
}

pub struct MailboxPermissions {
    pub write: Vec<String>,
    pub read: Vec<String>,
    pub sync: bool,
    pub send: bool,
}

/// Permissions, keyed by principal.
pub struct PermissionEntry {
    pub principal: String,
    pub permissions: MailboxPermissions,
}

pub struct MailboxConfig {
    pub auto_send: bool,
    pub permissions: Vec<PermissionEntry>,
}

/// A mailbox, keyed by its name.
pub struct MailboxEntry {
    pub name: String,
    pub config: MailboxConfig,
}

/// The watch loop's parameters.
pub struct WatchConfig {
    pub poll_interval: u64,
    pub notify: bool,
}

pub struct CorrKitConfig {
    pub owner: Option<OwnerConfig>,
    pub accounts: Vec<AccountConfigEntry>,
    pub routing: Vec<RoutingEntry>,
    pub mailboxes: Vec<MailboxEntry>,
    pub watch: Option<WatchConfig>,
}

impl CorrKitConfig {
    /// The name used for the owner where one is wanted: the display name
    /// when set, else the hosting user name, else nothing.
    pub fn owner_display(&self) -> (r: Option<&String>)
        ensures
            self.owner is None ==> r is None,
            self.owner matches Some(o) ==> (if o.name@.len() > 0 {
                r matches Some(s) && s@ == o.name@
            } else {
                r matches Some(s) && s@ == o.github_user@
            }),
    {
        match &self.owner {
            None => None,
            Some(o) => {
                if o.name.as_str().is_empty() {
                    Some(&o.github_user)
                } else {
                    Some(&o.name)
                }
            },
        }
    }
}

/// Resolves the name replies are searched under: an explicit flag wins,
/// then the owner's display name from the configuration; with neither
/// the caller cannot proceed.
pub fn resolve_from_name(from_name: Option<String>, owner_name: Option<&String>) -> (r: Result<
    String,
    crate::CollabError,
>)
    ensures
        from_name matches Some(n) ==> (r matches Ok(v) && v@ == n@),
        from_name is None ==> match owner_name {
            Some(o) => if o@.len() > 0 {
                r matches Ok(v) && v@ == o@
            } else {
                r == Result::<String, crate::CollabError>::Err(
                    crate::CollabError::EnvironmentFailure,
                )
            },
            None => r == Result::<String, crate::CollabError>::Err(
                crate::CollabError::EnvironmentFailure,
            ),
        },
{
    match from_name {
        Some(n) => Ok(n),
        None => match owner_name {
            Some(o) => {
                if !o.as_str().is_empty() {
                    Ok(o.clone())
                } else {
                    Err(crate::CollabError::EnvironmentFailure)
                }
            },
            None => Err(crate::CollabError::EnvironmentFailure),
        },
    }
}

} // verus!
