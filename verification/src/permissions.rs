//! What an operator's ACLs permit the admin UI to show and to change.

use vstd::prelude::*;

verus! {

/// The pages and the mutations that an operator may reach.
///
/// Each flag says whether the operator's ACLs grant the broker operation
/// behind one page or one family of mutation forms.
#[derive(Clone, Copy, Debug, PartialEq, Eq, Structural)]
pub struct Capabilities {
    pub view_topics: bool,
    pub create_topics: bool,
    pub alter_topics: bool,
    pub delete_topics: bool,
    pub view_groups: bool,
    pub view_acls: bool,
    pub alter_acls: bool,
    pub view_users: bool,
    pub alter_users: bool,
    pub view_quotas: bool,
    pub alter_quotas: bool,
    pub view_log_dirs: bool,
    pub alter_log_dirs: bool,
}

impl Capabilities {
    pub open spec fn spec_all() -> Capabilities {
        Capabilities {
            view_topics: true,
            create_topics: true,
            alter_topics: true,
            delete_topics: true,
            view_groups: true,
            view_acls: true,
            alter_acls: true,
            view_users: true,
            alter_users: true,
            view_quotas: true,
            alter_quotas: true,
            view_log_dirs: true,
            alter_log_dirs: true,
        }
    }

    pub open spec fn spec_none() -> Capabilities {
        Capabilities {
            view_topics: false,
            create_topics: false,
            alter_topics: false,
            delete_topics: false,
            view_groups: false,
            view_acls: false,
            alter_acls: false,
            view_users: false,
            alter_users: false,
            view_quotas: false,
            alter_quotas: false,
            view_log_dirs: false,
            alter_log_dirs: false,
        }
    }

    /// Every page and every mutation.
    pub fn all() -> (c: Capabilities)
        ensures
            c == Capabilities::spec_all(),
    {
        Capabilities {
            view_topics: true,
            create_topics: true,
            alter_topics: true,
            delete_topics: true,
            view_groups: true,
            view_acls: true,
            alter_acls: true,
            view_users: true,
            alter_users: true,
            view_quotas: true,
            alter_quotas: true,
            view_log_dirs: true,
            alter_log_dirs: true,
        }
    }

    /// No page behind the broker and no mutation.
    pub fn none() -> (c: Capabilities)
        ensures
            c == Capabilities::spec_none(),
    {
        Capabilities {
            view_topics: false,
            create_topics: false,
            alter_topics: false,
            delete_topics: false,
            view_groups: false,
            view_acls: false,
            alter_acls: false,
            view_users: false,
            alter_users: false,
            view_quotas: false,
            alter_quotas: false,
            view_log_dirs: false,
            alter_log_dirs: false,
        }
    }

    pub fn can_view_topics(&self) -> (b: bool)
        ensures
            b == self.view_topics,
    {
        self.view_topics
    }

    pub fn can_create_topics(&self) -> (b: bool)
        ensures
            b == self.create_topics,
    {
        self.create_topics
    }

    pub fn can_alter_topics(&self) -> (b: bool)
        ensures
            b == self.alter_topics,
    {
        self.alter_topics
    }

    pub fn can_delete_topics(&self) -> (b: bool)
        ensures
            b == self.delete_topics,
    {
        self.delete_topics
    }

    pub fn can_view_groups(&self) -> (b: bool)
        ensures
            b == self.view_groups,
    {
        self.view_groups
    }

    pub fn can_view_acls(&self) -> (b: bool)
        ensures
            b == self.view_acls,
    {
        self.view_acls
    }

    pub fn can_alter_acls(&self) -> (b: bool)
        ensures
            b == self.alter_acls,
    {
        self.alter_acls
    }

    pub fn can_view_users(&self) -> (b: bool)
        ensures
            b == self.view_users,
    {
        self.view_users
    }

    pub fn can_alter_users(&self) -> (b: bool)
        ensures
            b == self.alter_users,
    {
        self.alter_users
    }

    pub fn can_view_quotas(&self) -> (b: bool)
        ensures
            b == self.view_quotas,
    {
        self.view_quotas
    }

    pub fn can_alter_quotas(&self) -> (b: bool)
        ensures
            b == self.alter_quotas,
    {
        self.alter_quotas
    }

    pub fn can_view_log_dirs(&self) -> (b: bool)
        ensures
            b == self.view_log_dirs,
    {
        self.view_log_dirs
    }

    pub fn can_alter_log_dirs(&self) -> (b: bool)
        ensures
            b == self.alter_log_dirs,
    {
        self.alter_log_dirs
    }
}

} // verus!
