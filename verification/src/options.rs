use vstd::prelude::*;
use crate::permissions::{Permissions, PermissionsModel};

verus! {

/// Minutes for which a token is asked when the caller names no duration.
pub const DEFAULT_DURATION: u64 = 10;

/// The account whose installation a token is asked for.
#[derive(Debug, PartialEq, Eq)]
pub enum Target {
    Organization(String),
    Repository(String),
    User(String),
}

/// What a `Target` stands for.
pub enum TargetModel {
    Organization(Seq<char>),
    Repository(Seq<char>),
    User(Seq<char>),
}

impl View for Target {
    type V = TargetModel;

    open spec fn view(&self) -> TargetModel {
        match self {
            Target::Organization(slug) => TargetModel::Organization(slug@),
            Target::Repository(name) => TargetModel::Repository(name@),
            Target::User(login) => TargetModel::User(login@),
        }
    }
}

impl Clone for Target {
    fn clone(&self) -> (copy: Target)
        ensures
            copy == *self,
    {
        match self {
            Target::Organization(slug) => Target::Organization(slug.clone()),
            Target::Repository(name) => Target::Repository(name.clone()),
            Target::User(login) => Target::User(login.clone()),
        }
    }
}

/// What a `TokenOptions` value stands for.
pub struct OptionsModel {
    pub target: TargetModel,
    pub duration: nat,
    pub permissions: Option<PermissionsModel>,
}

impl OptionsModel {
    /// The options for a target, before anything else was chosen.
    pub open spec fn initial(target: TargetModel) -> OptionsModel {
        OptionsModel { target, duration: DEFAULT_DURATION as nat, permissions: None }
    }

    /// The same options with another duration.
    pub open spec fn set_duration(self, minutes: nat) -> OptionsModel {
        OptionsModel { duration: minutes, ..self }
    }

    /// The same options with the permissions replaced.
    pub open spec fn set_permissions(self, permissions: PermissionsModel) -> OptionsModel {
        OptionsModel { permissions: Some(permissions), ..self }
    }

    /// Of several permissions set in turn, only the last one stays.
    pub proof fn lemma_last_permissions_stay(
        self,
        earlier: Seq<PermissionsModel>,
        last: PermissionsModel,
    )
        ensures
            self.set_each(earlier.push(last)) == self.set_permissions(last),
            self.set_each(earlier.push(last)).permissions == Some(last),
    {
        self.lemma_set_each_keeps_the_rest(earlier);
        assert(earlier.push(last).drop_last() =~= earlier);
    }

    /// Setting permissions, however often, changes neither the target nor the duration.
    pub proof fn lemma_set_each_keeps_the_rest(self, list: Seq<PermissionsModel>)
        ensures
            self.set_each(list).target == self.target,
            self.set_each(list).duration == self.duration,
        decreases list.len(),
    {
        if list.len() > 0 {
            self.lemma_set_each_keeps_the_rest(list.drop_last());
        }
    }

    /// The options after each permissions value of a list was set, in order.
    pub open spec fn set_each(self, list: Seq<PermissionsModel>) -> OptionsModel
        decreases list.len(),
    {
        if list.len() == 0 {
            self
        } else {
            self.set_each(list.drop_last()).set_permissions(list.last())
        }
    }
}

/// What to ask for: the target, the token's lifetime in minutes, and an optional narrowing.
#[derive(Debug, PartialEq, Eq)]
pub struct TokenOptions {
    kind: Target,
    duration: u64,
    permissions: Option<Permissions>,
}

impl View for TokenOptions {
    type V = OptionsModel;

    closed spec fn view(&self) -> OptionsModel {
        OptionsModel {
            target: self.kind@,
            duration: self.duration as nat,
            permissions: match self.permissions {
                Some(permissions) => Some(permissions@),
                None => None,
            },
        }
    }
}

impl Clone for TokenOptions {
    fn clone(&self) -> (copy: TokenOptions)
        ensures
            copy@ == self@,
    {
        TokenOptions {
            kind: self.kind.clone(),
            duration: self.duration,
            permissions: match &self.permissions {
                Some(permissions) => Some(permissions.clone()),
                None => None,
            },
        }
    }
}

impl TokenOptions {
    pub fn organization(organization: &str) -> (options: TokenOptions)
        ensures
            options@ == OptionsModel::initial(TargetModel::Organization(organization@)),
    {
        TokenOptions {
            kind: Target::Organization(organization.to_owned()),
            duration: DEFAULT_DURATION,
            permissions: None,
        }
    }

    pub fn repository(repository: &str) -> (options: TokenOptions)
        ensures
            options@ == OptionsModel::initial(TargetModel::Repository(repository@)),
    {
        TokenOptions {
            kind: Target::Repository(repository.to_owned()),
            duration: DEFAULT_DURATION,
            permissions: None,
        }
    }

    pub fn user(user: &str) -> (options: TokenOptions)
        ensures
            options@ == OptionsModel::initial(TargetModel::User(user@)),
    {
        TokenOptions {
            kind: Target::User(user.to_owned()),
            duration: DEFAULT_DURATION,
            permissions: None,
        }
    }

    /// Replaces the duration. Any number of minutes is taken, zero too.
    pub fn with_duration(self, minutes: u64) -> (options: TokenOptions)
        ensures
            options@ == self@.set_duration(minutes as nat),
    {
        TokenOptions { kind: self.kind, duration: minutes, permissions: self.permissions }
    }

    pub fn with_permissions(self, permissions: Permissions) -> (options: TokenOptions)
        ensures
            options@ == self@.set_permissions(permissions@),
    {
        TokenOptions { kind: self.kind, duration: self.duration, permissions: Some(permissions) }
    }

    pub fn target(&self) -> (target: &Target)
        ensures
            target@ == self@.target,
    {
        &self.kind
    }

    pub fn duration(&self) -> (minutes: u64)
        ensures
            minutes == self@.duration,
    {
        self.duration
    }

    pub fn permissions(&self) -> (permissions: Option<&Permissions>)
        ensures
            permissions is Some == self@.permissions is Some,
            permissions matches Some(held) ==> self@.permissions == Some(held@),
    {
        self.permissions.as_ref()
    }
}

} // verus!
