use vstd::prelude::*;
use crate::text::text_eq;

verus! {

/// Level of access granted on a scope.
#[derive(Clone, Copy, Debug, Hash, PartialEq, Eq, Structural)]
pub enum Privileges {
    Read,
    Write,
    Admin,
}

impl Privileges {
    /// The lowercase token that stands for this privilege on the wire.
    pub open spec fn token(self) -> Seq<char> {
        match self {
            Privileges::Read => "read"@,
            Privileges::Write => "write"@,
            Privileges::Admin => "admin"@,
        }
    }

    /// The privilege that a token names, if it names one.
    pub open spec fn of_token(text: Seq<char>) -> Option<Privileges> {
        if text == "read"@ {
            Some(Privileges::Read)
        } else if text == "write"@ {
            Some(Privileges::Write)
        } else if text == "admin"@ {
            Some(Privileges::Admin)
        } else {
            None
        }
    }

    pub fn as_str(&self) -> (text: &'static str)
        ensures
            text@ == self.token(),
    {
        match self {
            Privileges::Read => "read",
            Privileges::Write => "write",
            Privileges::Admin => "admin",
        }
    }

    pub fn from_token(text: &str) -> (found: Option<Privileges>)
        ensures
            found == Privileges::of_token(text@),
    {
        if text_eq(text, "read") {
            Some(Privileges::Read)
        } else if text_eq(text, "write") {
            Some(Privileges::Write)
        } else if text_eq(text, "admin") {
            Some(Privileges::Admin)
        } else {
            None
        }
    }

    /// Every privilege is found again from its own token.
    pub proof fn lemma_token_round_trip(self)
        ensures
            Privileges::of_token(self.token()) == Some(self),
    {
        reveal_strlit("read");
        reveal_strlit("write");
        reveal_strlit("admin");
        assert("write"@[0] == 'w');
        assert("admin"@[0] == 'a');
    }

    /// A token names at most the privilege whose token it is.
    pub proof fn lemma_of_token_exact(text: Seq<char>, privilege: Privileges)
        ensures
            Privileges::of_token(text) == Some(privilege) <==> text == privilege.token(),
    {
        privilege.lemma_token_round_trip();
    }
}

/// A permission domain of the closed set that an installation token can be narrowed to.
///
/// The variants are declared in the order in which scopes are written out.
#[derive(Clone, Copy, Debug, Hash, PartialEq, Eq, PartialOrd, Ord, Structural)]
pub enum Scope {
    Actions,
    Administration,
    Checks,
    Contents,
    Deployments,
    Environments,
    Issues,
    Metadata,
    Packages,
    Pages,
    PullRequests,
    RepositoryHooks,
    RepositoryProjects,
    SecretScanningAlerts,
    Secrets,
    SecurityEvents,
    SingleFile,
    Statuses,
    VulnerabilityAlerts,
    Workflows,
    Members,
    OrganizationAdministration,
    OrganizationCustomRoles,
    OrganizationAnnouncementBanners,
    OrganizationHooks,
    OrganizationPersonalAccessTokens,
    OrganizationPersonalAccessTokenRequests,
    OrganizationPlan,
    OrganizationProjects,
    OrganizationPackages,
    OrganizationSecrets,
    OrganizationSelfHostedRunners,
    OrganizationUserBlocking,
    TeamDiscussions,
}

/// Number of scopes in the closed set.
pub const SCOPE_COUNT: u8 = 34;

impl Scope {
    /// Position of the scope in declaration order, starting at zero.
    pub open spec fn rank(self) -> nat {
        match self {
            Scope::Actions => 0,
            Scope::Administration => 1,
            Scope::Checks => 2,
            Scope::Contents => 3,
            Scope::Deployments => 4,
            Scope::Environments => 5,
            Scope::Issues => 6,
            Scope::Metadata => 7,
            Scope::Packages => 8,
            Scope::Pages => 9,
            Scope::PullRequests => 10,
            Scope::RepositoryHooks => 11,
            Scope::RepositoryProjects => 12,
            Scope::SecretScanningAlerts => 13,
            Scope::Secrets => 14,
            Scope::SecurityEvents => 15,
            Scope::SingleFile => 16,
            Scope::Statuses => 17,
            Scope::VulnerabilityAlerts => 18,
            Scope::Workflows => 19,
            Scope::Members => 20,
            Scope::OrganizationAdministration => 21,
            Scope::OrganizationCustomRoles => 22,
            Scope::OrganizationAnnouncementBanners => 23,
            Scope::OrganizationHooks => 24,
            Scope::OrganizationPersonalAccessTokens => 25,
            Scope::OrganizationPersonalAccessTokenRequests => 26,
            Scope::OrganizationPlan => 27,
            Scope::OrganizationProjects => 28,
            Scope::OrganizationPackages => 29,
            Scope::OrganizationSecrets => 30,
            Scope::OrganizationSelfHostedRunners => 31,
            Scope::OrganizationUserBlocking => 32,
            Scope::TeamDiscussions => 33,
        }
    }

    /// The kebab-case token that stands for this scope on the wire.
    pub open spec fn token(self) -> Seq<char> {
        match self {
            Scope::Actions => "actions"@,
            Scope::Administration => "administration"@,
            Scope::Checks => "checks"@,
            Scope::Contents => "contents"@,
            Scope::Deployments => "deployments"@,
            Scope::Environments => "environments"@,
            Scope::Issues => "issues"@,
            Scope::Metadata => "metadata"@,
            Scope::Packages => "packages"@,
            Scope::Pages => "pages"@,
            Scope::PullRequests => "pull-requests"@,
            Scope::RepositoryHooks => "repository-hooks"@,
            Scope::RepositoryProjects => "repository-projects"@,
            Scope::SecretScanningAlerts => "secret-scanning-alerts"@,
            Scope::Secrets => "secrets"@,
            Scope::SecurityEvents => "security-events"@,
            Scope::SingleFile => "single-file"@,
            Scope::Statuses => "statuses"@,
            Scope::VulnerabilityAlerts => "vulnerability-alerts"@,
            Scope::Workflows => "workflows"@,
            Scope::Members => "members"@,
            Scope::OrganizationAdministration => "organization-administration"@,
            Scope::OrganizationCustomRoles => "organization-custom-roles"@,
            Scope::OrganizationAnnouncementBanners => "organization-announcement-banners"@,
            Scope::OrganizationHooks => "organization-hooks"@,
            Scope::OrganizationPersonalAccessTokens => "organization-personal-access-tokens"@,
            Scope::OrganizationPersonalAccessTokenRequests => "organization-personal-access-token-requests"@,
            Scope::OrganizationPlan => "organization-plan"@,
            Scope::OrganizationProjects => "organization-projects"@,
            Scope::OrganizationPackages => "organization-packages"@,
            Scope::OrganizationSecrets => "organization-secrets"@,
            Scope::OrganizationSelfHostedRunners => "organization-self-hosted-runners"@,
            Scope::OrganizationUserBlocking => "organization-user-blocking"@,
            Scope::TeamDiscussions => "team-discussions"@,
        }
    }

    /// The scope that a token names, if it names one.
    pub open spec fn of_token(text: Seq<char>) -> Option<Scope> {
        if text == "actions"@ {
            Some(Scope::Actions)
        } else if text == "administration"@ {
            Some(Scope::Administration)
        } else if text == "checks"@ {
            Some(Scope::Checks)
        } else if text == "contents"@ {
            Some(Scope::Contents)
        } else if text == "deployments"@ {
            Some(Scope::Deployments)
        } else if text == "environments"@ {
            Some(Scope::Environments)
        } else if text == "issues"@ {
            Some(Scope::Issues)
        } else if text == "metadata"@ {
            Some(Scope::Metadata)
        } else if text == "packages"@ {
            Some(Scope::Packages)
        } else if text == "pages"@ {
            Some(Scope::Pages)
        } else if text == "pull-requests"@ {
            Some(Scope::PullRequests)
        } else if text == "repository-hooks"@ {
            Some(Scope::RepositoryHooks)
        } else if text == "repository-projects"@ {
            Some(Scope::RepositoryProjects)
        } else if text == "secret-scanning-alerts"@ {
            Some(Scope::SecretScanningAlerts)
        } else if text == "secrets"@ {
            Some(Scope::Secrets)
        } else if text == "security-events"@ {
            Some(Scope::SecurityEvents)
        } else if text == "single-file"@ {
            Some(Scope::SingleFile)
        } else if text == "statuses"@ {
            Some(Scope::Statuses)
        } else if text == "vulnerability-alerts"@ {
            Some(Scope::VulnerabilityAlerts)
        } else if text == "workflows"@ {
            Some(Scope::Workflows)
        } else if text == "members"@ {
            Some(Scope::Members)
        } else if text == "organization-administration"@ {
            Some(Scope::OrganizationAdministration)
        } else if text == "organization-custom-roles"@ {
            Some(Scope::OrganizationCustomRoles)
        } else if text == "organization-announcement-banners"@ {
            Some(Scope::OrganizationAnnouncementBanners)
        } else if text == "organization-hooks"@ {
            Some(Scope::OrganizationHooks)
        } else if text == "organization-personal-access-tokens"@ {
            Some(Scope::OrganizationPersonalAccessTokens)
        } else if text == "organization-personal-access-token-requests"@ {
            Some(Scope::OrganizationPersonalAccessTokenRequests)
        } else if text == "organization-plan"@ {
            Some(Scope::OrganizationPlan)
        } else if text == "organization-projects"@ {
            Some(Scope::OrganizationProjects)
        } else if text == "organization-packages"@ {
            Some(Scope::OrganizationPackages)
        } else if text == "organization-secrets"@ {
            Some(Scope::OrganizationSecrets)
        } else if text == "organization-self-hosted-runners"@ {
            Some(Scope::OrganizationSelfHostedRunners)
        } else if text == "organization-user-blocking"@ {
            Some(Scope::OrganizationUserBlocking)
        } else if text == "team-discussions"@ {
            Some(Scope::TeamDiscussions)
        } else {
            None
        }
    }

    pub fn ordinal(&self) -> (rank: u8)
        ensures
            rank == self.rank(),
            rank < SCOPE_COUNT,
    {
        match self {
            Scope::Actions => 0,
            Scope::Administration => 1,
            Scope::Checks => 2,
            Scope::Contents => 3,
            Scope::Deployments => 4,
            Scope::Environments => 5,
            Scope::Issues => 6,
            Scope::Metadata => 7,
            Scope::Packages => 8,
            Scope::Pages => 9,
            Scope::PullRequests => 10,
            Scope::RepositoryHooks => 11,
            Scope::RepositoryProjects => 12,
            Scope::SecretScanningAlerts => 13,
            Scope::Secrets => 14,
            Scope::SecurityEvents => 15,
            Scope::SingleFile => 16,
            Scope::Statuses => 17,
            Scope::VulnerabilityAlerts => 18,
            Scope::Workflows => 19,
            Scope::Members => 20,
            Scope::OrganizationAdministration => 21,
            Scope::OrganizationCustomRoles => 22,
            Scope::OrganizationAnnouncementBanners => 23,
            Scope::OrganizationHooks => 24,
            Scope::OrganizationPersonalAccessTokens => 25,
            Scope::OrganizationPersonalAccessTokenRequests => 26,
            Scope::OrganizationPlan => 27,
            Scope::OrganizationProjects => 28,
            Scope::OrganizationPackages => 29,
            Scope::OrganizationSecrets => 30,
            Scope::OrganizationSelfHostedRunners => 31,
            Scope::OrganizationUserBlocking => 32,
            Scope::TeamDiscussions => 33,
        }
    }

    pub fn as_str(&self) -> (text: &'static str)
        ensures
            text@ == self.token(),
    {
        match self {
            Scope::Actions => "actions",
            Scope::Administration => "administration",
            Scope::Checks => "checks",
            Scope::Contents => "contents",
            Scope::Deployments => "deployments",
            Scope::Environments => "environments",
            Scope::Issues => "issues",
            Scope::Metadata => "metadata",
            Scope::Packages => "packages",
            Scope::Pages => "pages",
            Scope::PullRequests => "pull-requests",
            Scope::RepositoryHooks => "repository-hooks",
            Scope::RepositoryProjects => "repository-projects",
            Scope::SecretScanningAlerts => "secret-scanning-alerts",
            Scope::Secrets => "secrets",
            Scope::SecurityEvents => "security-events",
            Scope::SingleFile => "single-file",
            Scope::Statuses => "statuses",
            Scope::VulnerabilityAlerts => "vulnerability-alerts",
            Scope::Workflows => "workflows",
            Scope::Members => "members",
            Scope::OrganizationAdministration => "organization-administration",
            Scope::OrganizationCustomRoles => "organization-custom-roles",
            Scope::OrganizationAnnouncementBanners => "organization-announcement-banners",
            Scope::OrganizationHooks => "organization-hooks",
            Scope::OrganizationPersonalAccessTokens => "organization-personal-access-tokens",
            Scope::OrganizationPersonalAccessTokenRequests => "organization-personal-access-token-requests",
            Scope::OrganizationPlan => "organization-plan",
            Scope::OrganizationProjects => "organization-projects",
            Scope::OrganizationPackages => "organization-packages",
            Scope::OrganizationSecrets => "organization-secrets",
            Scope::OrganizationSelfHostedRunners => "organization-self-hosted-runners",
            Scope::OrganizationUserBlocking => "organization-user-blocking",
            Scope::TeamDiscussions => "team-discussions",
        }
    }

    pub fn from_token(text: &str) -> (found: Option<Scope>)
        ensures
            found == Scope::of_token(text@),
    {
        if text_eq(text, "actions") {
            Some(Scope::Actions)
        } else if text_eq(text, "administration") {
            Some(Scope::Administration)
        } else if text_eq(text, "checks") {
            Some(Scope::Checks)
        } else if text_eq(text, "contents") {
            Some(Scope::Contents)
        } else if text_eq(text, "deployments") {
            Some(Scope::Deployments)
        } else if text_eq(text, "environments") {
            Some(Scope::Environments)
        } else if text_eq(text, "issues") {
            Some(Scope::Issues)
        } else if text_eq(text, "metadata") {
            Some(Scope::Metadata)
        } else if text_eq(text, "packages") {
            Some(Scope::Packages)
        } else if text_eq(text, "pages") {
            Some(Scope::Pages)
        } else if text_eq(text, "pull-requests") {
            Some(Scope::PullRequests)
        } else if text_eq(text, "repository-hooks") {
            Some(Scope::RepositoryHooks)
        } else if text_eq(text, "repository-projects") {
            Some(Scope::RepositoryProjects)
        } else if text_eq(text, "secret-scanning-alerts") {
            Some(Scope::SecretScanningAlerts)
        } else if text_eq(text, "secrets") {
            Some(Scope::Secrets)
        } else if text_eq(text, "security-events") {
            Some(Scope::SecurityEvents)
        } else if text_eq(text, "single-file") {
            Some(Scope::SingleFile)
        } else if text_eq(text, "statuses") {
            Some(Scope::Statuses)
        } else if text_eq(text, "vulnerability-alerts") {
            Some(Scope::VulnerabilityAlerts)
        } else if text_eq(text, "workflows") {
            Some(Scope::Workflows)
        } else if text_eq(text, "members") {
            Some(Scope::Members)
        } else if text_eq(text, "organization-administration") {
            Some(Scope::OrganizationAdministration)
        } else if text_eq(text, "organization-custom-roles") {
            Some(Scope::OrganizationCustomRoles)
        } else if text_eq(text, "organization-announcement-banners") {
            Some(Scope::OrganizationAnnouncementBanners)
        } else if text_eq(text, "organization-hooks") {
            Some(Scope::OrganizationHooks)
        } else if text_eq(text, "organization-personal-access-tokens") {
            Some(Scope::OrganizationPersonalAccessTokens)
        } else if text_eq(text, "organization-personal-access-token-requests") {
            Some(Scope::OrganizationPersonalAccessTokenRequests)
        } else if text_eq(text, "organization-plan") {
            Some(Scope::OrganizationPlan)
        } else if text_eq(text, "organization-projects") {
            Some(Scope::OrganizationProjects)
        } else if text_eq(text, "organization-packages") {
            Some(Scope::OrganizationPackages)
        } else if text_eq(text, "organization-secrets") {
            Some(Scope::OrganizationSecrets)
        } else if text_eq(text, "organization-self-hosted-runners") {
            Some(Scope::OrganizationSelfHostedRunners)
        } else if text_eq(text, "organization-user-blocking") {
            Some(Scope::OrganizationUserBlocking)
        } else if text_eq(text, "team-discussions") {
            Some(Scope::TeamDiscussions)
        } else {
            None
        }
    }

    /// The scope of a rank, if the rank is one.
    pub open spec fn of_rank(rank: nat) -> Option<Scope> {
        if rank == 0 {
            Some(Scope::Actions)
        } else if rank == 1 {
            Some(Scope::Administration)
        } else if rank == 2 {
            Some(Scope::Checks)
        } else if rank == 3 {
            Some(Scope::Contents)
        } else if rank == 4 {
            Some(Scope::Deployments)
        } else if rank == 5 {
            Some(Scope::Environments)
        } else if rank == 6 {
            Some(Scope::Issues)
        } else if rank == 7 {
            Some(Scope::Metadata)
        } else if rank == 8 {
            Some(Scope::Packages)
        } else if rank == 9 {
            Some(Scope::Pages)
        } else if rank == 10 {
            Some(Scope::PullRequests)
        } else if rank == 11 {
            Some(Scope::RepositoryHooks)
        } else if rank == 12 {
            Some(Scope::RepositoryProjects)
        } else if rank == 13 {
            Some(Scope::SecretScanningAlerts)
        } else if rank == 14 {
            Some(Scope::Secrets)
        } else if rank == 15 {
            Some(Scope::SecurityEvents)
        } else if rank == 16 {
            Some(Scope::SingleFile)
        } else if rank == 17 {
            Some(Scope::Statuses)
        } else if rank == 18 {
            Some(Scope::VulnerabilityAlerts)
        } else if rank == 19 {
            Some(Scope::Workflows)
        } else if rank == 20 {
            Some(Scope::Members)
        } else if rank == 21 {
            Some(Scope::OrganizationAdministration)
        } else if rank == 22 {
            Some(Scope::OrganizationCustomRoles)
        } else if rank == 23 {
            Some(Scope::OrganizationAnnouncementBanners)
        } else if rank == 24 {
            Some(Scope::OrganizationHooks)
        } else if rank == 25 {
            Some(Scope::OrganizationPersonalAccessTokens)
        } else if rank == 26 {
            Some(Scope::OrganizationPersonalAccessTokenRequests)
        } else if rank == 27 {
            Some(Scope::OrganizationPlan)
        } else if rank == 28 {
            Some(Scope::OrganizationProjects)
        } else if rank == 29 {
            Some(Scope::OrganizationPackages)
        } else if rank == 30 {
            Some(Scope::OrganizationSecrets)
        } else if rank == 31 {
            Some(Scope::OrganizationSelfHostedRunners)
        } else if rank == 32 {
            Some(Scope::OrganizationUserBlocking)
        } else if rank == 33 {
            Some(Scope::TeamDiscussions)
        } else {
            None
        }
    }

    pub fn from_ordinal(rank: u8) -> (found: Option<Scope>)
        ensures
            found == Scope::of_rank(rank as nat),
    {
        match rank {
            0 => Some(Scope::Actions),
            1 => Some(Scope::Administration),
            2 => Some(Scope::Checks),
            3 => Some(Scope::Contents),
            4 => Some(Scope::Deployments),
            5 => Some(Scope::Environments),
            6 => Some(Scope::Issues),
            7 => Some(Scope::Metadata),
            8 => Some(Scope::Packages),
            9 => Some(Scope::Pages),
            10 => Some(Scope::PullRequests),
            11 => Some(Scope::RepositoryHooks),
            12 => Some(Scope::RepositoryProjects),
            13 => Some(Scope::SecretScanningAlerts),
            14 => Some(Scope::Secrets),
            15 => Some(Scope::SecurityEvents),
            16 => Some(Scope::SingleFile),
            17 => Some(Scope::Statuses),
            18 => Some(Scope::VulnerabilityAlerts),
            19 => Some(Scope::Workflows),
            20 => Some(Scope::Members),
            21 => Some(Scope::OrganizationAdministration),
            22 => Some(Scope::OrganizationCustomRoles),
            23 => Some(Scope::OrganizationAnnouncementBanners),
            24 => Some(Scope::OrganizationHooks),
            25 => Some(Scope::OrganizationPersonalAccessTokens),
            26 => Some(Scope::OrganizationPersonalAccessTokenRequests),
            27 => Some(Scope::OrganizationPlan),
            28 => Some(Scope::OrganizationProjects),
            29 => Some(Scope::OrganizationPackages),
            30 => Some(Scope::OrganizationSecrets),
            31 => Some(Scope::OrganizationSelfHostedRunners),
            32 => Some(Scope::OrganizationUserBlocking),
            33 => Some(Scope::TeamDiscussions),
            _ => None,
        }
    }

    /// A rank below the number of scopes is the rank of exactly one scope.
    pub proof fn lemma_of_rank_exact(rank: nat, scope: Scope)
        ensures
            Scope::of_rank(rank) == Some(scope) <==> scope.rank() == rank,
            Scope::of_rank(rank) is Some <==> rank < SCOPE_COUNT,
    {
    }

    /// Two scopes of the same rank are the same scope.
    pub proof fn lemma_rank_injective(a: Scope, b: Scope)
        ensures
            a.rank() == b.rank() <==> a == b,
            a.rank() < SCOPE_COUNT,
    {
    }

    /// Every scope is found again from its own token.
    pub proof fn lemma_token_round_trip(self)
        ensures
            Scope::of_token(self.token()) == Some(self),
    {
        Self::reveal_tokens();
    }

    /// A token names at most the scope whose token it is.
    pub proof fn lemma_of_token_exact(text: Seq<char>, scope: Scope)
        ensures
            Scope::of_token(text) == Some(scope) <==> text == scope.token(),
    {
        scope.lemma_token_round_trip();
    }

    proof fn reveal_tokens()
        ensures
            "actions"@.len() == 7,
            "administration"@.len() == 14,
            "checks"@.len() == 6,
            "contents"@.len() == 8,
            "deployments"@.len() == 11,
            "environments"@.len() == 12,
            "issues"@.len() == 6,
            "metadata"@.len() == 8,
            "packages"@.len() == 8,
            "pages"@.len() == 5,
            "pull-requests"@.len() == 13,
            "repository-hooks"@.len() == 16,
            "repository-projects"@.len() == 19,
            "secret-scanning-alerts"@.len() == 22,
            "secrets"@.len() == 7,
            "security-events"@.len() == 15,
            "single-file"@.len() == 11,
            "statuses"@.len() == 8,
            "vulnerability-alerts"@.len() == 20,
            "workflows"@.len() == 9,
            "members"@.len() == 7,
            "organization-administration"@.len() == 27,
            "organization-custom-roles"@.len() == 25,
            "organization-announcement-banners"@.len() == 33,
            "organization-hooks"@.len() == 18,
            "organization-personal-access-tokens"@.len() == 35,
            "organization-personal-access-token-requests"@.len() == 43,
            "organization-plan"@.len() == 17,
            "organization-projects"@.len() == 21,
            "organization-packages"@.len() == 21,
            "organization-secrets"@.len() == 20,
            "organization-self-hosted-runners"@.len() == 32,
            "organization-user-blocking"@.len() == 26,
            "team-discussions"@.len() == 16,
            "actions"@[0] == 'a',
            "checks"@[0] == 'c',
            "contents"@[0] == 'c',
            "deployments"@[0] == 'd',
            "issues"@[0] == 'i',
            "metadata"@[0] == 'm',
            "packages"@[0] == 'p',
            "repository-hooks"@[0] == 'r',
            "secrets"@[0] == 's',
            "single-file"@[0] == 's',
            "statuses"@[0] == 's',
            "vulnerability-alerts"@[0] == 'v',
            "members"@[0] == 'm',
            "organization-projects"@[14] == 'r',
            "organization-packages"@[14] == 'a',
            "organization-secrets"@[0] == 'o',
            "team-discussions"@[0] == 't',
    {
        reveal_strlit("actions");
        reveal_strlit("administration");
        reveal_strlit("checks");
        reveal_strlit("contents");
        reveal_strlit("deployments");
        reveal_strlit("environments");
        reveal_strlit("issues");
        reveal_strlit("metadata");
        reveal_strlit("packages");
        reveal_strlit("pages");
        reveal_strlit("pull-requests");
        reveal_strlit("repository-hooks");
        reveal_strlit("repository-projects");
        reveal_strlit("secret-scanning-alerts");
        reveal_strlit("secrets");
        reveal_strlit("security-events");
        reveal_strlit("single-file");
        reveal_strlit("statuses");
        reveal_strlit("vulnerability-alerts");
        reveal_strlit("workflows");
        reveal_strlit("members");
        reveal_strlit("organization-administration");
        reveal_strlit("organization-custom-roles");
        reveal_strlit("organization-announcement-banners");
        reveal_strlit("organization-hooks");
        reveal_strlit("organization-personal-access-tokens");
        reveal_strlit("organization-personal-access-token-requests");
        reveal_strlit("organization-plan");
        reveal_strlit("organization-projects");
        reveal_strlit("organization-packages");
        reveal_strlit("organization-secrets");
        reveal_strlit("organization-self-hosted-runners");
        reveal_strlit("organization-user-blocking");
        reveal_strlit("team-discussions");
    }
}

} // verus!
