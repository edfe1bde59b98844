use vstd::prelude::*;

verus! {

/// An input of the caller, known by the key under which the runner hands it over.
#[derive(Clone, Copy, Debug, PartialEq, Eq, Structural)]
pub enum Input {
    Repository,
    AppId,
    AppKey,
    Permissions,
    Duration,
}

impl Input {
    /// The key of the input.
    pub open spec fn key(self) -> Seq<char> {
        match self {
            Input::Repository => "github-repository"@,
            Input::AppId => "app-id"@,
            Input::AppKey => "app-pk"@,
            Input::Permissions => "permissions"@,
            Input::Duration => "duration"@,
        }
    }

    pub fn name(&self) -> (key: &'static str)
        ensures
            key@ == self.key(),
    {
        match self {
            Input::Repository => "github-repository",
            Input::AppId => "app-id",
            Input::AppKey => "app-pk",
            Input::Permissions => "permissions",
            Input::Duration => "duration",
        }
    }
}

/// Why an input was not taken.
#[derive(Debug, PartialEq, Eq)]
pub enum Reason {
    /// The text is not of the format that the input is written in.
    Unreadable,
    /// The text was read, and what it holds has not the shape that is asked for.
    Malformed,
    /// A scope outside the closed set.
    UnknownScope(String),
    /// A privilege other than read, write and admin.
    UnknownPrivilege(String),
}

/// What a `Reason` stands for.
pub enum ReasonModel {
    Unreadable,
    Malformed,
    UnknownScope(Seq<char>),
    UnknownPrivilege(Seq<char>),
}

impl View for Reason {
    type V = ReasonModel;

    open spec fn view(&self) -> ReasonModel {
        match self {
            Reason::Unreadable => ReasonModel::Unreadable,
            Reason::Malformed => ReasonModel::Malformed,
            Reason::UnknownScope(token) => ReasonModel::UnknownScope(token@),
            Reason::UnknownPrivilege(token) => ReasonModel::UnknownPrivilege(token@),
        }
    }
}

/// One of the two calls that are made upstream.
#[derive(Clone, Copy, Debug, PartialEq, Eq, Structural)]
pub enum Stage {
    /// Looking up the installation of the target.
    Resolve,
    /// Exchanging the app's assertion for an installation token.
    Exchange,
}

/// Every way in which asking for a token ends without one.
#[derive(Debug, PartialEq, Eq)]
pub enum TokenError {
    MissingInput(Input),
    InvalidInput(Input, Reason),
    InvalidKey,
    SignFailure,
    TransportFailure(Stage),
    /// Status and body of the answer to the installation lookup.
    ResolverHttpFailure(u16, String),
    /// Status and body of the answer to the token request.
    ExchangeHttpFailure(u16, String),
    DecodeFailure(Stage),
}

/// What a `TokenError` stands for.
pub enum TokenErrorModel {
    MissingInput(Input),
    InvalidInput(Input, ReasonModel),
    InvalidKey,
    SignFailure,
    TransportFailure(Stage),
    ResolverHttpFailure(u16, Seq<char>),
    ExchangeHttpFailure(u16, Seq<char>),
    DecodeFailure(Stage),
}

impl View for TokenError {
    type V = TokenErrorModel;

    open spec fn view(&self) -> TokenErrorModel {
        match self {
            TokenError::MissingInput(input) => TokenErrorModel::MissingInput(*input),
            TokenError::InvalidInput(input, reason) => TokenErrorModel::InvalidInput(
                *input,
                reason@,
            ),
            TokenError::InvalidKey => TokenErrorModel::InvalidKey,
            TokenError::SignFailure => TokenErrorModel::SignFailure,
            TokenError::TransportFailure(stage) => TokenErrorModel::TransportFailure(*stage),
            TokenError::ResolverHttpFailure(status, body) => TokenErrorModel::ResolverHttpFailure(
                *status,
                body@,
            ),
            TokenError::ExchangeHttpFailure(status, body) => TokenErrorModel::ExchangeHttpFailure(
                *status,
                body@,
            ),
            TokenError::DecodeFailure(stage) => TokenErrorModel::DecodeFailure(*stage),
        }
    }
}

impl TokenErrorModel {
    /// The one-word category of the error.
    pub open spec fn category(self) -> Seq<char> {
        match self {
            TokenErrorModel::MissingInput(_) => "MissingInput"@,
            TokenErrorModel::InvalidInput(_, _) => "InvalidInput"@,
            TokenErrorModel::InvalidKey => "InvalidKey"@,
            TokenErrorModel::SignFailure => "SignFailure"@,
            TokenErrorModel::TransportFailure(_) => "TransportFailure"@,
            TokenErrorModel::ResolverHttpFailure(_, _) => "ResolverHttpFailure"@,
            TokenErrorModel::ExchangeHttpFailure(_, _) => "ExchangeHttpFailure"@,
            TokenErrorModel::DecodeFailure(_) => "DecodeFailure"@,
        }
    }
}

impl TokenError {
    /// The one-word category of the error, fit for a line of diagnostics: it holds
    /// nothing of what the caller or the server sent.
    pub fn category(&self) -> (word: &'static str)
        ensures
            word@ == self@.category(),
    {
        match self {
            TokenError::MissingInput(_) => "MissingInput",
            TokenError::InvalidInput(_, _) => "InvalidInput",
            TokenError::InvalidKey => "InvalidKey",
            TokenError::SignFailure => "SignFailure",
            TokenError::TransportFailure(_) => "TransportFailure",
            TokenError::ResolverHttpFailure(_, _) => "ResolverHttpFailure",
            TokenError::ExchangeHttpFailure(_, _) => "ExchangeHttpFailure",
            TokenError::DecodeFailure(_) => "DecodeFailure",
        }
    }
}

} // verus!
