use vstd::prelude::*;
use vstd::string::StringExecFns;
use crate::document::{json_document, json_text, Node, Tree};
use crate::error::{Stage, TokenError, TokenErrorModel};
use crate::options::{OptionsModel, TokenOptions};
use crate::permissions::PermissionsModel;
use crate::secret::SecretText;
use crate::signer::{assertion_at, now, sign_assertion};
use crate::text::text_of;
use crate::wire::{
    access_tokens_path, address, bearer_header, installation_path, parse_decimal,
    path_of_access_tokens, path_of_installation, unsigned_of, API_BASE,
};

verus! {

/// The two kinds of request that are made upstream.
#[derive(Clone, Copy, Debug, PartialEq, Eq, Structural)]
pub enum Method {
    Get,
    Post,
}

/// A request for the caller to send. It is authorized by the app's assertion as bearer.
#[derive(Debug)]
pub struct Request {
    method: Method,
    path: String,
    bearer: SecretText,
    body: Option<String>,
}

/// What a `Request` stands for.
pub struct RequestModel {
    pub method: Method,
    pub path: Seq<char>,
    pub bearer: Seq<char>,
    pub body: Option<Seq<char>>,
}

impl View for Request {
    type V = RequestModel;

    closed spec fn view(&self) -> RequestModel {
        RequestModel {
            method: self.method,
            path: self.path@,
            bearer: self.bearer@,
            body: text_of(self.body),
        }
    }
}

/// What came of sending a request. It has no debug form: the body of an answer may
/// hold a token.
#[derive(PartialEq, Eq)]
pub enum Reply {
    /// The server answered, with whatever status.
    Received { status: u16, body: String },
    /// No answer came: the transport failed.
    Lost,
}

/// What a `Reply` stands for.
pub enum ReplyModel {
    Received { status: u16, body: Seq<char> },
    Lost,
}

impl View for Reply {
    type V = ReplyModel;

    open spec fn view(&self) -> ReplyModel {
        match self {
            Reply::Received { status, body } => ReplyModel::Received {
                status: *status,
                body: body@,
            },
            Reply::Lost => ReplyModel::Lost,
        }
    }
}

/// An exchange under way: the request that is to be sent now, the stage it belongs to,
/// and the body kept for the token request.
#[derive(Debug)]
pub struct Session {
    stage: Stage,
    request: Request,
    body: Option<String>,
}

/// What a `Session` stands for.
pub struct SessionModel {
    pub stage: Stage,
    pub request: RequestModel,
    pub body: Option<Seq<char>>,
}

impl View for Session {
    type V = SessionModel;

    closed spec fn view(&self) -> SessionModel {
        SessionModel { stage: self.stage, request: self.request@, body: text_of(self.body) }
    }
}

/// Where an exchange stands after a reply.
#[derive(Debug)]
pub enum Progress {
    /// Another request is to be sent.
    Pending(Session),
    /// The installation token.
    Issued(SecretText),
    Failed(TokenError),
}

/// What a `Progress` stands for.
pub enum ProgressModel {
    Pending(SessionModel),
    Issued(Seq<char>),
    Failed(TokenErrorModel),
}

impl View for Progress {
    type V = ProgressModel;

    open spec fn view(&self) -> ProgressModel {
        match self {
            Progress::Pending(session) => ProgressModel::Pending(session@),
            Progress::Issued(token) => ProgressModel::Issued(token@),
            Progress::Failed(error) => ProgressModel::Failed(error@),
        }
    }
}

/// A status of the 2xx class.
pub open spec fn is_success(status: u16) -> bool {
    200 <= status < 300
}

/// The installation that an answer names: the number under `id`, where the answer is an
/// object that holds a number there which is written in digits alone and fits.
pub open spec fn installation_of(document: Option<Tree>) -> Option<u64> {
    match document {
        Some(tree) => match tree.member("id"@) {
            Some(Tree::Number(digits)) => unsigned_of(digits),
            _ => None,
        },
        None => None,
    }
}

/// The token that an answer holds: the text under `token`, where the answer is an object
/// that holds a text there.
pub open spec fn token_of(document: Option<Tree>) -> Option<Seq<char>> {
    match document {
        Some(tree) => match tree.member("token"@) {
            Some(Tree::Text(token)) => Some(token),
            _ => None,
        },
        None => None,
    }
}

/// The body of the token request: none where no permissions were chosen, else the
/// permissions' document as JSON.
pub open spec fn request_body(permissions: Option<PermissionsModel>) -> Option<Seq<char>> {
    match permissions {
        Some(chosen) => Some(json_text(chosen.document())),
        None => None,
    }
}

/// The document that is read from a reply, if one is.
pub open spec fn document_of(reply: ReplyModel) -> Option<Tree> {
    match reply {
        ReplyModel::Received { status, body } => json_document(body),
        ReplyModel::Lost => None,
    }
}

impl SessionModel {
    /// The exchange as it begins: the installation of the target is looked up.
    pub open spec fn opening(assertion: Seq<char>, options: OptionsModel) -> SessionModel {
        SessionModel {
            stage: Stage::Resolve,
            request: RequestModel {
                method: Method::Get,
                path: installation_path(options.target),
                bearer: assertion,
                body: None,
            },
            body: request_body(options.permissions),
        }
    }

    /// The error of an answer whose status is not of the 2xx class.
    pub open spec fn refused(self, status: u16, body: Seq<char>) -> TokenErrorModel {
        match self.stage {
            Stage::Resolve => TokenErrorModel::ResolverHttpFailure(status, body),
            Stage::Exchange => TokenErrorModel::ExchangeHttpFailure(status, body),
        }
    }

    /// The exchange after the installation was found: the token is asked for, under the
    /// same bearer and with the body that was kept.
    pub open spec fn asking(self, installation: u64) -> SessionModel {
        SessionModel {
            stage: Stage::Exchange,
            request: RequestModel {
                method: Method::Post,
                path: access_tokens_path(installation as nat),
                bearer: self.request.bearer,
                body: self.body,
            },
            body: self.body,
        }
    }

    /// Where the exchange stands after a reply, given the document that was read from
    /// the reply's body.
    pub open spec fn next(self, reply: ReplyModel, document: Option<Tree>) -> ProgressModel {
        match reply {
            ReplyModel::Lost => ProgressModel::Failed(TokenErrorModel::TransportFailure(self.stage)),
            ReplyModel::Received { status, body } => if !is_success(status) {
                ProgressModel::Failed(self.refused(status, body))
            } else {
                match self.stage {
                    Stage::Resolve => match installation_of(document) {
                        Some(installation) => ProgressModel::Pending(self.asking(installation)),
                        None => ProgressModel::Failed(
                            TokenErrorModel::DecodeFailure(Stage::Resolve),
                        ),
                    },
                    Stage::Exchange => match token_of(document) {
                        Some(token) => ProgressModel::Issued(token),
                        None => ProgressModel::Failed(
                            TokenErrorModel::DecodeFailure(Stage::Exchange),
                        ),
                    },
                }
            },
        }
    }

    /// No reply ends the stage of looking up with a token, and none takes the stage of
    /// asking back to looking up: the lookup comes first, and once.
    pub proof fn lemma_stages_in_order(self, reply: ReplyModel, document: Option<Tree>)
        ensures
            self.stage == Stage::Resolve ==> !(self.next(reply, document) is Issued),
            match self.next(reply, document) {
                ProgressModel::Pending(after) => self.stage == Stage::Resolve && after.stage
                    == Stage::Exchange && after.request.bearer == self.request.bearer,
                _ => true,
            },
    {
    }

    /// An answer outside the 2xx class, and a lost reply, end the exchange with the error
    /// of the stage, whatever the body holds.
    pub proof fn lemma_refusal_is_final(self, reply: ReplyModel, document: Option<Tree>)
        ensures
            match reply {
                ReplyModel::Lost => self.next(reply, document) == ProgressModel::Failed(
                    TokenErrorModel::TransportFailure(self.stage),
                ),
                ReplyModel::Received { status, body } => !is_success(status) ==> self.next(
                    reply,
                    document,
                ) == ProgressModel::Failed(self.refused(status, body)),
            },
    {
    }
}

/// Whether a status is of the 2xx class.
pub fn status_is_success(status: u16) -> (success: bool)
    ensures
        success == is_success(status),
{
    200 <= status && status < 300
}

/// Reads the installation off the document of an answer.
pub fn read_installation(document: &Option<Node>) -> (installation: Option<u64>)
    ensures
        installation == installation_of(
            match document {
                Some(node) => Some(node@),
                None => None,
            },
        ),
{
    match document {
        Some(node) => match node.member("id") {
            Some(Node::Number(digits)) => parse_decimal(digits.as_str()),
            _ => None,
        },
        None => None,
    }
}

/// Reads the token off the document of an answer.
pub fn read_token(document: Option<Node>) -> (token: Option<SecretText>)
    ensures
        token_of(
            match document {
                Some(node) => Some(node@),
                None => None,
            },
        ) == match token {
            Some(secret) => Some(secret@),
            None => None,
        },
{
    match &document {
        Some(node) => match node.member("token") {
            Some(Node::Text(token)) => Some(SecretText::new(token.clone())),
            _ => None,
        },
        None => None,
    }
}

fn copy_of(text: &Option<String>) -> (copy: Option<String>)
    ensures
        copy == *text,
{
    match text {
        Some(held) => Some(held.clone()),
        None => None,
    }
}

impl Request {
    pub fn method(&self) -> (method: Method)
        ensures
            method == self@.method,
    {
        self.method
    }

    /// The path of the request, below the base of the interface.
    pub fn path(&self) -> (path: &str)
        ensures
            path@ == self@.path,
    {
        self.path.as_str()
    }

    /// The app's assertion, which the request carries as bearer.
    pub fn bearer(&self) -> (bearer: &SecretText)
        ensures
            bearer@ == self@.bearer,
    {
        &self.bearer
    }

    /// The address that the request goes to.
    pub fn url(&self) -> (url: String)
        ensures
            url@ == address(self@.path),
    {
        let mut url = API_BASE.to_owned();
        url.append("/");
        url.append(self.path.as_str());
        url
    }

    /// The value of the authorization header: the bearer, marked as such.
    pub fn authorization(&self) -> (header: SecretText)
        ensures
            header@ == bearer_header(self@.bearer),
    {
        let mut header = "Bearer ".to_owned();
        header.append(self.bearer.expose());
        SecretText::new(header)
    }

    /// The body of the request, where it has one.
    pub fn body(&self) -> (body: Option<&String>)
        ensures
            self@.body == match body {
                Some(text) => Some(text@),
                None => None,
            },
    {
        self.body.as_ref()
    }
}

impl Session {
    /// Begins an exchange with an assertion that was signed.
    pub fn open(assertion: SecretText, options: &TokenOptions) -> (session: Session)
        ensures
            session@ == SessionModel::opening(assertion@, options@),
    {
        let body = match options.permissions() {
            Some(permissions) => Some(permissions.to_json()),
            None => None,
        };
        Session {
            stage: Stage::Resolve,
            request: Request {
                method: Method::Get,
                path: path_of_installation(options.target()),
                bearer: assertion,
                body: None,
            },
            body,
        }
    }

    /// Signs the app's assertion at the moment `now` and begins the exchange with it.
    ///
    /// With a key that is not read this fails with `InvalidKey`, and no request is made.
    pub fn begin(app_id: &SecretText, app_pk: &SecretText, options: &TokenOptions, now: u64) -> (begun:
        Result<Session, TokenError>)
        ensures
            match begun {
                Ok(session) => assertion_at(app_id@, app_pk@, now) == Ok::<_, TokenErrorModel>(
                    session@.request.bearer,
                ) && session@ == SessionModel::opening(session@.request.bearer, options@),
                Err(error) => assertion_at(app_id@, app_pk@, now) == Err::<Seq<char>, _>(error@),
            },
    {
        match sign_assertion(app_id, app_pk, now) {
            Ok(assertion) => Ok(Session::open(assertion, options)),
            Err(error) => Err(error),
        }
    }

    /// The stage that the exchange is in.
    pub fn stage(&self) -> (stage: Stage)
        ensures
            stage == self@.stage,
    {
        self.stage
    }

    /// The request that is to be sent now.
    pub fn request(&self) -> (request: &Request)
        ensures
            request@ == self@.request,
    {
        &self.request
    }

    /// Takes the reply to the request, and the document that was read from its body, to
    /// the next request, to the token or to the error.
    pub fn settle(self, reply: Reply, document: Option<Node>) -> (progress: Progress)
        ensures
            progress@ == self@.next(
                reply@,
                match document {
                    Some(node) => Some(node@),
                    None => None,
                },
            ),
    {
        match reply {
            Reply::Lost => Progress::Failed(TokenError::TransportFailure(self.stage)),
            Reply::Received { status, body } => {
                if !status_is_success(status) {
                    Progress::Failed(
                        match self.stage {
                            Stage::Resolve => TokenError::ResolverHttpFailure(status, body),
                            Stage::Exchange => TokenError::ExchangeHttpFailure(status, body),
                        },
                    )
                } else {
                    match self.stage {
                        Stage::Resolve => match read_installation(&document) {
                            Some(installation) => {
                                let kept = copy_of(&self.body);
                                Progress::Pending(
                                    Session {
                                        stage: Stage::Exchange,
                                        request: Request {
                                            method: Method::Post,
                                            path: path_of_access_tokens(installation),
                                            bearer: self.request.bearer,
                                            body: self.body,
                                        },
                                        body: kept,
                                    },
                                )
                            },
                            None => Progress::Failed(TokenError::DecodeFailure(Stage::Resolve)),
                        },
                        Stage::Exchange => match read_token(document) {
                            Some(token) => Progress::Issued(token),
                            None => Progress::Failed(TokenError::DecodeFailure(Stage::Exchange)),
                        },
                    }
                }
            },
        }
    }

    /// Takes the reply to the request to the next request, to the token or to the error.
    /// The body of the reply is read as JSON.
    pub fn advance(self, reply: Reply) -> (progress: Progress)
        ensures
            progress@ == self@.next(reply@, document_of(reply@)),
    {
        let document = match &reply {
            Reply::Received { status, body } => Node::from_json(body.as_str()),
            Reply::Lost => None,
        };
        self.settle(reply, document)
    }
}

/// What a fetched token or error stands for.
pub open spec fn outcome(fetched: Result<SecretText, TokenError>) -> Result<
    Seq<char>,
    TokenErrorModel,
> {
    match fetched {
        Ok(token) => Ok(token@),
        Err(error) => Err(error@),
    }
}

/// The request is the one that a session asks for after a reply.
pub open spec fn follows(session: SessionModel, reply: ReplyModel, request: RequestModel) -> bool {
    match session.next(reply, document_of(reply)) {
        ProgressModel::Pending(after) => after.request == request,
        _ => false,
    }
}

/// Whether an exchange under an assertion may hand a request to `send`: the lookup of
/// the installation, and a token request only after `send` gave the lookup a reply that
/// asks for it.
pub open spec fn may_send<F: Fn(&Request) -> Reply>(
    send: F,
    assertion: Seq<char>,
    options: OptionsModel,
    request: RequestModel,
) -> bool {
    ||| request == SessionModel::opening(assertion, options).request
    ||| exists|first: Request, reply: Reply|
        first@ == SessionModel::opening(assertion, options).request && #[trigger] call_ensures(
            send,
            (&first,),
            reply,
        ) && follows(SessionModel::opening(assertion, options), reply@, request)
}

/// The token request was sent for a session, and the outcome is what the session makes
/// of the reply.
pub open spec fn asked<F: Fn(&Request) -> Reply>(
    send: F,
    session: SessionModel,
    fetched: Result<Seq<char>, TokenErrorModel>,
) -> bool {
    exists|request: Request, reply: Reply|
        request@ == session.request && #[trigger] call_ensures(send, (&request,), reply)
            && match session.next(reply@, document_of(reply@)) {
            ProgressModel::Issued(token) => fetched == Ok::<_, TokenErrorModel>(token),
            ProgressModel::Failed(error) => fetched == Err::<Seq<char>, _>(error),
            ProgressModel::Pending(_) => false,
        }
}

/// The lookup was sent under the assertion, and the outcome is the error that the
/// opening session makes of the reply, or else that of the token request which followed
/// under the same assertion.
pub open spec fn exchanged<F: Fn(&Request) -> Reply>(
    send: F,
    assertion: Seq<char>,
    options: OptionsModel,
    fetched: Result<Seq<char>, TokenErrorModel>,
) -> bool {
    exists|request: Request, reply: Reply|
        request@ == SessionModel::opening(assertion, options).request
            && #[trigger] call_ensures(send, (&request,), reply) && match SessionModel::opening(
            assertion,
            options,
        ).next(reply@, document_of(reply@)) {
            ProgressModel::Pending(session) => asked(send, session, fetched),
            ProgressModel::Failed(error) => fetched == Err::<Seq<char>, _>(error),
            ProgressModel::Issued(_) => false,
        }
}

/// What fetching at the moment `now` comes to: the error of the signing, or else what
/// the exchange under the signed assertion comes to.
pub open spec fn fetched_at<F: Fn(&Request) -> Reply>(
    send: F,
    app_id: Seq<char>,
    app_pk: Seq<char>,
    options: OptionsModel,
    now: u64,
    fetched: Result<Seq<char>, TokenErrorModel>,
) -> bool {
    match assertion_at(app_id, app_pk, now) {
        Ok(assertion) => exchanged(send, assertion, options, fetched),
        Err(error) => fetched == Err::<Seq<char>, _>(error),
    }
}

/// Whether fetching at the moment `now` may hand a request to `send`: never where no
/// assertion is signed, else as the exchange under the signed assertion may.
pub open spec fn may_fetch<F: Fn(&Request) -> Reply>(
    send: F,
    app_id: Seq<char>,
    app_pk: Seq<char>,
    options: OptionsModel,
    now: u64,
    request: RequestModel,
) -> bool {
    match assertion_at(app_id, app_pk, now) {
        Ok(assertion) => may_send(send, assertion, options, request),
        Err(_) => false,
    }
}

/// What an exchange comes to where the lookup is answered by `first` and the token
/// request, if one follows, by `second`.
pub open spec fn settled(
    assertion: Seq<char>,
    options: OptionsModel,
    first: ReplyModel,
    second: ReplyModel,
) -> Result<Seq<char>, TokenErrorModel> {
    match SessionModel::opening(assertion, options).next(first, document_of(first)) {
        ProgressModel::Failed(error) => Err(error),
        ProgressModel::Pending(session) => match session.next(second, document_of(second)) {
            ProgressModel::Issued(token) => Ok(token),
            ProgressModel::Failed(error) => Err(error),
            ProgressModel::Pending(_) => Err(TokenErrorModel::DecodeFailure(Stage::Exchange)),
        },
        ProgressModel::Issued(_) => Err(TokenErrorModel::DecodeFailure(Stage::Resolve)),
    }
}

/// Where `send` gives every lookup the same reply and every token request the same
/// reply, the outcome of an exchange is settled by the two: an installation and a token
/// give the token; a lookup that is refused, lost or not decoded gives its error,
/// whatever the second reply would be.
pub proof fn lemma_exchange_settled<F: Fn(&Request) -> Reply>(
    send: F,
    assertion: Seq<char>,
    options: OptionsModel,
    fetched: Result<Seq<char>, TokenErrorModel>,
    first: ReplyModel,
    second: ReplyModel,
)
    requires
        exchanged(send, assertion, options, fetched),
        forall|request: Request, reply: Reply| #[trigger]
            call_ensures(send, (&request,), reply) ==> reply@ == if request@.method
                == Method::Get {
                first
            } else {
                second
            },
    ensures
        fetched == settled(assertion, options, first, second),
{
    let opening = SessionModel::opening(assertion, options);
    let (looked, answer) = choose|request: Request, reply: Reply|
        request@ == opening.request && #[trigger] call_ensures(send, (&request,), reply)
            && match opening.next(reply@, document_of(reply@)) {
            ProgressModel::Pending(session) => asked(send, session, fetched),
            ProgressModel::Failed(error) => fetched == Err::<Seq<char>, _>(error),
            ProgressModel::Issued(_) => false,
        };
    assert(answer@ == first);
    opening.lemma_stages_in_order(first, document_of(first));
    match opening.next(first, document_of(first)) {
        ProgressModel::Pending(session) => {
            let (posted, reply) = choose|request: Request, reply: Reply|
                request@ == session.request && #[trigger] call_ensures(send, (&request,), reply)
                    && match session.next(reply@, document_of(reply@)) {
                    ProgressModel::Issued(token) => fetched == Ok::<_, TokenErrorModel>(token),
                    ProgressModel::Failed(error) => fetched == Err::<Seq<char>, _>(error),
                    ProgressModel::Pending(_) => false,
                };
            assert(reply@ == second);
        },
        _ => {},
    }
}

/// The two requests of an exchange, as they stand: the lookup is a GET on the path of
/// the target's installation without a body; the token request is a POST on the path of
/// the installation's tokens with the permissions' document as body, and without a body
/// where no permissions were chosen; both carry the assertion.
pub proof fn lemma_requests_of_an_exchange(
    assertion: Seq<char>,
    options: OptionsModel,
    installation: u64,
)
    ensures
        SessionModel::opening(assertion, options).request == (RequestModel {
            method: Method::Get,
            path: installation_path(options.target),
            bearer: assertion,
            body: None,
        }),
        SessionModel::opening(assertion, options).asking(installation).request == (RequestModel {
            method: Method::Post,
            path: access_tokens_path(installation as nat),
            bearer: assertion,
            body: request_body(options.permissions),
        }),
        options.permissions is None ==> SessionModel::opening(assertion, options).asking(
            installation,
        ).request.body is None,
{
}

/// Exchanges a signed assertion for an installation token: looks up the installation of
/// the target through `send`, and asks through `send` for a token for it.
///
/// `send` carries a request upstream and brings back what came of it. It is handed the
/// lookup, and the token request only after it answered the lookup with an installation;
/// both go out under the assertion. The first failure ends the exchange.
pub fn exchange<F: Fn(&Request) -> Reply>(
    assertion: SecretText,
    options: &TokenOptions,
    send: F,
) -> (fetched: Result<SecretText, TokenError>)
    requires
        forall|request: Request|
            may_send(send, assertion@, options@, request@) ==> #[trigger] call_requires(
                send,
                (&request,),
            ),
    ensures
        exchanged(send, assertion@, options@, outcome(fetched)),
{
    let session = Session::open(assertion, options);
    let ghost opened = session;
    let request = session.request();
    let ghost looked = *request;
    let reply = send(request);
    let ghost answer = reply;
    let progress = session.advance(reply);
    proof {
        opened@.lemma_stages_in_order(answer@, document_of(answer@));
    }
    let fetched = match progress {
        Progress::Pending(session) => {
            let ghost kept = session;
            let request = session.request();
            let ghost posted = *request;
            assert(may_send(send, assertion@, options@, posted@)) by {
                assert(call_ensures(send, (&looked,), answer));
                assert(follows(opened@, answer@, posted@));
            }
            let reply = send(request);
            let ghost second = reply;
            let progress = session.advance(reply);
            proof {
                kept@.lemma_stages_in_order(second@, document_of(second@));
            }
            let fetched = match progress {
                Progress::Issued(token) => Ok(token),
                Progress::Failed(error) => Err(error),
                Progress::Pending(_) => vstd::pervasive::unreached(),
            };
            assert(asked(send, kept@, outcome(fetched))) by {
                assert(call_ensures(send, (&posted,), second));
            }
            fetched
        },
        Progress::Failed(error) => Err(error),
        Progress::Issued(_) => vstd::pervasive::unreached(),
    };
    assert(exchanged(send, assertion@, options@, outcome(fetched))) by {
        assert(call_ensures(send, (&looked,), answer));
    }
    fetched
}

/// Fetches an installation token at the moment `now`: signs the app's assertion and
/// exchanges it through `send`.
///
/// `send` need not take any request unless an assertion is signed: where the key is not
/// read, or does not sign, nothing is sent.
pub fn fetch_token_guarded<F: Fn(&Request) -> Reply>(
    app_id: &SecretText,
    app_pk: &SecretText,
    options: &TokenOptions,
    now: u64,
    send: F,
) -> (fetched: Result<SecretText, TokenError>)
    requires
        forall|request: Request|
            may_fetch(send, app_id@, app_pk@, options@, now, request@) ==> #[trigger] call_requires(
                send,
                (&request,),
            ),
    ensures
        fetched_at(send, app_id@, app_pk@, options@, now, outcome(fetched)),
{
    match sign_assertion(app_id, app_pk, now) {
        Ok(assertion) => exchange(assertion, options, send),
        Err(error) => Err(error),
    }
}

/// Fetches an installation token: signs the app's assertion at the moment that the
/// clock shows, looks up the installation of the target through `send`, and asks through
/// `send` for a token for it.
///
/// `send` carries a request upstream and brings back what came of it. It need take only
/// what fetching may hand it at some moment: nothing where no assertion is signed, else
/// the lookup, and the token request only after it answered the lookup with an
/// installation. The first failure ends the fetching.
pub fn fetch_token<F: Fn(&Request) -> Reply>(
    app_id: &SecretText,
    app_pk: &SecretText,
    options: &TokenOptions,
    send: F,
) -> (fetched: Result<SecretText, TokenError>)
    requires
        forall|moment: u64, request: Request| #[trigger]
            may_fetch(send, app_id@, app_pk@, options@, moment, request@) ==> call_requires(
                send,
                (&request,),
            ),
    ensures
        exists|moment: u64| #[trigger]
            fetched_at(send, app_id@, app_pk@, options@, moment, outcome(fetched)),
{
    fetch_token_guarded(app_id, app_pk, options, now(), send)
}

} // verus!
