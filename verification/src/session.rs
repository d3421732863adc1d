//! The session: the tokens that are kept, and what an expired login sets off.
use crate::errors::{ApiError, ErrorKind};
use crate::text::{
    begins_with, chars_of, has_prefix, is_at, is_empty_text, joined, opt_view, text_of, trim_end,
    trimmed_end_text, views, CharClass,
};
use vstd::prelude::*;
use vstd::slice::slice_subrange;

verus! {

broadcast use vstd::string::group_string_axioms;

/// The tokens of a login.
pub struct Tokens {
    pub access: String,
    pub refresh: String,
    /// When the refresh token expires.
    pub refresh_expires: String,
}

/// The mathematical form of the tokens of a login.
pub struct TokensView {
    pub access: Seq<char>,
    pub refresh: Seq<char>,
    pub refresh_expires: Seq<char>,
}

impl View for Tokens {
    type V = TokensView;

    open spec fn view(&self) -> TokensView {
        TokensView {
            access: self.access@,
            refresh: self.refresh@,
            refresh_expires: self.refresh_expires@,
        }
    }
}

/// The mathematical form of tokens that may be there.
pub open spec fn opt_tokens(tokens: Option<Tokens>) -> Option<TokensView> {
    match tokens {
        Some(t) => Some(t@),
        None => None,
    }
}

/// What the session knows of the client.
pub struct Client {
    pub base_url: String,
    /// Whether the client speaks version 4 of the API.
    pub is_v4: bool,
    pub token: Option<String>,
    pub refresh_token: Option<String>,
}

/// The mathematical form of a client.
pub struct ClientView {
    pub base_url: Seq<char>,
    pub is_v4: bool,
    pub token: Option<Seq<char>>,
    pub refresh_token: Option<Seq<char>>,
}

impl View for Client {
    type V = ClientView;

    open spec fn view(&self) -> ClientView {
        ClientView {
            base_url: self.base_url@,
            is_v4: self.is_v4,
            token: opt_view(self.token),
            refresh_token: opt_view(self.refresh_token),
        }
    }
}

/// The mathematical form of a client that may be there.
pub open spec fn opt_client(client: Option<Client>) -> Option<ClientView> {
    match client {
        Some(c) => Some(c@),
        None => None,
    }
}

/// What is kept of the session.
pub struct Session {
    client: Option<Client>,
    refresh_token: Option<String>,
    /// The tokens of the latest silent refresh that were not handed out yet.
    refreshed: Option<Tokens>,
    policy_id: Option<String>,
}

/// The mathematical form of a session.
pub struct SessionView {
    pub client: Option<ClientView>,
    pub refresh_token: Option<Seq<char>>,
    pub refreshed: Option<TokensView>,
    pub policy_id: Option<Seq<char>>,
}

impl View for Session {
    type V = SessionView;

    closed spec fn view(&self) -> SessionView {
        SessionView {
            client: opt_client(self.client),
            refresh_token: opt_view(self.refresh_token),
            refreshed: opt_tokens(self.refreshed),
            policy_id: opt_view(self.policy_id),
        }
    }
}

/// The tokens that wait to be handed out.
pub open spec fn handed_out(session: SessionView) -> Seq<Seq<char>> {
    match session.refreshed {
        Some(t) => seq![t.access, t.refresh, t.refresh_expires],
        None => Seq::empty(),
    }
}

/// The session with no tokens that wait to be handed out.
pub open spec fn with_nothing_refreshed(session: SessionView) -> SessionView {
    SessionView { refreshed: None, ..session }
}

/// A client with new tokens; only one of version 4 has them.
pub open spec fn with_tokens(client: ClientView, tokens: TokensView) -> ClientView {
    if client.is_v4 {
        ClientView {
            token: Some(tokens.access),
            refresh_token: Some(tokens.refresh),
            ..client
        }
    } else {
        client
    }
}

/// The session after a silent refresh: the client has the new tokens, the refresh token is kept,
/// and all of them wait to be handed out.
pub open spec fn with_refreshed(session: SessionView, tokens: TokensView) -> SessionView {
    SessionView {
        client: match session.client {
            Some(c) => Some(with_tokens(c, tokens)),
            None => None,
        },
        refresh_token: Some(tokens.refresh),
        refreshed: Some(tokens),
        ..session
    }
}

/// The reason given where there is no client yet.
pub open spec fn no_client() -> Seq<char> {
    "not initialized: call init() first"@
}

/// What a silent refresh asks with: the address of the server and the refresh token; or the
/// reason why it does not ask.
pub open spec fn refresh_question(session: SessionView) -> Result<
    (Seq<char>, Seq<char>),
    Seq<char>,
> {
    match (session.refresh_token, session.client) {
        (None, _) => Err("Unauthorized: no refresh token stored"@),
        (_, None) => Err(no_client()),
        (Some(token), Some(client)) => Ok((client.base_url, token)),
    }
}

/// The session after the answer to a silent refresh, and what the refresh gives.
pub open spec fn after_answer(
    session: SessionView,
    answer: Result<TokensView, Seq<char>>,
) -> (SessionView, Result<(), Seq<char>>) {
    match answer {
        Err(error) => (session, Err("Token refresh failed: "@ + error)),
        Ok(tokens) => if session.client is None {
            (session, Err(no_client()))
        } else {
            (with_refreshed(session, tokens), Ok(()))
        },
    }
}

/// A silent refresh as a whole, where the server gives the answer to what it is asked: the
/// session after it, what it gives, and whether the server was asked.
pub open spec fn silent_refresh(
    session: SessionView,
    answer: Result<TokensView, Seq<char>>,
) -> (SessionView, Result<(), Seq<char>>, bool) {
    match refresh_question(session) {
        Err(reason) => (session, Err(reason), false),
        Ok(_) => {
            let (after, result) = after_answer(session, answer);
            (after, result, true)
        },
    }
}

/// The mathematical form of a result that gives nothing or a reason.
pub open spec fn outcome_view(result: Result<(), String>) -> Result<(), Seq<char>> {
    match result {
        Ok(_) => Ok(()),
        Err(reason) => Err(reason@),
    }
}

/// The session that keeps a storage policy, where there is one.
pub open spec fn with_policy(session: SessionView, id: Option<Seq<char>>) -> SessionView {
    match id {
        Some(_) => SessionView { policy_id: id, ..session },
        None => session,
    }
}

fn copy_of(text: &Option<String>) -> (r: Option<String>)
    ensures
        opt_view(r) == opt_view(*text),
{
    match text {
        Some(s) => Some(s.clone()),
        None => None,
    }
}

/// What a silent refresh asks with.
pub struct RefreshRequest {
    pub base_url: String,
    pub refresh_token: String,
}

/// What a saved session is restored with.
pub enum Credential {
    /// The value of the session cookie.
    Cookie(String),
    /// The access token.
    Token(String),
}

/// What to set up for a saved session.
pub struct RestorePlan {
    pub credential: Credential,
    pub refresh_token: Option<String>,
}

/// The text without the prefix, where it begins with it.
pub open spec fn without_prefix(s: Seq<char>, prefix: Seq<char>) -> Seq<char> {
    if has_prefix(s, prefix) {
        s.skip(prefix.len() as int)
    } else {
        s
    }
}

/// The text without the prefix, where it begins with it.
pub fn strip_prefix(s: &str, prefix: &str) -> (r: String)
    ensures
        r@ == without_prefix(s@, prefix@),
{
    let chars = chars_of(s);
    let head = chars_of(prefix);
    if is_at(chars.as_slice(), head.as_slice(), 0) {
        let n: usize = chars.len();
        let skip: usize = head.len();
        assert(chars@.subrange(skip as int, n as int) =~= chars@.skip(skip as int));
        text_of(slice_subrange(chars.as_slice(), skip, n))
    } else {
        s.to_string()
    }
}

impl Session {
    /// A session with nothing kept.
    pub fn new() -> (s: Session)
        ensures
            s@ == (SessionView {
                client: None,
                refresh_token: None,
                refreshed: None,
                policy_id: None,
            }),
    {
        Session { client: None, refresh_token: None, refreshed: None, policy_id: None }
    }

    /// What is known of the client, or the reason why there is none.
    pub fn get_client(&self) -> (r: Result<Client, String>)
        ensures
            match self@.client {
                Some(c) => r matches Ok(client) && client@ == c,
                None => r matches Err(reason) && reason@ == no_client(),
            },
    {
        match &self.client {
            Some(c) => Ok(
                Client {
                    base_url: c.base_url.clone(),
                    is_v4: c.is_v4,
                    token: copy_of(&c.token),
                    refresh_token: copy_of(&c.refresh_token),
                },
            ),
            None => Err(not_initialized()),
        }
    }

    /// Takes in the client that is used from now on.
    pub fn set_client(&mut self, client: Client)
        ensures
            final(self)@ == (SessionView { client: Some(client@), ..old(self)@ }),
    {
        self.client = Some(client);
    }

    /// The refresh token that is kept.
    pub fn get_v4_refresh(&self) -> (r: Option<String>)
        ensures
            opt_view(r) == self@.refresh_token,
    {
        copy_of(&self.refresh_token)
    }

    /// Keeps a refresh token, or none.
    pub fn set_v4_refresh(&mut self, token: Option<String>)
        ensures
            final(self)@ == (SessionView { refresh_token: opt_view(token), ..old(self)@ }),
    {
        self.refresh_token = token;
    }

    /// The storage policy that was seen last.
    pub fn get_v4_policy_id(&self) -> (r: Option<String>)
        ensures
            opt_view(r) == self@.policy_id,
    {
        copy_of(&self.policy_id)
    }

    /// Keeps the storage policy that was seen last, or none.
    pub fn set_v4_policy_id(&mut self, id: Option<String>)
        ensures
            final(self)@ == (SessionView { policy_id: opt_view(id), ..old(self)@ }),
    {
        self.policy_id = id;
    }

    /// Keeps the storage policy of a directory, where the directory has one.
    pub fn remember_policy(&mut self, id: &Option<String>)
        ensures
            final(self)@ == with_policy(old(self)@, opt_view(*id)),
    {
        if let Some(policy) = id {
            self.policy_id = Some(policy.clone());
        }
    }

    /// The tokens of the latest silent refresh, once: the access token, the refresh token and
    /// when that expires, or nothing where nothing was refreshed since the last call.
    pub fn take_refreshed_session(&mut self) -> (r: Vec<String>)
        ensures
            views(r@) == handed_out(old(self)@),
            final(self)@ == with_nothing_refreshed(old(self)@),
    {
        let mut r: Vec<String> = Vec::new();
        match self.refreshed.take() {
            Some(t) => {
                let ghost tokens = t@;
                r.push(t.access);
                r.push(t.refresh);
                r.push(t.refresh_expires);
                assert(views(r@) =~= seq![tokens.access, tokens.refresh, tokens.refresh_expires]);
            },
            None => {
                assert(views(r@) =~= Seq::empty());
            },
        }
        r
    }

    /// What a silent refresh asks with, or the reason why it does not ask.
    pub fn refresh_request(&self) -> (r: Result<RefreshRequest, String>)
        ensures
            match refresh_question(self@) {
                Ok((base_url, token)) => r matches Ok(request) && request.base_url@ == base_url
                    && request.refresh_token@ == token,
                Err(reason) => r matches Err(given) && given@ == reason,
            },
    {
        match &self.refresh_token {
            None => Err("Unauthorized: no refresh token stored".to_string()),
            Some(token) => match &self.client {
                None => Err(not_initialized()),
                Some(client) => Ok(
                    RefreshRequest {
                        base_url: client.base_url.clone(),
                        refresh_token: token.clone(),
                    },
                ),
            },
        }
    }

    /// Takes in the answer to a silent refresh: new tokens go to the client, the refresh token is
    /// kept, and all of them wait to be handed out; an error changes nothing.
    pub fn do_v4_refresh(&mut self, answer: Result<Tokens, String>) -> (r: Result<(), String>)
        ensures
            (final(self)@, outcome_view(r)) == after_answer(
                old(self)@,
                match answer {
                    Ok(tokens) => Ok(tokens@),
                    Err(error) => Err(error@),
                },
            ),
    {
        match answer {
            Err(error) => Err(refresh_failure(error.as_str())),
            Ok(tokens) => {
                match self.client.take() {
                    None => Err(not_initialized()),
                    Some(client) => {
                        self.client = if client.is_v4 {
                            Some(
                                Client {
                                    base_url: client.base_url,
                                    is_v4: true,
                                    token: Some(tokens.access.clone()),
                                    refresh_token: Some(tokens.refresh.clone()),
                                },
                            )
                        } else {
                            Some(client)
                        };
                        self.refresh_token = Some(tokens.refresh.clone());
                        self.refreshed = Some(tokens);
                        Ok(())
                    },
                }
            },
        }
    }

    /// Drops what a silent refresh of another account left behind and says what to set up.
    pub fn restore_session(&mut self, access_token: &str, refresh_token: &str, is_v3: bool) -> (r:
        RestorePlan)
        ensures
            final(self)@ == with_nothing_refreshed(old(self)@),
            if is_v3 {
                (r.credential matches Credential::Cookie(value) && value@ == without_prefix(
                    access_token@,
                    "cloudreve-session="@,
                )) && r.refresh_token is None
            } else {
                (r.credential matches Credential::Token(value) && value@ == without_prefix(
                    access_token@,
                    "v4:"@,
                )) && opt_view(r.refresh_token) == if refresh_token@.len() > 0 {
                    Some(refresh_token@)
                } else {
                    None
                }
            },
    {
        self.refreshed = None;
        if is_v3 {
            RestorePlan {
                credential: Credential::Cookie(strip_prefix(access_token, "cloudreve-session=")),
                refresh_token: None,
            }
        } else {
            RestorePlan {
                credential: Credential::Token(strip_prefix(access_token, "v4:")),
                refresh_token: if is_empty_text(refresh_token) {
                    None
                } else {
                    Some(refresh_token.to_string())
                },
            }
        }
    }

    /// Takes in what was set up for a saved session: a refresh token replaces the one that is
    /// kept.
    pub fn restored(&mut self, plan: &RestorePlan)
        ensures
            final(self)@ == if plan.refresh_token is Some {
                SessionView { refresh_token: opt_view(plan.refresh_token), ..old(self)@ }
            } else {
                old(self)@
            },
    {
        if let Some(token) = &plan.refresh_token {
            self.refresh_token = Some(token.clone());
        }
    }

    /// What a login gives: the user, the access token or session cookie, the refresh token, the
    /// version of the API and when the refresh token expires. `user` is the user in JSON or why
    /// it could not be had. The refresh token is kept even where the user could not be had.
    pub fn logged_in(
        &mut self,
        is_v3: bool,
        cookie: Option<String>,
        response: Option<Tokens>,
        user: Result<String, String>,
    ) -> (r: Result<Vec<String>, String>)
        ensures
            final(self)@ == if is_v3 {
                old(self)@
            } else {
                SessionView {
                    refresh_token: Some(tokens_or_empty(opt_tokens(response)).refresh),
                    ..old(self)@
                }
            },
            match user {
                Err(reason) => r matches Err(e) && e@ == reason@,
                Ok(json) => r matches Ok(v) && views(v@) == login_result(
                    json@,
                    login_tokens(is_v3, opt_view(cookie), opt_tokens(response)),
                    is_v3,
                ),
            },
    {
        let tokens = if is_v3 {
            Tokens {
                access: match cookie {
                    Some(c) => c,
                    None => empty(),
                },
                refresh: empty(),
                refresh_expires: empty(),
            }
        } else {
            let tokens = extract_v4_tokens(response);
            self.refresh_token = Some(tokens.refresh.clone());
            tokens
        };
        match user {
            Err(reason) => Err(reason),
            Ok(json) => Ok(login_vector(json, tokens, is_v3)),
        }
    }

    /// What a login by refresh token gives; the new refresh token is kept. `user` is the user in
    /// JSON, where it could be had.
    pub fn login_with_refresh_token(&mut self, tokens: Tokens, user: Option<String>) -> (r: Vec<
        String,
    >)
        ensures
            final(self)@ == (SessionView { refresh_token: Some(tokens@.refresh), ..old(self)@ }),
            views(r@) == login_result(
                match user {
                    Some(json) => json@,
                    None => "{}"@,
                },
                tokens@,
                false,
            ),
    {
        self.refresh_token = Some(tokens.refresh.clone());
        let json = match user {
            Some(json) => json,
            None => "{}".to_string(),
        };
        login_vector(json, tokens, false)
    }
}

fn empty() -> (r: String)
    ensures
        r@ == Seq::<char>::empty(),
{
    let r = String::new();
    assert(r@ =~= Seq::empty());
    r
}

/// The word for the version of the API.
pub open spec fn version_word(is_v3: bool) -> Seq<char> {
    if is_v3 {
        "v3"@
    } else {
        "v4"@
    }
}

/// The tokens of a response, or empty ones where it has none.
pub open spec fn tokens_or_empty(response: Option<TokensView>) -> TokensView {
    match response {
        Some(t) => t,
        None => TokensView {
            access: Seq::empty(),
            refresh: Seq::empty(),
            refresh_expires: Seq::empty(),
        },
    }
}

/// The tokens of a login: those of the response, or the session cookie alone.
pub open spec fn login_tokens(
    is_v3: bool,
    cookie: Option<Seq<char>>,
    response: Option<TokensView>,
) -> TokensView {
    if is_v3 {
        TokensView {
            access: match cookie {
                Some(c) => c,
                None => Seq::empty(),
            },
            refresh: Seq::empty(),
            refresh_expires: Seq::empty(),
        }
    } else {
        tokens_or_empty(response)
    }
}

/// The tokens of a response, or empty ones where it has none.
pub fn extract_v4_tokens(response: Option<Tokens>) -> (r: Tokens)
    ensures
        r@ == tokens_or_empty(opt_tokens(response)),
{
    match response {
        Some(t) => t,
        None => Tokens { access: empty(), refresh: empty(), refresh_expires: empty() },
    }
}

/// What a login gives.
pub open spec fn login_result(user: Seq<char>, tokens: TokensView, is_v3: bool) -> Seq<Seq<char>> {
    seq![user, tokens.access, tokens.refresh, version_word(is_v3), tokens.refresh_expires]
}

fn login_vector(user: String, tokens: Tokens, is_v3: bool) -> (r: Vec<String>)
    ensures
        views(r@) == login_result(user@, tokens@, is_v3),
{
    let ghost expected = login_result(user@, tokens@, is_v3);
    let mut r: Vec<String> = Vec::new();
    r.push(user);
    r.push(tokens.access);
    r.push(tokens.refresh);
    r.push(if is_v3 {
        "v3".to_string()
    } else {
        "v4".to_string()
    });
    r.push(tokens.refresh_expires);
    assert(views(r@) =~= expected);
    r
}

/// What a failed login gives: a word that asks for the second factor where one is needed, else
/// the error.
pub fn failed_login(error: ApiError, is_v3: bool) -> (r: Result<Vec<String>, String>)
    ensures
        if error.kind is TwoFactorRequired {
            r matches Ok(v) && views(v@) == login_result(
                "2fa_required"@,
                tokens_or_empty(None),
                is_v3,
            )
        } else {
            r matches Err(reason) && reason@ == error.text@
        },
{
    match error.kind {
        ErrorKind::TwoFactorRequired => Ok(
            login_vector("2fa_required".to_string(), extract_v4_tokens(None), is_v3),
        ),
        _ => Err(error.text),
    }
}

/// The reason given for a silent refresh that failed.
pub fn refresh_failure(error: &str) -> (r: String)
    ensures
        r@ == "Token refresh failed: "@ + error@,
{
    joined("Token refresh failed: ", error)
}

/// The reason given where there is no client yet.
pub fn not_initialized() -> (r: String)
    ensures
        r@ == no_client(),
{
    "not initialized: call init() first".to_string()
}

/// The client's and the server's version; `ping` is the server's answer, where one came in time.
pub fn get_api_version_info(api_version: String, ping: Option<String>) -> (r: Vec<String>)
    ensures
        views(r@) == seq![
            api_version@,
            match ping {
                Some(version) => version@,
                None => "unknown"@,
            },
        ],
{
    let server = match ping {
        Some(version) => version,
        None => "unknown".to_string(),
    };
    let ghost expected = seq![api_version@, server@];
    let mut r: Vec<String> = Vec::new();
    r.push(api_version);
    r.push(server);
    assert(views(r@) =~= expected);
    r
}

/// The header of a session cookie, given as the value alone or with its name.
pub open spec fn cookie_line(cookie: Seq<char>) -> Seq<char> {
    if has_prefix(cookie, "cloudreve-session="@) {
        cookie
    } else {
        "cloudreve-session="@ + cookie
    }
}

/// The header of a session cookie, given as the value alone or with its name.
pub fn cookie_header(cookie: String) -> (r: String)
    ensures
        r@ == cookie_line(cookie@),
{
    if begins_with(cookie.as_str(), "cloudreve-session=") {
        cookie
    } else {
        joined("cloudreve-session=", cookie.as_str())
    }
}

/// The address of something below the address of the server.
pub open spec fn address(base_url: Seq<char>, rest: Seq<char>) -> Seq<char> {
    trim_end(base_url, CharClass::Only('/')) + rest
}

/// The address of something below the address of the server.
pub fn server_address(base_url: &str, rest: &str) -> (r: String)
    ensures
        r@ == address(base_url@, rest@),
{
    let base = trimmed_end_text(base_url, CharClass::Only('/'));
    joined(base.as_str(), rest)
}

/// When a request is repeated after a silent refresh.
#[derive(Clone, Copy, PartialEq, Eq, Structural, Debug)]
pub enum RetryRule {
    /// Where it failed because the login has expired.
    OnUnauthorized,
    /// Where it failed at all.
    OnAnyFailure,
}

/// Why a request failed.
pub struct Failure {
    pub reason: String,
    /// Whether the login has expired.
    pub unauthorized: bool,
}

impl Failure {
    /// The failure that an error of the API means.
    pub fn of(error: ApiError) -> (r: Failure)
        ensures
            r.reason@ == error.text@,
            r.unauthorized == (error.kind is Unauthorized),
    {
        let unauthorized = error.is_unauthorized();
        Failure { reason: error.text, unauthorized }
    }
}

/// The mathematical form of why a request failed.
pub struct FailureView {
    pub reason: Seq<char>,
    pub unauthorized: bool,
}

impl View for Failure {
    type V = FailureView;

    open spec fn view(&self) -> FailureView {
        FailureView { reason: self.reason@, unauthorized: self.unauthorized }
    }
}

/// How far a request has come.
pub enum RunStage {
    /// It was not made yet.
    Idle,
    /// It is being made.
    First,
    /// It failed, with this reason, and a silent refresh is under way.
    Refreshing(String),
    /// It is being made again.
    Second,
    Over,
}

/// The mathematical form of how far a request has come.
pub enum StageView {
    Idle,
    First,
    Refreshing(Seq<char>),
    Second,
    Over,
}

impl View for RunStage {
    type V = StageView;

    open spec fn view(&self) -> StageView {
        match self {
            RunStage::Idle => StageView::Idle,
            RunStage::First => StageView::First,
            RunStage::Refreshing(reason) => StageView::Refreshing(reason@),
            RunStage::Second => StageView::Second,
            RunStage::Over => StageView::Over,
        }
    }
}

/// What came of the last action for a request.
pub enum RunEvent {
    /// The request is asked for; with whether there is a client.
    Start(bool),
    Succeeded,
    /// The request failed; with whether the client speaks version 4 of the API.
    Failed(Failure, bool),
    Refreshed,
    /// The silent refresh failed, with this reason.
    NotRefreshed(String),
}

/// The mathematical form of what came of the last action.
pub enum EventView {
    Start(bool),
    Succeeded,
    Failed(FailureView, bool),
    Refreshed,
    NotRefreshed(Seq<char>),
}

impl View for RunEvent {
    type V = EventView;

    open spec fn view(&self) -> EventView {
        match self {
            RunEvent::Start(has_client) => EventView::Start(*has_client),
            RunEvent::Succeeded => EventView::Succeeded,
            RunEvent::Failed(failure, is_v4) => EventView::Failed(failure@, *is_v4),
            RunEvent::Refreshed => EventView::Refreshed,
            RunEvent::NotRefreshed(reason) => EventView::NotRefreshed(reason@),
        }
    }
}

/// What to do next for a request.
pub enum RunAction {
    /// Make the request.
    Call,
    /// Refresh the tokens.
    Refresh,
    /// Return what the request gave.
    Return,
    /// Return an error with this reason.
    Fail(String),
}

/// The mathematical form of what to do next.
pub enum ActionView {
    Call,
    Refresh,
    Return,
    Fail(Seq<char>),
}

impl View for RunAction {
    type V = ActionView;

    open spec fn view(&self) -> ActionView {
        match self {
            RunAction::Call => ActionView::Call,
            RunAction::Refresh => ActionView::Refresh,
            RunAction::Return => ActionView::Return,
            RunAction::Fail(reason) => ActionView::Fail(reason@),
        }
    }
}

/// A request that is made again, once, after a silent refresh.
pub struct Run {
    rule: RetryRule,
    stage: RunStage,
}

/// Whether an event can come at a stage.
pub open spec fn expects(stage: StageView, event: EventView) -> bool {
    match stage {
        StageView::Idle => event is Start,
        StageView::First => event is Succeeded || event is Failed,
        StageView::Refreshing(_) => event is Refreshed || event is NotRefreshed,
        StageView::Second => event is Succeeded || event is Failed,
        StageView::Over => false,
    }
}

/// Whether a failure sets off a silent refresh, where it is the first.
pub open spec fn sets_off_refresh(rule: RetryRule, failure: FailureView, is_v4: bool) -> bool {
    is_v4 && (rule is OnAnyFailure || failure.unauthorized)
}

/// What to do at an event. Without a client nothing is done. After a first failure that sets off
/// a refresh the request is made again, and what that gives is final. Where the refresh fails,
/// the reason is that of the refresh, or under `OnAnyFailure` that of the first failure.
pub open spec fn next_action(rule: RetryRule, stage: StageView, event: EventView) -> ActionView {
    match event {
        EventView::Start(has_client) => if has_client {
            ActionView::Call
        } else {
            ActionView::Fail(no_client())
        },
        EventView::Succeeded => ActionView::Return,
        EventView::Failed(failure, is_v4) => if stage is First && sets_off_refresh(
            rule,
            failure,
            is_v4,
        ) {
            ActionView::Refresh
        } else {
            ActionView::Fail(failure.reason)
        },
        EventView::Refreshed => ActionView::Call,
        EventView::NotRefreshed(reason) => match (rule, stage) {
            (RetryRule::OnAnyFailure, StageView::Refreshing(first)) => ActionView::Fail(first),
            _ => ActionView::Fail(reason),
        },
    }
}

/// How far a request has come after an event.
pub open spec fn next_stage(rule: RetryRule, stage: StageView, event: EventView) -> StageView {
    match next_action(rule, stage, event) {
        ActionView::Call => if stage is Idle {
            StageView::First
        } else {
            StageView::Second
        },
        ActionView::Refresh => StageView::Refreshing(event->Failed_0.reason),
        _ => StageView::Over,
    }
}

impl Run {
    /// When the request is repeated.
    pub closed spec fn retries(self) -> RetryRule {
        self.rule
    }

    /// How far the request has come.
    pub closed spec fn at(self) -> StageView {
        self.stage@
    }

    /// A request that was not made yet.
    pub fn new(rule: RetryRule) -> (run: Run)
        ensures
            run.retries() == rule,
            run.at() == StageView::Idle,
    {
        Run { rule, stage: RunStage::Idle }
    }

    /// The next action.
    pub fn run_api_with_v4_refresh(&mut self, event: RunEvent) -> (action: RunAction)
        requires
            expects(old(self).at(), event@),
        ensures
            final(self).retries() == old(self).retries(),
            action@ == next_action(old(self).retries(), old(self).at(), event@),
            final(self).at() == next_stage(old(self).retries(), old(self).at(), event@),
    {
        let mut stage = RunStage::Over;
        std::mem::swap(&mut stage, &mut self.stage);
        match event {
            RunEvent::Start(has_client) => {
                if has_client {
                    self.stage = RunStage::First;
                    RunAction::Call
                } else {
                    RunAction::Fail(not_initialized())
                }
            },
            RunEvent::Succeeded => RunAction::Return,
            RunEvent::Failed(failure, is_v4) => {
                let first = match stage {
                    RunStage::First => true,
                    _ => false,
                };
                let any = match self.rule {
                    RetryRule::OnAnyFailure => true,
                    RetryRule::OnUnauthorized => false,
                };
                if first && is_v4 && (any || failure.unauthorized) {
                    self.stage = RunStage::Refreshing(failure.reason);
                    RunAction::Refresh
                } else {
                    RunAction::Fail(failure.reason)
                }
            },
            RunEvent::Refreshed => {
                self.stage = RunStage::Second;
                RunAction::Call
            },
            RunEvent::NotRefreshed(reason) => {
                match (self.rule, stage) {
                    (RetryRule::OnAnyFailure, RunStage::Refreshing(first)) => RunAction::Fail(
                        first,
                    ),
                    _ => RunAction::Fail(reason),
                }
            },
        }
    }
}

/// What a request meets with: whether there is a client and of which version, what the request
/// gives the first and the second time it is made, and what a silent refresh gives.
pub struct World {
    pub has_client: bool,
    pub is_v4: bool,
    pub first: Result<(), FailureView>,
    pub second: Result<(), FailureView>,
    pub refresh: Result<(), Seq<char>>,
}

/// What came of a request as a whole: how often it was made, how often the tokens were refreshed,
/// and what is returned: what the request gave the last time it was made, or an error with this
/// reason.
pub struct Report {
    pub calls: nat,
    pub refreshes: nat,
    pub result: Result<(), Seq<char>>,
}

/// The event that what a request gave makes.
pub open spec fn call_event(result: Result<(), FailureView>, is_v4: bool) -> EventView {
    match result {
        Ok(_) => EventView::Succeeded,
        Err(failure) => EventView::Failed(failure, is_v4),
    }
}

/// The event that what a silent refresh gave makes.
pub open spec fn refresh_event(result: Result<(), Seq<char>>) -> EventView {
    match result {
        Ok(_) => EventView::Refreshed,
        Err(reason) => EventView::NotRefreshed(reason),
    }
}

/// How many steps a request can still take at a stage.
pub open spec fn steps_left(stage: StageView) -> nat {
    match stage {
        StageView::Idle => 4,
        StageView::First => 3,
        StageView::Refreshing(_) => 2,
        StageView::Second => 1,
        StageView::Over => 0,
    }
}

/// What comes of a request in a world, from a stage and an event on, where so many calls and
/// refreshes were made before.
pub open spec fn played(
    rule: RetryRule,
    world: World,
    stage: StageView,
    event: EventView,
    calls: nat,
    refreshes: nat,
) -> Report
    decreases steps_left(stage),
{
    let next = next_stage(rule, stage, event);
    match next_action(rule, stage, event) {
        ActionView::Return => Report { calls, refreshes, result: Ok(()) },
        ActionView::Fail(reason) => Report { calls, refreshes, result: Err(reason) },
        ActionView::Call => {
            let given = if calls == 0 {
                world.first
            } else {
                world.second
            };
            if steps_left(next) < steps_left(stage) {
                played(
                    rule,
                    world,
                    next,
                    call_event(given, world.is_v4),
                    calls + 1,
                    refreshes,
                )
            } else {
                Report { calls, refreshes, result: Ok(()) }
            }
        },
        ActionView::Refresh => if steps_left(next) < steps_left(stage) {
            played(rule, world, next, refresh_event(world.refresh), calls, refreshes + 1)
        } else {
            Report { calls, refreshes, result: Ok(()) }
        },
    }
}

/// What comes of a request in a world.
pub open spec fn whole_run(rule: RetryRule, world: World) -> Report {
    played(rule, world, StageView::Idle, EventView::Start(world.has_client), 0, 0)
}

/// What a request gave, with the reason where it failed.
pub open spec fn given(result: Result<(), FailureView>) -> Result<(), Seq<char>> {
    match result {
        Ok(_) => Ok(()),
        Err(failure) => Err(failure.reason),
    }
}

/// The error for a feature that only version 4 of the API has.
pub fn v4_client_of(is_v4: bool, feature: &str) -> (r: Result<(), ApiError>)
    ensures
        is_v4 <==> r is Ok,
        r matches Err(e) ==> e.wf() && e.kind is Other && e.text@ == "Feature '"@ + feature@
            + "' not supported in API "@ + "non-v4"@,
{
    if is_v4 {
        Ok(())
    } else {
        Err(ApiError::unsupported_feature(feature.to_string(), "non-v4".to_string()))
    }
}

/// A request is made twice exactly where it failed the first time in a way that sets off a silent
/// refresh and the refresh succeeded: what the second time gave is returned then, whatever it is.
/// Where the refresh failed, its reason is returned, or under `OnAnyFailure` that of the request.
/// In every other case the request is made once, without a refresh, and what it gave is returned;
/// and without a client it is not made at all.
pub proof fn law_request_is_repeated_after_a_refresh(rule: RetryRule, world: World)
    ensures
        whole_run(rule, world) == if !world.has_client {
            Report { calls: 0, refreshes: 0, result: Err(no_client()) }
        } else {
            match world.first {
                Ok(_) => Report { calls: 1, refreshes: 0, result: Ok(()) },
                Err(failure) => if !sets_off_refresh(rule, failure, world.is_v4) {
                    Report { calls: 1, refreshes: 0, result: Err(failure.reason) }
                } else {
                    match world.refresh {
                        Ok(_) => Report { calls: 2, refreshes: 1, result: given(world.second) },
                        Err(reason) => Report {
                            calls: 1,
                            refreshes: 1,
                            result: if rule is OnAnyFailure {
                                Err(failure.reason)
                            } else {
                                Err(reason)
                            },
                        },
                    }
                },
            }
        },
        whole_run(rule, world).calls <= 2,
        whole_run(rule, world).refreshes <= 1,
{
    reveal_with_fuel(played, 5);
}

/// A silent refresh gives the new tokens to the client of version 4, keeps the refresh token and
/// hands all of them out next; one that fails changes nothing; and without a refresh token the
/// server is not asked.
pub proof fn law_silent_refresh(
    session: SessionView,
    client: ClientView,
    tokens: TokensView,
    error: Seq<char>,
    answer: Result<TokensView, Seq<char>>,
)
    requires
        session.client == Some(client),
    ensures
        session.refresh_token is Some ==> {
            let (after, result, asked) = silent_refresh(session, Ok(tokens));
            &&& asked
            &&& result == Ok::<(), Seq<char>>(())
            &&& after.client == Some(with_tokens(client, tokens))
            &&& client.is_v4 ==> after.client->0.token == Some(tokens.access)
                && after.client->0.refresh_token == Some(tokens.refresh)
            &&& after.refresh_token == Some(tokens.refresh)
            &&& handed_out(after) == seq![tokens.access, tokens.refresh, tokens.refresh_expires]
            &&& after.policy_id == session.policy_id
        },
        session.refresh_token is Some ==> silent_refresh(session, Err(error)) == (
            session,
            Err::<(), Seq<char>>("Token refresh failed: "@ + error),
            true,
        ),
        session.refresh_token is None ==> silent_refresh(session, answer) == (
            session,
            Err::<(), Seq<char>>("Unauthorized: no refresh token stored"@),
            false,
        ),
{
}

/// The tokens of a silent refresh are handed out exactly once: the first call after it gives
/// them, the next one nothing, and of two refreshes only the later one counts.
pub proof fn law_refreshed_tokens_are_handed_out_once(
    session: SessionView,
    earlier: TokensView,
    tokens: TokensView,
)
    ensures
        handed_out(with_refreshed(session, tokens)) == seq![
            tokens.access,
            tokens.refresh,
            tokens.refresh_expires,
        ],
        handed_out(with_nothing_refreshed(with_refreshed(session, tokens))).len() == 0,
        with_refreshed(with_refreshed(session, earlier), tokens) == with_refreshed(session, tokens),
{
}

/// Tokens that were refreshed for one account never reach the next one: once a session is
/// restored there is nothing to hand out, and the rest of what is kept is unchanged.
pub proof fn law_restored_session_has_nothing_to_hand_out(session: SessionView)
    ensures
        handed_out(with_nothing_refreshed(session)).len() == 0,
        with_nothing_refreshed(session).refresh_token == session.refresh_token,
        with_nothing_refreshed(session).policy_id == session.policy_id,
{
}

/// A session cookie gives the same header with its name and without, and a header stays as it is.
pub proof fn law_cookie_header_is_stable(value: Seq<char>)
    ensures
        cookie_line("cloudreve-session="@ + value) == "cloudreve-session="@ + value,
        cookie_line(cookie_line(value)) == cookie_line(value),
{
    let name = "cloudreve-session="@;
    assert((name + value).subrange(0, name.len() as int) =~= name);
}

} // verus!
