//! The credential lifecycle: silent reuse, the browser-redirect flow with
//! its single-use local listener, the device-code flow, and pasted-token
//! validation. Every network exchange happens in the shell; the decisions
//! between exchanges are made here.

use crate::token::Token;
use vstd::prelude::*;

verus! {

/// The local callback listener's fixed port.
pub const REDIRECT_PORT: u16 = 3000;

/// How long the browser flow waits before failing, in seconds.
pub const LOGIN_TIMEOUT_SECS: u64 = 180;

/// Why a credential could not be acquired.
#[derive(Clone, Copy, Debug, PartialEq, Eq, Structural)]
pub enum AuthError {
    /// No profile is selected, so there is no stored credential to try.
    NoActiveProfile,
    /// No stored credential exists for the active profile.
    NotFound,
    /// The stored or pasted credential failed validation.
    Invalid,
    /// The local callback listener could not bind its port.
    PortInUse,
    /// The callback carried a different anti-forgery token.
    StateMismatch,
    /// The flow's wall-clock limit passed.
    Timeout,
    /// Exchanging the code for a token failed.
    ExchangeFailed,
    /// The identity provider rejected the authorization.
    ProviderRejected,
}

impl DeepView for AuthError {
    type V = AuthError;

    open spec fn deep_view(&self) -> AuthError {
        *self
    }
}

/// The human-readable reason for each failure.
pub open spec fn spec_auth_error_text(e: AuthError) -> Seq<char> {
    match e {
        AuthError::NoActiveProfile => "No active profile selected."@,
        AuthError::NotFound => "No stored token found."@,
        AuthError::Invalid => "Failed to validate token"@,
        AuthError::PortInUse => "Could not start local server on port 3000. It might already be in use."@,
        AuthError::StateMismatch => "Authorization response carried an unexpected state token."@,
        AuthError::Timeout => "Timed out waiting for authorization."@,
        AuthError::ExchangeFailed => "Failed to get token from device flow"@,
        AuthError::ProviderRejected => "The authorization request was denied."@,
    }
}

impl AuthError {
    /// The human-readable reason for this failure.
    pub fn message(&self) -> (r: String)
        ensures
            r@ == spec_auth_error_text(*self),
    {
        match self {
            AuthError::NoActiveProfile => String::from_str("No active profile selected."),
            AuthError::NotFound => String::from_str("No stored token found."),
            AuthError::Invalid => String::from_str("Failed to validate token"),
            AuthError::PortInUse => String::from_str(
                "Could not start local server on port 3000. It might already be in use.",
            ),
            AuthError::StateMismatch => String::from_str(
                "Authorization response carried an unexpected state token.",
            ),
            AuthError::Timeout => String::from_str("Timed out waiting for authorization."),
            AuthError::ExchangeFailed => String::from_str("Failed to get token from device flow"),
            AuthError::ProviderRejected => String::from_str(
                "The authorization request was denied.",
            ),
        }
    }
}

/// The scopes every acquired token is requested with.
pub open spec fn spec_scope_list() -> Seq<Seq<char>> {
    seq![
        "chat:read"@,
        "chat:edit"@,
        "user:read:chat"@,
        "user:write:chat"@,
        "moderator:manage:announcements"@,
        "moderator:read:chatters"@,
        "user:read:emotes"@,
    ]
}

/// The scopes every acquired token is requested with.
pub fn scope_list() -> (r: Vec<String>)
    ensures
        r.deep_view() == spec_scope_list(),
{
    let mut r: Vec<String> = Vec::new();
    r.push(String::from_str("chat:read"));
    r.push(String::from_str("chat:edit"));
    r.push(String::from_str("user:read:chat"));
    r.push(String::from_str("user:write:chat"));
    r.push(String::from_str("moderator:manage:announcements"));
    r.push(String::from_str("moderator:read:chatters"));
    r.push(String::from_str("user:read:emotes"));
    proof {
        assert(r.deep_view() =~= spec_scope_list());
    }
    r
}

/// Strings joined with single spaces.
pub open spec fn spec_join_spaces(ss: Seq<Seq<char>>) -> Seq<char>
    decreases ss.len(),
{
    if ss.len() == 0 {
        Seq::empty()
    } else if ss.len() == 1 {
        ss[0]
    } else {
        ss[0] + " "@ + spec_join_spaces(ss.drop_first())
    }
}

/// Joins strings with single spaces.
pub fn join_spaces(ss: &Vec<String>) -> (r: String)
    ensures
        r@ == spec_join_spaces(ss.deep_view()),
{
    let ghost sv = ss.deep_view();
    let mut out = String::new();
    let mut i: usize = 0;
    while i < ss.len()
        invariant
            0 <= i <= ss.len(),
            sv == ss.deep_view(),
            sv.len() == ss.len(),
            out@ == spec_join_spaces(sv.take(i as int)),
        decreases ss.len() - i,
    {
        if i > 0 {
            out.append(" ");
        }
        out.append(ss[i].as_str());
        proof {
            lemma_join_spaces_snoc(sv, i as int);
        }
        i = i + 1;
    }
    proof {
        assert(sv.take(sv.len() as int) =~= sv);
    }
    out
}

/// Joining one more string appends a space and the string (or just the
/// string, when it is the first).
proof fn lemma_join_spaces_snoc(ss: Seq<Seq<char>>, i: int)
    requires
        0 <= i < ss.len(),
    ensures
        i == 0 ==> spec_join_spaces(ss.take(i + 1)) == ss[0],
        i > 0 ==> spec_join_spaces(ss.take(i + 1)) == spec_join_spaces(ss.take(i)) + " "@ + ss[i],
    decreases i,
{
    if i == 0 {
        assert(ss.take(1).len() == 1);
        assert(ss.take(1)[0] == ss[0]);
    } else {
        lemma_join_spaces_snoc(ss.drop_first(), i - 1);
        assert(ss.take(i + 1).drop_first() =~= ss.drop_first().take(i));
        assert(ss.take(i).drop_first() =~= ss.drop_first().take(i - 1));
        assert(ss.take(i + 1)[0] == ss[0]);
        assert(ss.take(i)[0] == ss[0]);
        assert(ss.drop_first()[i - 1] == ss[i]);
        if i == 1 {
            assert(spec_join_spaces(ss.take(2)) == ss[0] + " "@ + ss[1]);
        } else {
            assert(spec_join_spaces(ss.take(i + 1)) == ss[0] + " "@ + spec_join_spaces(
                ss.drop_first().take(i),
            ));
            assert(spec_join_spaces(ss.take(i)) == ss[0] + " "@ + spec_join_spaces(
                ss.drop_first().take(i - 1),
            ));
            assert((ss[0] + " "@ + (spec_join_spaces(ss.drop_first().take(i - 1)) + " "@
                + ss[i])) =~= (ss[0] + " "@ + spec_join_spaces(ss.drop_first().take(i - 1))) + " "@
                + ss[i]);
        }
    }
}

/// The name a URL built from a base and query parameters carries; what
/// `Url::parse_with_params` returns depends on its arguments alone.
pub uninterp spec fn url_with_params_of(base: Seq<char>, params: Seq<(Seq<char>, Seq<char>)>) -> Seq<
    char,
>;

/// Whether `Url::parse_with_params` accepts this base and these pairs;
/// its success, too, depends on the arguments alone.
pub uninterp spec fn url_parse_ok(base: Seq<char>, params: Seq<(Seq<char>, Seq<char>)>) -> bool;

/// Relies on `url::Url::parse_with_params`: parses the base URL, appends
/// the pairs to its query, and serialises the result; parsing succeeds or
/// fails deterministically in the arguments.
#[verifier::external_body]
fn parse_with_params(base: &str, params: &Vec<(String, String)>) -> (r: Option<String>)
    ensures
        r is Some <==> url_parse_ok(base@, params.deep_view()),
        r matches Some(u) ==> u@ == url_with_params_of(base@, params.deep_view()),
{
    match url::Url::parse_with_params(base, params.iter().map(|p| (&p.0, &p.1))) {
        Ok(u) => Some(String::from(u)),
        Err(_) => None,
    }
}

/// The authorization endpoint of the identity service.
pub open spec fn spec_authorize_base() -> Seq<char> {
    "https://id.twitch.tv/oauth2/authorize"@
}

/// The query parameters the browser flow authorizes with: an implicit
/// grant to the fixed local redirect, over the full scope list, with
/// verification forced, bound to the locally generated anti-forgery
/// token.
pub open spec fn spec_authorize_params(client_id: Seq<char>, state: Seq<char>) -> Seq<
    (Seq<char>, Seq<char>),
> {
    seq![
        ("response_type"@, "token"@),
        ("client_id"@, client_id),
        ("redirect_uri"@, "http://localhost:3000"@),
        ("scope"@, spec_join_spaces(spec_scope_list())),
        ("force_verify"@, "true"@),
        ("state"@, state),
    ]
}

/// Builds the authorization URL the browser flow opens, bound to the
/// given anti-forgery token. Succeeds exactly when the URL library
/// accepts the fixed base and these parameters; a caller reports the
/// failure as a failed flow start.
pub fn authorize_url(client_id: &str, state: &str) -> (r: Option<String>)
    ensures
        r is Some <==> url_parse_ok(
            spec_authorize_base(),
            spec_authorize_params(client_id@, state@),
        ),
        r matches Some(u) ==> u@ == url_with_params_of(
            spec_authorize_base(),
            spec_authorize_params(client_id@, state@),
        ),
{
    let scopes = join_spaces(&scope_list());
    let mut params: Vec<(String, String)> = Vec::new();
    params.push((String::from_str("response_type"), String::from_str("token")));
    params.push((String::from_str("client_id"), String::from_str(client_id)));
    params.push((String::from_str("redirect_uri"), String::from_str("http://localhost:3000")));
    params.push((String::from_str("scope"), scopes));
    params.push((String::from_str("force_verify"), String::from_str("true")));
    params.push((String::from_str("state"), String::from_str(state)));
    proof {
        assert(params.deep_view() =~= spec_authorize_params(client_id@, state@));
    }
    parse_with_params("https://id.twitch.tv/oauth2/authorize", &params)
}

/// Checks the anti-forgery token a callback carried against the one the
/// flow was started with.
pub fn check_callback_state(expected: &str, got: &str) -> (r: Result<(), AuthError>)
    ensures
        r is Ok <==> expected@ == got@,
        r is Err ==> r->Err_0 == AuthError::StateMismatch,
{
    if crate::strutil::str_eq(expected, got) {
        Ok(())
    } else {
        Err(AuthError::StateMismatch)
    }
}

/// Judges the one callback the single-use listener accepted: it must
/// carry the anti-forgery token the flow was started with, and the access
/// token; a missing or different state token is a mismatch, a missing
/// access token a failed exchange.
pub fn callback_outcome(
    expected_state: &str,
    got_state: &Option<String>,
    got_token: &Option<String>,
) -> (r: Result<String, AuthError>)
    ensures
        (match got_state {
            None => r == Err::<String, AuthError>(AuthError::StateMismatch),
            Some(s) => {
                if s@ != expected_state@ {
                    r == Err::<String, AuthError>(AuthError::StateMismatch)
                } else {
                    match got_token {
                        None => r == Err::<String, AuthError>(AuthError::ExchangeFailed),
                        Some(t) => r matches Ok(tok) && tok@ == t@,
                    }
                }
            },
        }),
{
    let state = match got_state {
        Some(s) => s,
        None => {
            return Err(AuthError::StateMismatch);
        },
    };
    match check_callback_state(expected_state, state.as_str()) {
        Ok(()) => {},
        Err(e) => {
            return Err(e);
        },
    }
    match got_token {
        Some(t) => Ok(crate::config::clone_string(t)),
        None => Err(AuthError::ExchangeFailed),
    }
}

/// What the single-use listener answers: a status and a body; the
/// listener serves exactly one exchange and is then torn down.
#[derive(Clone, Debug, PartialEq)]
pub struct HttpReply {
    pub status: u16,
    pub body: String,
}

#[verifier::ext_equal]
pub ghost struct SpecHttpReply {
    pub status: u16,
    pub body: Seq<char>,
}

impl DeepView for HttpReply {
    type V = SpecHttpReply;

    open spec fn deep_view(&self) -> SpecHttpReply {
        SpecHttpReply { status: self.status, body: self.body.deep_view() }
    }
}

/// The static page shown after the one callback.
pub const LANDING_PAGE: &'static str = "<html><body><h1>Login complete</h1><p>You can close this tab and return to the app.</p></body></html>";

/// What the single-use listener serves: the landing page for a GET of the
/// root, not-found for anything else.
pub fn route_request(method: &str, path: &str) -> (r: HttpReply)
    ensures
        method@ == "GET"@ && path@ == "/"@ ==> r.deep_view() == (SpecHttpReply {
            status: 200,
            body: LANDING_PAGE@,
        }),
        !(method@ == "GET"@ && path@ == "/"@) ==> r.deep_view() == (SpecHttpReply {
            status: 404,
            body: "Not Found"@,
        }),
{
    if crate::strutil::str_eq(method, "GET") && crate::strutil::str_eq(path, "/") {
        HttpReply { status: 200, body: String::from_str(LANDING_PAGE) }
    } else {
        HttpReply { status: 404, body: String::from_str("Not Found") }
    }
}

/// What one poll of the device-code endpoint reported.
#[derive(Clone, Debug, PartialEq)]
pub enum DevicePollOutcome {
    /// The user has not decided yet.
    AuthorizationPending,
    /// The provider asks for a longer interval.
    SlowDown,
    /// The user denied the authorization.
    Denied,
    /// The device code expired.
    Expired,
    /// The user authorized; here is the token.
    Granted(Token),
    /// The exchange itself failed.
    TransportError(String),
}

/// What the device flow does next after one poll.
#[derive(Clone, Debug, PartialEq)]
pub enum DeviceNext {
    /// Sleep this many seconds, then poll again.
    PollAgain { delay: u64 },
    /// Authorization completed with this token.
    Done(Token),
    /// The flow failed.
    Fail(AuthError),
}

/// The device flow's polling decision: pending keeps polling at the
/// provider's interval, a slow-down adds five seconds, and both fail with
/// a timeout once the next poll would pass the expiry; denial, expiry and
/// transport failure end the flow.
pub fn device_poll_step(
    outcome: DevicePollOutcome,
    interval: u64,
    waited: u64,
    expires_in: u64,
) -> (r: DeviceNext)
    ensures
        outcome is AuthorizationPending ==> r == (if waited <= expires_in && interval
            <= expires_in - waited {
            DeviceNext::PollAgain { delay: interval }
        } else {
            DeviceNext::Fail(AuthError::Timeout)
        }),
        outcome is SlowDown ==> r == (if waited <= expires_in && interval <= u64::MAX - 5
            && interval + 5 <= expires_in - waited {
            DeviceNext::PollAgain { delay: (interval + 5) as u64 }
        } else {
            DeviceNext::Fail(AuthError::Timeout)
        }),
        outcome is Denied ==> r == DeviceNext::Fail(AuthError::ProviderRejected),
        outcome is Expired ==> r == DeviceNext::Fail(AuthError::Timeout),
        outcome matches DevicePollOutcome::Granted(t) ==> r == DeviceNext::Done(t),
        outcome is TransportError ==> r == DeviceNext::Fail(AuthError::ExchangeFailed),
{
    match outcome {
        DevicePollOutcome::AuthorizationPending => {
            if waited <= expires_in && interval <= expires_in - waited {
                DeviceNext::PollAgain { delay: interval }
            } else {
                DeviceNext::Fail(AuthError::Timeout)
            }
        },
        DevicePollOutcome::SlowDown => {
            if waited <= expires_in && interval <= u64::MAX - 5 && interval + 5 <= expires_in
                - waited {
                DeviceNext::PollAgain { delay: interval + 5 }
            } else {
                DeviceNext::Fail(AuthError::Timeout)
            }
        },
        DevicePollOutcome::Denied => DeviceNext::Fail(AuthError::ProviderRejected),
        DevicePollOutcome::Expired => DeviceNext::Fail(AuthError::Timeout),
        DevicePollOutcome::Granted(t) => DeviceNext::Done(t),
        DevicePollOutcome::TransportError(_) => DeviceNext::Fail(AuthError::ExchangeFailed),
    }
}

/// How the bootstrap attempts a silent login, given the configuration: it
/// cannot proceed without a client id or an active profile.
#[derive(Clone, Debug, PartialEq)]
pub enum SilentLoginPlan {
    /// Try the stored credential of this profile with this client id.
    Attempt { client_id: String, profile_name: String },
    /// Fail at once with this reason.
    FailFast(String),
}

/// Decides how a silent login proceeds: with no client id configured or
/// no active profile selected it fails at once, else the stored
/// credential of the active profile is tried.
pub fn silent_login_plan(config: &crate::config::Config) -> (r: SilentLoginPlan)
    ensures
        ({
            let c = config.deep_view();
            match c.client_id {
                None => r matches SilentLoginPlan::FailFast(m) && m@
                    == "Client ID not configured"@,
                Some(id) => match c.active_profile_name {
                    None => r matches SilentLoginPlan::FailFast(m) && m@ == spec_auth_error_text(
                        AuthError::NoActiveProfile,
                    ),
                    Some(p) => r matches SilentLoginPlan::Attempt { client_id, profile_name }
                        && client_id@ == id && profile_name@ == p,
                },
            }
        }),
{
    let client_id = match &config.client_id {
        Some(id) => crate::config::clone_string(id),
        None => {
            return SilentLoginPlan::FailFast(String::from_str("Client ID not configured"));
        },
    };
    match &config.active_profile_name {
        Some(p) => SilentLoginPlan::Attempt {
            client_id,
            profile_name: crate::config::clone_string(p),
        },
        None => SilentLoginPlan::FailFast(AuthError::NoActiveProfile.message()),
    }
}

/// The outcome a token-validation exchange maps to: a success status
/// keeps the token, anything else rejects it with the status and body in
/// the reason.
pub fn validation_outcome(status: u16, body: &str) -> (r: Result<(), String>)
    ensures
        r is Ok <==> 200 <= status < 300,
        r matches Err(e) ==> e@ == "Token validation failed with status "@ + crate::codec::enc_u32(
            status as int,
        ) + ": "@ + body@,
{
    if 200 <= status && status < 300 {
        Ok(())
    } else {
        let mut msg = String::from_str("Token validation failed with status ");
        crate::codec::write_u32(&mut msg, status as u32);
        msg.append(": ");
        msg.append(body);
        proof {
            assert(msg@ =~= "Token validation failed with status "@ + crate::codec::enc_u32(
                status as int,
            ) + ": "@ + body@);
        }
        Err(msg)
    }
}

} // verus!
