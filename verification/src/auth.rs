//! App authentication helpers: the user id forwarded by the main server, the
//! CLI credentials and API client addressing, and the API-key check.

use vstd::prelude::*;

use crate::text::{concat_str, is_blank, is_blank_text, trim_end_char, trim_end_matches_char, trim_start_char,
    trim_start_matches_char};

verus! {

/// The header that carries the authenticated user id.
pub open spec fn user_header() -> Seq<char> {
    "x-tokimo-user-id"@
}

/// The user id a request carries: the header value, if present (and valid
/// text) and not empty.
pub fn user_id_from_header(value: Option<&str>) -> (r: Option<String>)
    ensures
        value is None ==> r is None,
        value matches Some(v) ==> (v@.len() == 0 ==> r is None) && (v@.len() > 0 ==> (r matches Some(u)
            && u@ == v@)),
{
    match value {
        Some(v) => {
            if v.unicode_len() == 0 {
                None
            } else {
                Some(String::from_str(v))
            }
        },
        None => None,
    }
}

/// A Tokimo user, as the main server forwarded it after authentication.
#[derive(Debug, Clone)]
pub struct TokimoUser {
    /// User id.
    pub user_id: String,
}

/// The message of a request without an authenticated user.
pub open spec fn unauthorized_text() -> Seq<char> {
    "missing X-Tokimo-User-Id (not authenticated by main server)"@
}

/// Refusal of a request without an authenticated user: HTTP 401 with a JSON
/// body whose `error` field is `error`.
#[derive(Debug, Clone)]
pub struct Unauthorized {
    /// HTTP status code.
    pub status: u16,
    /// The body's `error` message.
    pub error: String,
}

/// The refusal of a request that carries no user id.
pub fn unauthorized() -> (r: Unauthorized)
    ensures
        r.status == 401,
        r.error@ == unauthorized_text(),
{
    Unauthorized { status: 401, error: String::from_str("missing X-Tokimo-User-Id (not authenticated by main server)") }
}

impl TokimoUser {
    /// Extracts the user from the user-id header value; a missing or empty
    /// header is refused.
    pub fn from_header(value: Option<&str>) -> (r: Result<TokimoUser, Unauthorized>)
        ensures
            (value matches Some(v) && v@.len() > 0) ==> (r matches Ok(u) && u.user_id@ == value->Some_0@),
            !(value matches Some(v) && v@.len() > 0) ==> (r matches Err(e) && e.status == 401 && e.error@
                == unauthorized_text()),
    {
        match user_id_from_header(value) {
            Some(user_id) => Ok(TokimoUser { user_id }),
            None => Err(unauthorized()),
        }
    }
}

/// Tokimo main-server authentication arguments (from flags or environment).
#[derive(Debug, Clone)]
pub struct TokimoAuthArgs {
    /// API token (`mm_xxx`).
    pub token: Option<String>,
    /// Main server URL.
    pub server: Option<String>,
}

/// Resolved credentials: server URL and token.
#[derive(Debug, Clone)]
pub struct Credentials {
    /// Full URL of the main server.
    pub server_url: String,
    /// API token (`mm_xxx`).
    pub token: String,
}

/// `reqwest::Error`, carried opaquely.
#[verifier::external_type_specification]
#[verifier::external_body]
pub struct ExReqwestError(reqwest::Error);

/// `serde_json::Error`, carried opaquely.
#[verifier::external_type_specification]
#[verifier::external_body]
pub struct ExJsonError(serde_json::Error);

/// Errors of the CLI helpers.
#[derive(Debug)]
pub enum CliError {
    /// No token was given.
    MissingToken,
    /// The HTTP request failed.
    Http(reqwest::Error),
    /// The server answered with a non-success status.
    Server {
        /// HTTP status.
        status: u16,
        /// Response body.
        body: String,
    },
    /// The response body was not the expected JSON.
    Json(serde_json::Error),
}

/// The server used when none is given.
pub open spec fn default_server() -> Seq<char> {
    "http://localhost:5678"@
}

impl Credentials {
    /// Resolves credentials: the token must be given and not blank; the
    /// server defaults to `http://localhost:5678`.
    pub fn resolve(args: &TokimoAuthArgs) -> (r: Result<Credentials, CliError>)
        ensures
            (args.token is None || is_blank_text(args.token->Some_0@)) ==> r matches Err(CliError::MissingToken),
            (args.token is Some && !is_blank_text(args.token->Some_0@)) ==> ({
                &&& r matches Ok(c)
                &&& c.token@ == args.token->Some_0@
                &&& args.server is Some ==> c.server_url@ == args.server->Some_0@
                &&& args.server is None ==> c.server_url@ == default_server()
            }),
    {
        let token = match &args.token {
            Some(t) => {
                if is_blank(t.as_str()) {
                    return Err(CliError::MissingToken);
                }
                t.clone()
            },
            None => {
                return Err(CliError::MissingToken);
            },
        };
        let server_url = match &args.server {
            Some(s) => s.clone(),
            None => String::from_str("http://localhost:5678"),
        };
        Ok(Credentials { server_url, token })
    }
}

/// The base URL of an app's API: the server (without trailing `/`), then
/// `/api/apps/` and the app id.
pub open spec fn base_url_text(server: Seq<char>, app_id: Seq<char>) -> Seq<char> {
    trim_end_char(server, '/') + "/api/apps/"@ + app_id
}

/// Law: trimming a character off the end keeps a prefix of the text, drops
/// only copies of that character, and leaves no copy at the end; text that
/// does not end with it is kept whole.
pub proof fn lemma_trim_end_char(s: Seq<char>, c: char)
    ensures
        trim_end_char(s, c).len() <= s.len(),
        s.subrange(0, trim_end_char(s, c).len() as int) == trim_end_char(s, c),
        forall|k: int| trim_end_char(s, c).len() <= k < s.len() ==> s[k] == c,
        trim_end_char(s, c).len() > 0 ==> trim_end_char(s, c).last() != c,
        !(s.len() > 0 && s.last() == c) ==> trim_end_char(s, c) == s,
    decreases s.len(),
{
    if s.len() > 0 && s.last() == c {
        let t = s.drop_last();
        lemma_trim_end_char(t, c);
        assert(s.subrange(0, trim_end_char(t, c).len() as int) =~= t.subrange(0, trim_end_char(t, c).len() as int));
        assert forall|k: int| trim_end_char(s, c).len() <= k < s.len() implies s[k] == c by {
            if k < t.len() {
                assert(s[k] == t[k]);
            }
        }
    } else {
        assert(s.subrange(0, s.len() as int) =~= s);
    }
}

/// Law: the base URL is the server URL with only its trailing `/`s removed,
/// then `/api/apps/` and the app id; a server URL that does not end in `/`
/// is kept whole.
pub proof fn lemma_base_url_keeps_server(server: Seq<char>, app_id: Seq<char>)
    ensures
        !(server.len() > 0 && server.last() == '/') ==> base_url_text(server, app_id) == server + "/api/apps/"@
            + app_id,
        ({
            let kept = trim_end_char(server, '/');
            &&& server.subrange(0, kept.len() as int) == kept
            &&& forall|k: int| kept.len() <= k < server.len() ==> server[k] == '/'
            &&& kept.len() > 0 ==> kept.last() != '/'
            &&& base_url_text(server, app_id) == kept + "/api/apps/"@ + app_id
        }),
{
    lemma_trim_end_char(server, '/');
}

/// The URL of `path` under a base URL: the path's leading `/`s are dropped.
pub open spec fn url_text(base: Seq<char>, path: Seq<char>) -> Seq<char> {
    base + seq!['/'] + trim_start_char(path, '/')
}

/// Addressing of the Tokimo app API: the app id, its base URL and the
/// bearer token sent with every request.
#[derive(Debug, Clone)]
pub struct Client {
    app_id: String,
    base_url: String,
    token: String,
}

impl Client {
    /// The app id.
    pub closed spec fn app_id_view(&self) -> Seq<char> {
        self.app_id@
    }

    /// The base URL.
    pub closed spec fn base_url_view(&self) -> Seq<char> {
        self.base_url@
    }

    /// The bearer token.
    pub closed spec fn token_view(&self) -> Seq<char> {
        self.token@
    }

    /// A client for `app_id`, based at `{server}/api/apps/{app_id}`.
    pub fn new(app_id: String, credentials: Credentials) -> (c: Client)
        ensures
            c.app_id_view() == app_id@,
            c.base_url_view() == base_url_text(credentials.server_url@, app_id@),
            c.token_view() == credentials.token@,
    {
        let server = trim_end_matches_char(credentials.server_url.as_str(), '/');
        let mut base_url = concat_str(server.as_str(), "/api/apps/");
        base_url.append(app_id.as_str());
        Client { app_id, base_url, token: credentials.token }
    }

    /// The app id this client is bound to.
    pub fn app_id(&self) -> (s: &str)
        ensures
            s@ == self.app_id_view(),
    {
        self.app_id.as_str()
    }

    /// The bearer token.
    pub fn token(&self) -> (s: &str)
        ensures
            s@ == self.token_view(),
    {
        self.token.as_str()
    }

    /// The full URL of `path` under this app's API.
    pub fn url(&self, path: &str) -> (u: String)
        ensures
            u@ == url_text(self.base_url_view(), path@),
    {
        let rest = trim_start_matches_char(path, '/');
        let mut u = self.base_url.clone();
        crate::text::push_char(&mut u, '/');
        u.append(rest.as_str());
        assert(u@ =~= url_text(self.base_url_view(), path@));
        u
    }
}

/// Whether an HTTP status counts as success (2xx).
pub fn status_is_success(status: u16) -> (r: bool)
    ensures
        r == (200 <= status && status <= 299),
{
    200 <= status && status <= 299
}

/// The error of a response with a non-success status and its body.
pub fn server_error(status: u16, body: String) -> (e: CliError)
    ensures
        e matches CliError::Server { status: s, body: b } && s == status && b == body,
{
    CliError::Server { status, body }
}

} // verus!

verus! {

/// `uuid::Uuid`, carried opaquely.
#[verifier::external_type_specification]
#[verifier::external_body]
pub struct ExUuid(uuid::Uuid);

/// `sea_orm::DbErr`, carried opaquely.
#[verifier::external_type_specification]
#[verifier::external_body]
pub struct ExDbErr(sea_orm::DbErr);

/// An instant, as seconds since the Unix epoch and nanoseconds within the
/// second.
#[derive(Debug, Clone, Copy, PartialEq, Eq, Structural)]
pub struct Timestamp {
    /// Whole seconds since the epoch (negative before it).
    pub secs: i64,
    /// Nanoseconds within the second, below 1 000 000 000.
    pub nanos: u32,
}

/// Whether `a` lies strictly before `b`.
pub open spec fn earlier(a: Timestamp, b: Timestamp) -> bool {
    a.secs < b.secs || (a.secs == b.secs && a.nanos < b.nanos)
}

/// The stored facts of an API key that key verification reads.
#[derive(Debug, Clone, Copy)]
pub struct ApiKeyRecord {
    /// The key's id.
    pub id: uuid::Uuid,
    /// Its owner.
    pub user_id: uuid::Uuid,
    /// When it stops being valid, if ever.
    pub expires_at: Option<Timestamp>,
}

/// The user behind a valid API key.
#[derive(Debug, Clone, Copy)]
pub struct VerifiedUser {
    /// The key's owner.
    pub user_id: uuid::Uuid,
    /// The key's id.
    pub api_key_id: uuid::Uuid,
}

/// Errors of API-key authentication.
#[derive(Debug)]
pub enum AuthError {
    /// The database URL is not configured.
    MissingDatabaseUrl(String),
    /// The database could not be reached.
    Connect(sea_orm::DbErr),
    /// No key with this token exists.
    InvalidToken,
    /// The key has expired.
    Expired,
}

/// Checks the key found for a token at time `now`: no key is
/// `InvalidToken`; a key whose expiry lies before `now` is `Expired`;
/// otherwise the key's owner is verified.
pub fn check_api_key(key: Option<ApiKeyRecord>, now: Timestamp) -> (r: Result<VerifiedUser, AuthError>)
    ensures
        key is None ==> r matches Err(AuthError::InvalidToken),
        (key matches Some(k) && k.expires_at matches Some(e) && earlier(e, now)) ==> r matches Err(
            AuthError::Expired,
        ),
        (key matches Some(k) && !(k.expires_at matches Some(e) && earlier(e, now))) ==> (r matches Ok(u)
            && u.user_id == key->Some_0.user_id && u.api_key_id == key->Some_0.id),
{
    let k = match key {
        Some(k) => k,
        None => {
            return Err(AuthError::InvalidToken);
        },
    };
    match k.expires_at {
        Some(e) => {
            if e.secs < now.secs || (e.secs == now.secs && e.nanos < now.nanos) {
                return Err(AuthError::Expired);
            }
        },
        None => {},
    }
    Ok(VerifiedUser { user_id: k.user_id, api_key_id: k.id })
}

/// What the user is told when the database URL is not configured.
pub open spec fn missing_database_url_text() -> Seq<char> {
    "DATABASE_URL not found. Add it to a .env file or set the DATABASE_URL environment variable."@
}

/// The database URL, if one was configured.
pub fn database_url(configured: Option<String>) -> (r: Result<String, AuthError>)
    ensures
        configured is Some ==> (r matches Ok(u) && u == configured->Some_0),
        configured is None ==> (r matches Err(AuthError::MissingDatabaseUrl(m)) && m@
            == missing_database_url_text()),
{
    match configured {
        Some(u) => Ok(u),
        None => Err(
            AuthError::MissingDatabaseUrl(
                String::from_str(
                    "DATABASE_URL not found. Add it to a .env file or set the DATABASE_URL environment variable.",
                ),
            ),
        ),
    }
}

} // verus!
