use vstd::prelude::*;

verus! {

pub const STATUS_OK: u16 = 200;
pub const STATUS_CREATED: u16 = 201;
pub const STATUS_BAD_REQUEST: u16 = 400;
pub const STATUS_UNAUTHORIZED: u16 = 401;
pub const STATUS_NOT_FOUND: u16 = 404;
pub const STATUS_UNSUPPORTED_MEDIA_TYPE: u16 = 415;
pub const STATUS_UNPROCESSABLE_ENTITY: u16 = 422;
pub const STATUS_INTERNAL_SERVER_ERROR: u16 = 500;

/// The body and status of a reply: the data on success, a message otherwise.
#[derive(Clone, Debug)]
pub enum RequestResponse<T> {
    Success { data: T, code: u16 },
    Error { message: String, code: u16 },
}

impl<T> RequestResponse<T> {
    /// The reply for an outcome, with `codes.0` on success and `codes.1` on error.
    pub fn from_result(result: Result<T, String>, codes: (u16, u16)) -> (r: RequestResponse<T>)
        ensures
            result matches Ok(d) ==> r == (RequestResponse::Success { data: d, code: codes.0 }),
            result matches Err(m) ==> r == (RequestResponse::<T>::Error { message: m, code: codes.1 }),
    {
        match result {
            Ok(data) => RequestResponse::Success { data, code: codes.0 },
            Err(message) => RequestResponse::Error { message, code: codes.1 },
        }
    }

    /// The status of the reply.
    pub fn code(&self) -> (r: u16)
        ensures
            r == match self {
                RequestResponse::Success { code, .. } => *code,
                RequestResponse::Error { code, .. } => *code,
            },
    {
        match self {
            RequestResponse::Success { code, .. } => *code,
            RequestResponse::Error { code, .. } => *code,
        }
    }
}

/// Whether `r` is an error reply with this status and message.
pub open spec fn is_error_reply<T>(r: RequestResponse<T>, code: u16, message: Seq<char>) -> bool {
    r matches RequestResponse::Error { message: m, code: c } && c == code && m@ == message
}

/// The uniform error reply that stands in for a framework's own reply with the
/// given status, if it is one that is replaced: a rejected body becomes
/// "Invalid request body" (400), a missing route "Resource not found" (404).
pub fn remap_error_status(code: u16) -> (r: Option<RequestResponse<()>>)
    ensures
        (code == STATUS_UNPROCESSABLE_ENTITY || code == STATUS_BAD_REQUEST
            || code == STATUS_UNSUPPORTED_MEDIA_TYPE) ==> (r matches Some(e)
            && is_error_reply(e, STATUS_BAD_REQUEST, "Invalid request body"@)),
        code == STATUS_NOT_FOUND ==> (r matches Some(e)
            && is_error_reply(e, STATUS_NOT_FOUND, "Resource not found"@)),
        !(code == STATUS_UNPROCESSABLE_ENTITY || code == STATUS_BAD_REQUEST
            || code == STATUS_UNSUPPORTED_MEDIA_TYPE || code == STATUS_NOT_FOUND) ==> r is None,
{
    if code == STATUS_UNPROCESSABLE_ENTITY || code == STATUS_BAD_REQUEST
        || code == STATUS_UNSUPPORTED_MEDIA_TYPE {
        Some(RequestResponse::from_result(
            Err("Invalid request body".to_string()),
            (STATUS_OK, STATUS_BAD_REQUEST),
        ))
    } else if code == STATUS_NOT_FOUND {
        Some(RequestResponse::from_result(
            Err("Resource not found".to_string()),
            (STATUS_OK, STATUS_NOT_FOUND),
        ))
    } else {
        None
    }
}

/// The token handed out after a successful login.
#[derive(Clone, Debug)]
pub struct LoginResponse {
    pub token: String,
}

/// A login attempt for a given role.
pub struct LoginRequest {
    pub username: String,
    pub password: String,
    pub requested_role: Role,
}

/// A user as the user table holds it.
pub struct UserResponse {
    pub username: String,
    pub password: String,
    pub role: String,
}

/// A request to mark a report entry as seen.
pub struct ReportAcknowledgement {
    pub id: String,
}

/// An application role.
#[derive(PartialEq, Eq, Structural, Clone, Copy, Debug)]
pub enum Role {
    Admin,
    User,
}

/// The name of a role as tokens and the user table write it.
pub open spec fn role_name(r: Role) -> Seq<char> {
    match r {
        Role::Admin => "admin"@,
        Role::User => "user"@,
    }
}

/// Message for a name that is no role.
pub const INVALID_ROLE_MESSAGE: &'static str = "Not a valid application role";

impl TryFrom<&str> for Role {
    type Error = String;

    /// The role of this name; any other text is refused.
    fn try_from(value: &str) -> (r: Result<Role, String>)
        ensures
            value@ == "admin"@ ==> r == Ok::<Role, String>(Role::Admin),
            value@ == "user"@ ==> r == Ok::<Role, String>(Role::User),
            value@ != "admin"@ && value@ != "user"@ ==> (r matches Err(m) && m@ == INVALID_ROLE_MESSAGE@),
    {
        proof {
            reveal_strlit("admin");
            reveal_strlit("user");
            assert("user"@.len() != "admin"@.len());
        }
        let v = value.to_string();
        if v == "admin".to_string() {
            Ok(Role::Admin)
        } else if v == "user".to_string() {
            Ok(Role::User)
        } else {
            Err(INVALID_ROLE_MESSAGE.to_string())
        }
    }
}

impl vstd::std_specs::convert::TryFromSpecImpl<&str> for Role {
    /// The error is a fresh string, which a specification cannot name; the
    /// contract of `try_from` says what it holds.
    open spec fn obeys_try_from_spec() -> bool {
        false
    }

    open spec fn try_from_spec(v: &str) -> Result<Role, String> {
        arbitrary()
    }
}

impl From<Role> for String {
    /// The name of the role.
    fn from(value: Role) -> (r: String)
        ensures
            r@ == role_name(value),
    {
        match value {
            Role::Admin => "admin".to_string(),
            Role::User => "user".to_string(),
        }
    }
}

impl vstd::std_specs::convert::FromSpecImpl<Role> for String {
    /// The result is a fresh string, which a specification cannot name; the
    /// contract of `from` says what it holds.
    open spec fn obeys_from_spec() -> bool {
        false
    }

    open spec fn from_spec(v: Role) -> String {
        arbitrary()
    }
}

/// Whether a role is one of those that a route admits.
pub fn role_permitted(role: &str, allowed: &[&str]) -> (r: bool)
    ensures
        r <==> exists|i: int| 0 <= i < allowed@.len() && #[trigger] allowed@[i]@ == role@,
{
    let wanted = role.to_string();
    let mut i: usize = 0;
    while i < allowed.len()
        invariant
            i <= allowed@.len(),
            wanted@ == role@,
            forall|j: int| 0 <= j < i ==> #[trigger] allowed@[j]@ != role@,
        decreases allowed@.len() - i,
    {
        if allowed[i].to_string() == wanted {
            return true;
        }
        i = i + 1;
    }
    false
}

/// The reply to a request whose token is missing or invalid, or whose role the
/// route does not admit.
pub fn auth_failure() -> (r: RequestResponse<()>)
    ensures
        is_error_reply(r, STATUS_UNAUTHORIZED, "Invalid auth"@),
{
    RequestResponse::Error { message: "Invalid auth".to_string(), code: STATUS_UNAUTHORIZED }
}

/// The scheme word that precedes a token in an authorization header.
pub const BEARER_PREFIX: &'static str = "Bearer ";

/// The token of an authorization header value: what follows "Bearer ", if the
/// value starts with it.
pub fn bearer_token(header: &str) -> (r: Option<&str>)
    ensures
        header@.len() >= BEARER_PREFIX@.len()
            && header@.subrange(0, BEARER_PREFIX@.len() as int) == BEARER_PREFIX@
            ==> (r matches Some(t) && t@ == header@.subrange(BEARER_PREFIX@.len() as int, header@.len() as int)),
        !(header@.len() >= BEARER_PREFIX@.len()
            && header@.subrange(0, BEARER_PREFIX@.len() as int) == BEARER_PREFIX@) ==> r is None,
{
    let n = header.unicode_len();
    let k = BEARER_PREFIX.unicode_len();
    if n < k {
        return None;
    }
    let head = header.substring_char(0, k).to_string();
    if head == BEARER_PREFIX.to_string() {
        Some(header.substring_char(k, n))
    } else {
        None
    }
}

/// The reply to a login attempt: the token when the user was found, a client
/// error "Invalid user" when not, and a server error when the lookup failed.
pub fn login_reply(lookup: Result<Option<LoginResponse>, String>) -> (r: RequestResponse<LoginResponse>)
    ensures
        lookup matches Err(m) ==> is_error_reply(r, STATUS_INTERNAL_SERVER_ERROR, m@),
        lookup matches Ok(None) ==> is_error_reply(r, STATUS_BAD_REQUEST, "Invalid user"@),
        lookup matches Ok(Some(t)) ==> r == (RequestResponse::Success { data: t, code: STATUS_OK }),
{
    match lookup {
        Err(message) => RequestResponse::Error { message, code: STATUS_INTERNAL_SERVER_ERROR },
        Ok(None) => RequestResponse::Error { message: "Invalid user".to_string(), code: STATUS_BAD_REQUEST },
        Ok(Some(data)) => RequestResponse::Success { data, code: STATUS_OK },
    }
}

/// How long a login token stays valid, in milliseconds.
pub const TOKEN_LIFETIME_MILLIS: u64 = 86_400_000;

/// The expiry, in milliseconds since the epoch, of a token issued at
/// `now_millis`, or `None` where it does not fit in 64 bits.
pub fn token_expiry(now_millis: u64) -> (r: Option<u64>)
    ensures
        now_millis + TOKEN_LIFETIME_MILLIS <= u64::MAX ==> r == Some((now_millis + TOKEN_LIFETIME_MILLIS) as u64),
        now_millis + TOKEN_LIFETIME_MILLIS > u64::MAX ==> r is None,
{
    now_millis.checked_add(TOKEN_LIFETIME_MILLIS)
}

/// The longest prefix of a response body that is written to the log, in bytes.
pub const MAX_LOGGED_BODY: usize = 200;

/// How many leading bytes of a body of `len` bytes go to the log.
pub fn logged_length(len: usize) -> (r: usize)
    ensures
        r == if len > MAX_LOGGED_BODY { MAX_LOGGED_BODY } else { len },
{
    if len > MAX_LOGGED_BODY {
        MAX_LOGGED_BODY
    } else {
        len
    }
}

} // verus!
