//! Stored documents and request bodies of the server.
//!
//! Document ids are kept as their 24-digit hexadecimal text, and times as
//! Unix timestamps in seconds.
use vstd::prelude::*;
use vstd::string::*;

verus! {

/// The role of a user.
#[derive(Debug, Clone, Copy, PartialEq, Eq, Structural)]
pub enum Role {
    Admin,
    Productor,
}

impl Role {
    pub open spec fn text(self) -> Seq<char> {
        match self {
            Role::Admin => "Admin"@,
            Role::Productor => "Productor"@,
        }
    }

    /// The text that `Display` shows.
    pub fn message(&self) -> (s: &'static str)
        ensures
            s@ == self.text(),
    {
        match self {
            Role::Admin => "Admin",
            Role::Productor => "Productor",
        }
    }
}

/// The collection that holds documents of a type.
pub trait GetCollection {
    fn collection() -> &'static str;
}

/// A value that can be turned into a one-way hash.
pub trait Encrypt {
    type Error;

    type Response;

    fn encrypt(&self) -> Result<Self::Response, Self::Error>;
}

/// A television program of a channel.
#[derive(Debug, Clone)]
pub struct Program {
    pub name: String,
    pub path: String,
    pub icon_path: Option<String>,
}

/// The channel that a producer uploads for.
#[derive(Debug, Clone)]
pub struct Ch {
    pub name: String,
    pub number: i8,
    pub icon_path: Option<String>,
    pub description: Option<String>,
    pub program: Program,
}

/// A user account; `id` is the hexadecimal text of the document id.
#[derive(Debug, Clone)]
pub struct User {
    pub id: Option<String>,
    pub username: String,
    pub password: String,
    pub email: Option<String>,
    pub phone: Option<String>,
    pub role: Role,
    pub ch: Option<Ch>,
}

impl GetCollection for User {
    fn collection() -> (s: &'static str)
        ensures
            s@ == "users"@,
    {
        "users"
    }
}

/// The claims of a session token.
#[derive(Debug, Clone)]
pub struct Claims {
    pub sub: String,
    pub exp: i64,
    pub role: Role,
}

/// How long a session lasts, in seconds: two hours.
pub const SESSION_SECONDS: i64 = 7200;

/// Calls `time::OffsetDateTime::now_utc()` and reads its Unix timestamp.
/// Nothing is stated of the result: it is the clock's reading.
#[verifier::external_body]
pub(crate) fn unix_now() -> (t: i64) {
    time::OffsetDateTime::now_utc().unix_timestamp()
}

impl Claims {
    /// The expiry of a session opened at `now`.
    pub open spec fn expiry(now: i64) -> i64 {
        if now <= i64::MAX - SESSION_SECONDS {
            (now + SESSION_SECONDS) as i64
        } else {
            i64::MAX
        }
    }

    /// A session lasts two hours: it expires 7200 seconds after it opens,
    /// unless that passes the largest time, where it expires then; it never
    /// expires before it opens.
    pub proof fn lemma_expiry(now: i64)
        ensures
            now <= i64::MAX - 7200 ==> Self::expiry(now) == now + 7200,
            now > i64::MAX - 7200 ==> Self::expiry(now) == i64::MAX,
            Self::expiry(now) >= now,
    {
    }

    /// The claims of a session for `user` opened at time `now`: the user's
    /// id, an expiry two hours later, and the user's role.
    pub fn for_user_at(user: &User, now: i64) -> (c: Claims)
        requires
            user.id is Some,
        ensures
            c.sub@ == user.id->0@,
            c.exp == Self::expiry(now),
            c.role == user.role,
    {
        let sub = match &user.id {
            Some(id) => id.clone(),
            None => String::new(),
        };
        let exp = if now <= i64::MAX - SESSION_SECONDS {
            now + SESSION_SECONDS
        } else {
            i64::MAX
        };
        Claims { sub, exp, role: user.role }
    }

    /// The claims of a session for `user` opened now.
    pub fn from_user(user: User) -> (c: Claims)
        requires
            user.id is Some,
        ensures
            c.sub@ == user.id->0@,
            c.role == user.role,
    {
        let now = unix_now();
        Self::for_user_at(&user, now)
    }
}

/// Credentials sent to log in.
#[derive(Debug, Clone)]
pub struct UserEntry {
    pub username: String,
    pub password: String,
}

/// A request to create a user.
#[derive(Debug, Clone)]
pub struct NewUser {
    pub username: String,
    pub password: String,
    pub role: Role,
    pub email: Option<String>,
    pub phone: Option<String>,
}

impl NewUser {
    /// The user document for a creation request: a new user is always a
    /// producer without a channel, whatever role the request names.
    pub fn into_user(self) -> (u: User)
        ensures
            u.id is None,
            u.username == self.username,
            u.password == self.password,
            u.email == self.email,
            u.phone == self.phone,
            u.role == Role::Productor,
            u.ch is None,
    {
        User {
            id: None,
            username: self.username,
            password: self.password,
            email: self.email,
            phone: self.phone,
            role: Role::Productor,
            ch: None,
        }
    }
}

/// A request to change a user.
#[derive(Debug, Clone)]
pub struct UpdateUser {
    pub username: Option<String>,
    pub password: Option<String>,
    pub role: Option<Role>,
}

/// The owner of a logged operation.
#[derive(Debug, Clone)]
pub struct Owner {
    pub username: String,
    pub src: String,
    pub role: Role,
}

/// The outcome of a logged operation.
#[derive(Debug, Clone)]
pub enum ResultOperation {
    Success,
    Fail(String),
}

/// What was uploaded.
#[derive(Debug, Clone)]
pub struct UploadLog {
    pub file_name: String,
    pub channel: String,
    pub program_tv: String,
    pub elapsed_upload: Option<u64>,
    pub size: usize,
}

/// A logged operation.
#[derive(Debug, Clone)]
pub enum Operation {
    Login,
    Upload { result: ResultOperation, detail: UploadLog },
    Download { result: ResultOperation, detail: String },
    Rename { result: ResultOperation, detail: String },
    Delete { result: ResultOperation, detail: String },
    Take { result: ResultOperation, detail: String },
    Any,
}

impl Operation {
    /// The default operation.
    pub fn default_operation() -> (o: Operation)
        ensures
            o is Any,
    {
        Operation::Any
    }
}

/// A log entry; `id` is the hexadecimal text of the document id and `at`
/// the Unix timestamp of the entry.
#[derive(Debug, Clone)]
pub struct Logs {
    pub id: Option<String>,
    pub at: i64,
    pub operation: Operation,
    pub owner: Owner,
}

impl GetCollection for Logs {
    fn collection() -> (s: &'static str)
        ensures
            s@ == "logs"@,
    {
        "logs"
    }
}

impl Logs {
    /// The log entry of an operation by `user` from the address `src`,
    /// taken now.
    pub fn new_from_user(user: &User, src: String, operation: Operation) -> (l: Logs)
        ensures
            l.owner.username == user.username,
            l.owner.src == src,
            l.owner.role == user.role,
            l.id is None,
            l.operation == operation,
    {
        let at = unix_now();
        Self::new_from_user_at(user, src, at, operation)
    }

    /// The log entry of an operation by `user` from the address `src`,
    /// taken at time `at`.
    pub fn new_from_user_at(user: &User, src: String, at: i64, operation: Operation) -> (l: Logs)
        ensures
            l.owner.username == user.username,
            l.owner.src == src,
            l.owner.role == user.role,
            l.id is None,
            l.at == at,
            l.operation == operation,
    {
        Logs {
            owner: Owner { username: user.username.clone(), src, role: user.role },
            id: None,
            at,
            operation,
        }
    }
}

/// The uploader recorded with a file.
#[derive(Debug, Clone)]
pub struct FileOwner {
    pub username: String,
    pub ip_src: String,
    pub role: Role,
}

/// The record of an uploaded file.
#[derive(Debug, Clone)]
pub struct FileLog {
    pub id: Option<String>,
    pub create_at: i64,
    pub file_name: String,
    pub channel: String,
    pub program_tv: String,
    pub elapsed_upload: Option<u64>,
    pub owner: FileOwner,
    pub size: usize,
}

impl GetCollection for FileLog {
    fn collection() -> (s: &'static str)
        ensures
            s@ == "files"@,
    {
        "files"
    }
}

} // verus!
