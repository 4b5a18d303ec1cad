//! Error values of the server and the watcher, and the JSON error body that
//! the server answers with.
use crate::permissions::hex_digit;
use vstd::prelude::*;
use vstd::string::*;

verus! {

pub const OK: u16 = 200;

pub const CREATED: u16 = 201;

pub const NO_CONTENT: u16 = 204;

pub const SEE_OTHER: u16 = 303;

pub const BAD_REQUEST: u16 = 400;

pub const UNAUTHORIZED: u16 = 401;

pub const NOT_FOUND: u16 = 404;

pub const INTERNAL_SERVER_ERROR: u16 = 500;

pub const NOT_IMPLEMENTED: u16 = 501;

pub const BAD_GATEWAY: u16 = 502;

/// What `serde_json` writes for the character `c` inside a JSON string:
/// a quote and a backslash get a backslash before them, the control
/// characters with a short escape (backspace, tab, line feed, form feed,
/// carriage return) get it, the other control characters are written as
/// `\u00` and two lowercase hexadecimal digits, and every other character
/// stands for itself.
pub open spec fn json_escape(c: char) -> Seq<char> {
    if c == '"' {
        seq!['\\', '"']
    } else if c == '\\' {
        seq!['\\', '\\']
    } else if c as u32 == 8 {
        seq!['\\', 'b']
    } else if c == '\t' {
        seq!['\\', 't']
    } else if c == '\n' {
        seq!['\\', 'n']
    } else if c as u32 == 12 {
        seq!['\\', 'f']
    } else if c == '\r' {
        seq!['\\', 'r']
    } else if (c as u32) < 32 {
        seq!['\\', 'u', '0', '0', hex_digit((c as u32 / 16) as nat), hex_digit((c as u32 % 16) as nat)]
    } else {
        seq![c]
    }
}

/// The characters of `s`, each as `json_escape` writes it.
pub open spec fn json_escaped(s: Seq<char>) -> Seq<char>
    decreases s.len(),
{
    if s.len() == 0 {
        Seq::empty()
    } else {
        json_escaped(s.drop_last()) + json_escape(s.last())
    }
}

/// What `serde_json` writes for a JSON string holding `s`: `s` with its
/// characters escaped, between double quotes.
pub open spec fn json_string(s: Seq<char>) -> Seq<char> {
    seq!['"'] + json_escaped(s) + seq!['"']
}

/// Text without a quote, a backslash or a control character is written
/// as it is, between double quotes; the escaped form of a text is the
/// escaped forms of its parts, one after the other.
pub proof fn lemma_plain_json(s: Seq<char>, t: Seq<char>)
    ensures
        (forall|i: int| 0 <= i < s.len() ==> s[i] != '"' && s[i] != '\\' && (s[i] as u32) >= 32)
            ==> json_escaped(s) == s && json_string(s) == seq!['"'] + s + seq!['"'],
        json_escaped(s + t) == json_escaped(s) + json_escaped(t),
{
    if forall|i: int| 0 <= i < s.len() ==> s[i] != '"' && s[i] != '\\' && (s[i] as u32) >= 32 {
        lemma_plain_json_rec(s);
    }
    lemma_json_concat(s, t);
}

proof fn lemma_plain_json_rec(s: Seq<char>)
    requires
        forall|i: int| 0 <= i < s.len() ==> s[i] != '"' && s[i] != '\\' && (s[i] as u32) >= 32,
    ensures
        json_escaped(s) == s,
    decreases s.len(),
{
    if s.len() > 0 {
        lemma_plain_json_rec(s.drop_last());
        let c = s.last();
        assert(c == s[s.len() - 1]);
        assert(json_escape(c) == seq![c]);
        assert(s.drop_last() + seq![c] =~= s);
    }
}

proof fn lemma_json_concat(s: Seq<char>, t: Seq<char>)
    ensures
        json_escaped(s + t) == json_escaped(s) + json_escaped(t),
    decreases t.len(),
{
    if t.len() == 0 {
        assert(s + t =~= s);
        assert(json_escaped(t) =~= Seq::<char>::empty());
        assert(json_escaped(s) + json_escaped(t) =~= json_escaped(s));
    } else {
        lemma_json_concat(s, t.drop_last());
        assert((s + t).drop_last() =~= s + t.drop_last());
        assert((s + t).last() == t.last());
        assert(json_escaped(s) + json_escaped(t.drop_last()) + json_escape(t.last()) =~= json_escaped(
            s,
        ) + (json_escaped(t.drop_last()) + json_escape(t.last())));
    }
}

/// Calls `serde_json::to_string` on a `&str`.  The crate writes the string
/// between double quotes, escaping each character as `json_escape` states;
/// serializing a `str` into a `String` cannot fail in `serde_json`.
#[verifier::external_body]
fn json_quote(s: &str) -> (r: String)
    ensures
        r@ == json_string(s@),
{
    serde_json::to_string(s).unwrap()
}

/// The body `{"detail":<quoted>}` around an already quoted JSON string.
pub open spec fn detail_json(quoted: Seq<char>) -> Seq<char> {
    "{\"detail\":"@ + quoted + "}"@
}

/// Builds `{"detail":<quoted>}`, the body of an error answer, from the JSON
/// string literal `quoted`.
pub fn detail_body(quoted: &str) -> (r: String)
    ensures
        r@ == detail_json(quoted@),
{
    let head = "{\"detail\":".to_owned();
    let with_value = head.concat(quoted);
    with_value.concat("}")
}

/// An error answer: a status code and a JSON body (or an empty body).
#[derive(Debug, Clone)]
pub struct ResponseError {
    status: u16,
    body: String,
}

impl ResponseError {
    /// The body of an error with the given detail.
    pub open spec fn body_for(detail: Option<Seq<char>>) -> Seq<char> {
        match detail {
            Some(d) => detail_json(json_string(d)),
            None => Seq::empty(),
        }
    }

    pub closed spec fn spec_status(&self) -> u16 {
        self.status
    }

    pub closed spec fn spec_body(&self) -> Seq<char> {
        self.body@
    }

    /// An error with `status` whose body is `{"detail": detail}`, or empty
    /// when there is no detail.
    pub fn new(status: u16, detail: Option<&str>) -> (r: Self)
        ensures
            r.spec_status() == status,
            r.spec_body() == Self::body_for(
                match detail {
                    Some(d) => Some(d@),
                    None => None,
                },
            ),
    {
        let body = match detail {
            Some(d) => {
                let quoted = json_quote(d);
                detail_body(quoted.as_str())
            },
            None => String::new(),
        };
        ResponseError { status, body }
    }

    /// A bad request naming the part of the request that did not parse.
    pub fn parse_error(err: ParseError) -> (r: Self)
        ensures
            r.spec_status() == BAD_REQUEST,
            r.spec_body() == Self::body_for(Some(err.name())),
    {
        Self::new(BAD_REQUEST, Some(err.as_ref()))
    }

    /// The answer for a route that exists but does nothing yet.
    pub fn unimplemented() -> (r: Self)
        ensures
            r.spec_status() == NOT_IMPLEMENTED,
            r.spec_body() == Self::body_for(Some("This function is not implemented yet"@)),
    {
        Self::new(NOT_IMPLEMENTED, Some("This function is not implemented yet"))
    }

    pub fn status(&self) -> (s: u16)
        ensures
            s == self.spec_status(),
    {
        self.status
    }

    pub fn body(&self) -> (b: &str)
        ensures
            b@ == self.spec_body(),
    {
        self.body.as_str()
    }
}

/// The part of a request that failed to parse.
#[derive(Debug, Clone, Copy, PartialEq, Eq)]
pub enum ParseError {
    Path,
    Param,
    Json,
    Query,
}

impl ParseError {
    pub open spec fn name(self) -> Seq<char> {
        match self {
            ParseError::Path => "Path"@,
            ParseError::Param => "Param"@,
            ParseError::Json => "Json"@,
            ParseError::Query => "Query"@,
        }
    }

    pub open spec fn text(self) -> Seq<char> {
        match self {
            ParseError::Path => "Error parsing from entry valur to Path"@,
            ParseError::Param => "Error parsing from entry valur to Param"@,
            ParseError::Json => "Error parsing from entry valur to Json"@,
            ParseError::Query => "Error parsing from entry valur to Query"@,
        }
    }

    /// The short name of the part: "Path", "Param", "Json" or "Query".
    pub fn as_ref(&self) -> (s: &'static str)
        ensures
            s@ == self.name(),
    {
        match self {
            ParseError::Path => "Path",
            ParseError::Param => "Param",
            ParseError::Json => "Json",
            ParseError::Query => "Query",
        }
    }

    /// The text that `Display` shows.
    pub fn message(&self) -> (s: &'static str)
        ensures
            s@ == self.text(),
    {
        match self {
            ParseError::Path => "Error parsing from entry valur to Path",
            ParseError::Param => "Error parsing from entry valur to Param",
            ParseError::Json => "Error parsing from entry valur to Json",
            ParseError::Query => "Error parsing from entry valur to Query",
        }
    }
}

/// Failures of the document repository.
#[derive(Debug, Clone)]
pub enum RepositoryError {
    MongoDb(String),
    DocumentNotFound,
    DatabaseDefault,
    CollectionNotFound,
    DuplicateKey,
}

/// The code of a write error that breaks a unique index.
pub const DUPLICATE_KEY_CODE: i32 = 11000;

impl RepositoryError {
    /// Classifies a database error by the code of its write error, if it is
    /// one: a duplicate key, or any other failure described by `text`.
    pub fn from_write_code(write_code: Option<i32>, text: String) -> (r: Self)
        ensures
            write_code == Some(DUPLICATE_KEY_CODE) ==> r is DuplicateKey,
            write_code != Some(DUPLICATE_KEY_CODE) ==> r == RepositoryError::MongoDb(text),
    {
        match write_code {
            Some(code) if code == DUPLICATE_KEY_CODE => RepositoryError::DuplicateKey,
            _ => RepositoryError::MongoDb(text),
        }
    }

    pub open spec fn text(self) -> Seq<char> {
        match self {
            RepositoryError::MongoDb(e) => "Database Error: "@ + e@,
            RepositoryError::DocumentNotFound => "Document not found"@,
            RepositoryError::DatabaseDefault => "Database default not defined"@,
            RepositoryError::CollectionNotFound => "Collection not found"@,
            RepositoryError::DuplicateKey => "Duplicate key"@,
        }
    }

    /// The text that `Display` shows.
    pub fn message(&self) -> (s: String)
        ensures
            s@ == self.text(),
    {
        match self {
            RepositoryError::MongoDb(e) => "Database Error: ".to_owned().concat(e.as_str()),
            RepositoryError::DocumentNotFound => "Document not found".to_owned(),
            RepositoryError::DatabaseDefault => "Database default not defined".to_owned(),
            RepositoryError::CollectionNotFound => "Collection not found".to_owned(),
            RepositoryError::DuplicateKey => "Duplicate key".to_owned(),
        }
    }
}

impl ResponseError {
    /// The answer to a failure of the document repository: a failure of the
    /// database itself is an internal error whose detail is `Database
    /// error`; any other failure (a missing document, database or
    /// collection, or a duplicate key) is a bad request whose detail names
    /// it.
    pub fn from_repository(err: RepositoryError) -> (r: Self)
        ensures
            err is MongoDb ==> r.spec_status() == INTERNAL_SERVER_ERROR && r.spec_body()
                == Self::body_for(Some("Database error"@)),
            !(err is MongoDb) ==> r.spec_status() == BAD_REQUEST && r.spec_body() == Self::body_for(
                Some(err.text()),
            ),
    {
        match err {
            RepositoryError::MongoDb(_) => Self::new(INTERNAL_SERVER_ERROR, Some("Database error")),
            other => {
                let detail = other.message();
                Self::new(BAD_REQUEST, Some(detail.as_str()))
            },
        }
    }
}

/// Failures of the object store of the watcher.
#[derive(Debug, Clone)]
pub enum LsError {
    DuplicateKey,
    MongoDb(String),
}

/// The code that the object store reads as a duplicate key.
pub const LS_DUPLICATE_KEY_CODE: i32 = 1100;

impl LsError {
    /// Classifies a database error by the code of its write error, if any.
    pub fn from_write_code(write_code: Option<i32>, text: String) -> (r: Self)
        ensures
            write_code == Some(LS_DUPLICATE_KEY_CODE) ==> r is DuplicateKey,
            write_code != Some(LS_DUPLICATE_KEY_CODE) ==> r == LsError::MongoDb(text),
    {
        match write_code {
            Some(code) if code == LS_DUPLICATE_KEY_CODE => LsError::DuplicateKey,
            _ => LsError::MongoDb(text),
        }
    }

    /// The text that `Display` shows.
    pub fn message(&self) -> (s: String)
        ensures
            self is DuplicateKey ==> s@ == "Duplicate Key"@,
            self matches LsError::MongoDb(e) ==> s@ == e@,
    {
        match self {
            LsError::DuplicateKey => "Duplicate Key".to_owned(),
            LsError::MongoDb(e) => e.clone(),
        }
    }
}

/// The kinds of I/O failure that an upload tells apart.
#[derive(Debug, Clone, PartialEq, Eq)]
pub enum IoKind {
    WriteZero,
    StorageFull,
    UnexpectedEof,
    Other(String),
}

/// Failures while receiving an uploaded file.
#[derive(Debug, Clone)]
pub enum UploadError {
    MimeNotAllowed { file: String, mime: String },
    UnexpectedEof,
    WriteZero,
    FileNameNotFound,
    MimeNotFound(String),
    Multer(String),
    StorageFull,
    Io(String),
}

impl UploadError {
    /// The upload error for an I/O failure of the given kind.
    pub fn from_io_kind(kind: IoKind) -> (r: Self)
        ensures
            kind is WriteZero ==> r is WriteZero,
            kind is StorageFull ==> r is StorageFull,
            kind is UnexpectedEof ==> r is UnexpectedEof,
            kind matches IoKind::Other(t) ==> r == UploadError::Io(t),
    {
        match kind {
            IoKind::WriteZero => UploadError::WriteZero,
            IoKind::StorageFull => UploadError::StorageFull,
            IoKind::UnexpectedEof => UploadError::UnexpectedEof,
            IoKind::Other(t) => UploadError::Io(t),
        }
    }

    /// The upload error for a failure of the multipart reader.
    pub fn from_multer(text: String) -> (r: Self)
        ensures
            r == UploadError::Multer(text),
    {
        UploadError::Multer(text)
    }

    pub open spec fn text(self) -> Seq<char> {
        match self {
            UploadError::UnexpectedEof => "Unexpected EOF"@,
            UploadError::WriteZero => "Write 0 bytes"@,
            UploadError::FileNameNotFound => "File name not found"@,
            UploadError::MimeNotFound(file) => "File: "@ + file@ + " {Mime type is not present}"@,
            UploadError::MimeNotAllowed { file, mime } => "file: "@ + file@ + " { Mime "@ + mime@
                + " is not allowed }"@,
            UploadError::Multer(s) => "Multer error: "@ + s@,
            UploadError::StorageFull => "Storage full"@,
            UploadError::Io(s) => s@,
        }
    }

    /// The text that `Display` shows.
    pub fn message(&self) -> (s: String)
        ensures
            s@ == self.text(),
    {
        match self {
            UploadError::UnexpectedEof => "Unexpected EOF".to_owned(),
            UploadError::WriteZero => "Write 0 bytes".to_owned(),
            UploadError::FileNameNotFound => "File name not found".to_owned(),
            UploadError::MimeNotFound(file) => "File: ".to_owned().concat(file.as_str()).concat(
                " {Mime type is not present}",
            ),
            UploadError::MimeNotAllowed { file, mime } => "file: ".to_owned().concat(
                file.as_str(),
            ).concat(" { Mime ").concat(mime.as_str()).concat(" is not allowed }"),
            UploadError::Multer(s) => "Multer error: ".to_owned().concat(s.as_str()),
            UploadError::StorageFull => "Storage full".to_owned(),
            UploadError::Io(s) => s.clone(),
        }
    }
}

/// Failures of the creation rate limiter.
#[derive(Debug, Clone, Copy, PartialEq, Eq)]
pub enum CreateRateError {
    BucketEmpty,
    Update,
}

impl CreateRateError {
    /// The text that `Display` shows.
    pub fn message(&self) -> (s: &'static str)
        ensures
            *self == CreateRateError::BucketEmpty ==> s@ == "Bucket empty"@,
            *self == CreateRateError::Update ==> s@ == "Refill error"@,
    {
        match self {
            CreateRateError::BucketEmpty => "Bucket empty",
            CreateRateError::Update => "Refill error",
        }
    }
}

} // verus!
