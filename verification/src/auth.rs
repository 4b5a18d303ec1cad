//! Sessions and passwords: the session cookie, password hashes and the
//! checks made before a login or an upload.
use crate::errors::{ResponseError, BAD_REQUEST, INTERNAL_SERVER_ERROR, UNAUTHORIZED};
use crate::models::{unix_now, Claims, Encrypt, Role, UpdateUser, User};
use crate::text::{
    decimal, decimal_string, free_of, has_prefix, lemma_split_first, lemma_split_free, split,
    split_exec, split_nth, split_nth_exec, starts_with, str_eq, views,
};
use vstd::prelude::*;
use vstd::string::*;

verus! {

/// The name of the cookie that carries the session token.
pub open spec fn jwt_name() -> Seq<char> {
    "JWT"@
}

/// The index of the first piece, at or after `from`, that starts with
/// `prefix`.
pub open spec fn first_with_prefix(pieces: Seq<Seq<char>>, prefix: Seq<char>, from: int) -> Option<
    int,
>
    decreases pieces.len() - from,
{
    if from < 0 || from >= pieces.len() {
        None
    } else if has_prefix(pieces[from], prefix) {
        Some(from)
    } else {
        first_with_prefix(pieces, prefix, from + 1)
    }
}

/// The session token in a `Cookie` header: in the first `;`-separated
/// piece that starts with `JWT`, the text after its first `=` (up to a
/// second `=`).
pub open spec fn cookie_token(cookie: Seq<char>) -> Option<Seq<char>> {
    let pieces = split(cookie, ";"@);
    match first_with_prefix(pieces, jwt_name(), 0) {
        Some(k) => split_nth(pieces[k], "="@, 1),
        None => None,
    }
}

/// Reads the session token out of a `Cookie` header value.
pub fn token_from_cookie(cookie: &str) -> (r: Option<String>)
    ensures
        match r {
            Some(t) => cookie_token(cookie@) == Some(t@),
            None => cookie_token(cookie@) is None,
        },
{
    proof {
        reveal_strlit(";");
        reveal_strlit("=");
        reveal_strlit("JWT");
    }
    let pieces = split_exec(cookie, ";");
    let ghost ps = views(pieces@);
    let mut k: usize = 0;
    while k < pieces.len()
        invariant
            ps == views(pieces@),
            ps == split(cookie@, ";"@),
            k <= pieces@.len(),
            first_with_prefix(ps, jwt_name(), 0) == first_with_prefix(ps, jwt_name(), k as int),
        decreases pieces.len() - k,
    {
        assert(ps[k as int] == pieces@[k as int]@);
        proof {
            reveal_strlit("=");
        }
        if starts_with(pieces[k].as_str(), "JWT") {
            return split_nth_exec(pieces[k].as_str(), "=", 1);
        }
        k += 1;
    }
    None
}

/// The `Set-Cookie` value of a session with `token`.
pub open spec fn session_cookie_text(token: Seq<char>) -> Seq<char> {
    jwt_name() + "="@ + token + "; HttpOnly; Secure; SameSite="@ + "Strict"@ + "; Path=/; Max-Age="@
        + decimal(7200)
}

/// The session cookie for `token`: HTTP only, secure, same-site strict, for
/// the whole site, for two hours.
pub fn session_cookie(token: &str) -> (c: String)
    ensures
        c@ == session_cookie_text(token@),
{
    proof {
        reveal_strlit("JWT");
    }
    let age = decimal_string(7200);
    "JWT".to_owned().concat("=").concat(token).concat("; HttpOnly; Secure; SameSite=").concat(
        "Strict",
    ).concat("; Path=/; Max-Age=").concat(age.as_str())
}

/// The cookie set at login carries the token back: reading the session
/// token out of the cookie of a token gives that token, for any token
/// without `;` or `=` (a JSON web token has neither).
pub proof fn lemma_session_cookie_round_trip(token: Seq<char>)
    requires
        free_of(token, ';'),
        free_of(token, '='),
    ensures
        cookie_token(session_cookie_text(token)) == Some(token),
{
    reveal_strlit("JWT");
    reveal_strlit("=");
    reveal_strlit(";");
    reveal_strlit("; HttpOnly; Secure; SameSite=");
    let first = "JWT"@ + "="@ + token;
    let tail = "; HttpOnly; Secure; SameSite="@.subrange(1, 29) + "Strict"@ + "; Path=/; Max-Age="@
        + decimal(7200);
    assert("; HttpOnly; Secure; SameSite="@ =~= seq![';'] + "; HttpOnly; Secure; SameSite="@.subrange(
        1,
        29,
    ));
    let cookie = session_cookie_text(token);
    assert(cookie =~= first + seq![';'] + tail);
    assert(free_of(first, ';')) by {
        assert forall|i: int| 0 <= i < first.len() implies first[i] != ';' by {
            if i >= 4 {
                assert(first[i] == token[i - 4]);
            }
        }
    }
    lemma_split_first(first, ';', tail);
    assert(";"@ =~= seq![';']);
    let pieces = split(cookie, ";"@);
    assert(pieces[0] == first);
    assert(has_prefix(first, jwt_name())) by {
        assert(first.subrange(0, 3) =~= "JWT"@);
    }
    assert(first_with_prefix(pieces, jwt_name(), 0) == Some(0int));
    assert(first =~= "JWT"@ + seq!['='] + token);
    assert(free_of("JWT"@, '='));
    lemma_split_first("JWT"@, '=', token);
    lemma_split_free(token, '=');
    assert("="@ =~= seq!['=']);
    assert(split(first, "="@) =~= seq!["JWT"@, token]);
}

/// What `bcrypt::verify(password, hash)` gives: `Some(b)` for `Ok(b)`,
/// `None` for an error.
pub uninterp spec fn bcrypt_verdict(password: Seq<char>, hash: Seq<char>) -> Option<bool>;

/// Calls `bcrypt::verify` on the bytes of `password` and the stored hash.
/// Its result is a function of the two (named `bcrypt_verdict`); a hash
/// that is not 60 characters long is rejected by the crate as malformed.
#[verifier::external_body]
fn bcrypt_verify(password: &str, hash: &str) -> (r: Option<bool>)
    ensures
        r == bcrypt_verdict(password@, hash@),
        hash@.len() != 60 ==> r is None,
{
    bcrypt::verify(password, hash).ok()
}

/// A character of bcrypt's base-64 alphabet: `.`, `/`, a letter or a
/// digit.
pub open spec fn bcrypt_b64_char(c: char) -> bool {
    c == '.' || c == '/' || ('A' <= c && c <= 'Z') || ('a' <= c && c <= 'z') || ('0' <= c && c
        <= '9')
}

/// The form of a bcrypt hash at cost 12: `$2b$12$`, then 53 characters of
/// bcrypt's base-64 alphabet (the salt and the digest).
pub open spec fn bcrypt_hash_form(h: Seq<char>) -> bool {
    &&& h.len() == 60
    &&& h.subrange(0, 7) == "$2b$12$"@
    &&& forall|i: int| 7 <= i < 60 ==> #[trigger] bcrypt_b64_char(h[i])
}

/// Calls `bcrypt::hash` with the crate's default cost (12).  The salt is
/// random, so the result is not a function of the password; the contract
/// states what the crate's source shows of every outcome: the hash has the
/// form `$2b$12$` and 53 characters of bcrypt's base-64 alphabet, and
/// `bcrypt::verify` accepts the same password against it.  An error (the
/// system's randomness failing) is `None`.
#[verifier::external_body]
fn bcrypt_hash(password: &str) -> (r: Option<String>)
    ensures
        r matches Some(h) ==> bcrypt_hash_form(h@) && bcrypt_verdict(password@, h@) == Some(true),
{
    bcrypt::hash(password, bcrypt::DEFAULT_COST).ok()
}

/// Whether `password` matches the stored `hash`; a malformed hash matches
/// nothing.
pub fn check_password(password: &str, hash: &str) -> (b: bool)
    ensures
        b == (bcrypt_verdict(password@, hash@) == Some(true)),
        hash@.len() != 60 ==> !b,
{
    match bcrypt_verify(password, hash) {
        Some(v) => v,
        None => false,
    }
}

/// The error answer when a password cannot be hashed.
pub open spec fn hashing_failed(e: ResponseError) -> bool {
    e.spec_status() == INTERNAL_SERVER_ERROR && e.spec_body() == ResponseError::body_for(
        Some("Error to hashing the value"@),
    )
}

impl Encrypt for String {
    type Error = ResponseError;

    type Response = String;

    /// Hashes the password with bcrypt at cost 12.  A hash that comes back
    /// has bcrypt's form, so it differs from any password not of that form,
    /// and it verifies against the same password.
    fn encrypt(&self) -> (r: Result<String, ResponseError>)
        ensures
            r matches Ok(h) ==> bcrypt_hash_form(h@) && bcrypt_verdict(self@, h@) == Some(true),
            r matches Ok(h) ==> (!bcrypt_hash_form(self@) ==> h@ != self@),
            r matches Err(e) ==> hashing_failed(e),
    {
        match bcrypt_hash(self.as_str()) {
            Some(h) => Ok(h),
            None => Err(ResponseError::new(INTERNAL_SERVER_ERROR, Some("Error to hashing the value"))),
        }
    }
}

/// The answer to wrong credentials.
pub fn wrong_credentials() -> (e: ResponseError)
    ensures
        e.spec_status() == UNAUTHORIZED,
        e.spec_body() == ResponseError::body_for(Some("Username or password error"@)),
{
    ResponseError::new(UNAUTHORIZED, Some("Username or password error"))
}

/// The fields that a user update sets, in order: the new password hash,
/// then the new name.  A hashing failure is an internal error.
pub fn update_fields(update: UpdateUser) -> (r: Result<Vec<(String, String)>, ResponseError>)
    ensures
        match r {
            Ok(fields) => {
                &&& update.password is None ==> fields@.len() == (if update.username is Some {
                    1int
                } else {
                    0int
                })
                &&& update.password matches Some(p) ==> fields@.len() >= 1 && fields@[0].0@
                    == "password"@ && bcrypt_verdict(p@, fields@[0].1@) == Some(true)
                &&& update.username matches Some(name) ==> fields@.len() >= 1 && fields@.last().0@
                    == "username"@ && fields@.last().1@ == name@
                &&& fields@.len() == (if update.password is Some {
                    1int
                } else {
                    0int
                }) + (if update.username is Some {
                    1int
                } else {
                    0int
                })
            },
            Err(e) => update.password is Some && e.spec_status() == INTERNAL_SERVER_ERROR
                && e.spec_body() == ResponseError::body_for(
                Some("error to hashing the password"@),
            ),
        },
{
    let mut fields: Vec<(String, String)> = Vec::new();
    if let Some(pass) = &update.password {
        match pass.encrypt() {
            Ok(h) => {
                fields.push(("password".to_owned(), h));
            },
            Err(_) => {
                return Err(
                    ResponseError::new(INTERNAL_SERVER_ERROR, Some("error to hashing the password")),
                );
            },
        }
    }
    if let Some(name) = update.username {
        fields.push(("username".to_owned(), name));
    }
    Ok(fields)
}

/// Whether `user` may upload to `program` of `channel`: an admin may upload
/// anywhere, anyone else only to the program of their own channel.
pub open spec fn may_upload(user: User, role: Role, channel: Seq<char>, program: Seq<char>) -> bool {
    (user.ch matches Some(ch) && ch.name@ == channel && ch.program.name@ == program) || role
        == Role::Admin
}

/// Checks that the user of a session may upload to `program` of `channel`.
pub fn authorize_upload(user: &User, role: Role, channel: &str, program: &str) -> (r: Result<
    (),
    ResponseError,
>)
    ensures
        r is Ok <==> may_upload(*user, role, channel@, program@),
        r matches Err(e) ==> e.spec_status() == BAD_REQUEST && e.spec_body()
            == ResponseError::body_for(
            Some("Channel name or program name is not belong to the user"@),
        ),
{
    let owns = match &user.ch {
        Some(ch) => str_eq(ch.name.as_str(), channel) && str_eq(ch.program.name.as_str(), program),
        None => false,
    };
    if !owns && role != Role::Admin {
        Err(
            ResponseError::new(
                BAD_REQUEST,
                Some("Channel name or program name is not belong to the user"),
            ),
        )
    } else {
        Ok(())
    }
}

/// The value of a hexadecimal digit, upper or lower case; -1 for any other
/// character.
pub open spec fn hex_value(c: char) -> int {
    if '0' <= c && c <= '9' {
        c as int - '0' as int
    } else if 'a' <= c && c <= 'f' {
        c as int - 'a' as int + 10
    } else if 'A' <= c && c <= 'F' {
        c as int - 'A' as int + 10
    } else {
        -1
    }
}

/// Whether `s` is the text of a document id: 24 hexadecimal digits.
pub open spec fn is_object_id_text(s: Seq<char>) -> bool {
    s.len() == 24 && forall|i: int| 0 <= i < 24 ==> #[trigger] hex_value(s[i]) >= 0
}

/// The 12 bytes that the 24 digits of `s` spell, two digits a byte, the
/// high digit first.
pub open spec fn object_id_bytes(s: Seq<char>) -> Seq<u8> {
    Seq::new(12, |i: int| (16 * hex_value(s[2 * i]) + hex_value(s[2 * i + 1])) as u8)
}

/// Calls `mongodb::bson::oid::ObjectId::parse_str` and hands back the 12
/// bytes of the id.  The crate hex-decodes the text (both cases of digit
/// accepted) and refuses it unless that gives exactly 12 bytes, so the
/// contract states the whole of its behaviour.
#[verifier::external_body]
fn parse_object_id(text: &str) -> (r: Option<Vec<u8>>)
    ensures
        r is Some <==> is_object_id_text(text@),
        r matches Some(b) ==> b@ == object_id_bytes(text@),
{
    match mongodb::bson::oid::ObjectId::parse_str(text) {
        Ok(oid) => Some(oid.bytes().to_vec()),
        Err(_) => None,
    }
}

/// The document id of the user of a session: the bytes that the claims'
/// subject spells, or an internal error when the subject is no document
/// id.
pub fn get_user_oid(claims: &Claims) -> (r: Result<Vec<u8>, ResponseError>)
    ensures
        r is Ok <==> is_object_id_text(claims.sub@),
        r matches Ok(b) ==> b@ == object_id_bytes(claims.sub@),
        r matches Err(e) ==> e.spec_status() == INTERNAL_SERVER_ERROR && e.spec_body()
            == ResponseError::body_for(Some("we cannot obtain your username"@)),
{
    match parse_object_id(claims.sub.as_str()) {
        Some(bytes) => Ok(bytes),
        None => Err(ResponseError::new(INTERNAL_SERVER_ERROR, Some("we cannot obtain your username"))),
    }
}

/// The account that a fresh database starts with: `admin`, whose password
/// hash verifies against `prueba`, with the admin role and no channel.
pub fn default_admin_user() -> (r: Result<User, ResponseError>)
    ensures
        r matches Ok(u) ==> {
            &&& u.id is None
            &&& u.username@ == "admin"@
            &&& bcrypt_verdict("prueba"@, u.password@) == Some(true)
            &&& u.email is None
            &&& u.phone is None
            &&& u.role == Role::Admin
            &&& u.ch is None
        },
        r matches Err(e) ==> hashing_failed(e),
{
    let password = "prueba".to_string();
    match password.encrypt() {
        Ok(hash) => Ok(
            User {
                id: None,
                username: "admin".to_string(),
                password: hash,
                email: None,
                phone: None,
                role: Role::Admin,
                ch: None,
            },
        ),
        Err(e) => Err(e),
    }
}

/// The token that `jsonwebtoken::encode` makes with an HS256 header and the
/// key `secret` for the claims `sub`, `exp` and `role`.
pub uninterp spec fn jwt_hs256(sub: Seq<char>, exp: i64, role: Seq<char>, secret: Seq<char>) -> Seq<
    char,
>;

/// The claims `(sub, exp, role)` of `token`, as `jsonwebtoken::decode`
/// reads them, when the token's HS256 signature under `secret` is valid and
/// its payload holds the three claims, leaving its expiry aside; `None`
/// otherwise.
pub uninterp spec fn jwt_payload(token: Seq<char>, secret: Seq<char>) -> Option<
    (Seq<char>, i64, Seq<char>),
>;

/// A character of a JSON web token: base64url (letters, digits, `-`, `_`)
/// or the `.` between its parts.
pub open spec fn jwt_char(c: char) -> bool {
    ('A' <= c && c <= 'Z') || ('a' <= c && c <= 'z') || ('0' <= c && c <= '9') || c == '-' || c
        == '_' || c == '.'
}

pub open spec fn jwt_text(token: Seq<char>) -> bool {
    forall|i: int| 0 <= i < token.len() ==> #[trigger] jwt_char(token[i])
}

/// Calls `jsonwebtoken::encode` with an HS256 header, the key made from
/// `secret`, and the claims `sub`, `exp` and `role` as a JSON object.  The
/// result is a function of the four (named `jwt_hs256`).  The crate's
/// source shows that with an HMAC key and an HMAC algorithm it cannot fail,
/// that it writes three base64url parts joined by dots, and that
/// `jsonwebtoken::decode` with the same key checks the signature and reads
/// the same claims back.
#[verifier::external_body]
fn jwt_encode(sub: &str, exp: i64, role: &str, secret: &str) -> (r: Option<String>)
    ensures
        r is Some,
        r matches Some(t) ==> t@ == jwt_hs256(sub@, exp, role@, secret@),
        r matches Some(t) ==> jwt_text(t@),
        r matches Some(t) ==> jwt_payload(t@, secret@) == Some((sub@, exp, role@)),
{
    let mut claims = serde_json::Map::new();
    claims.insert("sub".to_string(), serde_json::Value::from(sub));
    claims.insert("exp".to_string(), serde_json::Value::from(exp));
    claims.insert("role".to_string(), serde_json::Value::from(role));
    let header = jsonwebtoken::Header::new(jsonwebtoken::Algorithm::HS256);
    let key = jsonwebtoken::EncodingKey::from_secret(secret.as_bytes());
    jsonwebtoken::encode(&header, &claims, &key).ok()
}

/// Calls `jsonwebtoken::decode` with the key made from `secret` and the
/// validation of HS256 (which also refuses a token whose `exp` lies more
/// than a minute in the past, by the clock), and reads the claims `sub`,
/// `exp` and `role` out of the payload.  The expiry check rests on the
/// clock, so the contract states what holds of every outcome: no claims,
/// or the claims that the token carries.
#[verifier::external_body]
fn jwt_decode(token: &str, secret: &str) -> (r: Option<(String, i64, String)>)
    ensures
        r matches Some(c) ==> jwt_payload(token@, secret@) == Some((c.0@, c.1, c.2@)),
{
    let key = jsonwebtoken::DecodingKey::from_secret(secret.as_bytes());
    let validation = jsonwebtoken::Validation::new(jsonwebtoken::Algorithm::HS256);
    let data = jsonwebtoken::decode::<serde_json::Map<String, serde_json::Value>>(
        token,
        &key,
        &validation,
    ).ok()?;
    let sub = data.claims.get("sub")?.as_str()?.to_string();
    let exp = data.claims.get("exp")?.as_i64()?;
    let role = data.claims.get("role")?.as_str()?.to_string();
    Some((sub, exp, role))
}

/// The key that session tokens are signed with.
pub open spec fn session_secret() -> Seq<char> {
    "SECRET"@
}

/// The session cookie that a login hands out for `user` at time `now`.
pub open spec fn login_cookie(user: User, now: i64) -> Seq<char> {
    session_cookie_text(
        jwt_hs256(user.id->0@, Claims::expiry(now), user.role.text(), session_secret()),
    )
}

/// Whether `cookie` is a session cookie that was issued for the claims
/// `sub`, `exp` and `role`: its token is the one made for them, written in
/// the characters of a web token, and it reads those claims back.
pub open spec fn issued_session(cookie: Seq<char>, sub: Seq<char>, exp: i64, role: Role) -> bool {
    exists|token: Seq<char>|
        cookie == session_cookie_text(token) && token == jwt_hs256(
            sub,
            exp,
            role.text(),
            session_secret(),
        ) && jwt_text(token) && jwt_payload(token, session_secret()) == Some(
            (sub, exp, role.text()),
        )
}

/// The answer to a login with `password` for the stored `user` at time
/// `now`: a wrong password is refused with 401, a right one gets the
/// session cookie whose token carries the user's id, the expiry two hours
/// later and the user's role.
pub fn login_answer(user: &User, password: &str, now: i64) -> (r: Result<String, ResponseError>)
    requires
        user.id is Some,
    ensures
        bcrypt_verdict(password@, user.password@) != Some(true) ==> (r matches Err(e)
            && e.spec_status() == UNAUTHORIZED && e.spec_body() == ResponseError::body_for(
            Some("Username or password error"@),
        )),
        bcrypt_verdict(password@, user.password@) == Some(true) ==> (r matches Ok(c) && c@
            == login_cookie(*user, now) && issued_session(
            c@,
            user.id->0@,
            Claims::expiry(now),
            user.role,
        )),
{
    if !check_password(password, user.password.as_str()) {
        return Err(wrong_credentials());
    }
    let claims = Claims::for_user_at(user, now);
    let role = claims.role.message();
    match jwt_encode(claims.sub.as_str(), claims.exp, role, "SECRET") {
        Some(token) => {
            let cookie = session_cookie(token.as_str());
            assert(issued_session(cookie@, user.id->0@, Claims::expiry(now), user.role)) by {
                assert(cookie@ == session_cookie_text(token@));
            }
            Ok(cookie)
        },
        None => Err(ResponseError::new(INTERNAL_SERVER_ERROR, None)),
    }
}

/// The answer to a login now: `login_answer` at the clock's time.
pub fn login_session(user: &User, password: &str) -> (r: Result<String, ResponseError>)
    requires
        user.id is Some,
    ensures
        bcrypt_verdict(password@, user.password@) != Some(true) ==> (r matches Err(e)
            && e.spec_status() == UNAUTHORIZED && e.spec_body() == ResponseError::body_for(
            Some("Username or password error"@),
        )),
        bcrypt_verdict(password@, user.password@) == Some(true) ==> (r matches Ok(c) && exists|
            now: i64,
        | c@ == login_cookie(*user, now) && issued_session(
            c@,
            user.id->0@,
            Claims::expiry(now),
            user.role,
        )),
{
    let now = unix_now();
    login_answer(user, password, now)
}

/// The role that a session token names, by its text.
pub open spec fn role_named(text: Seq<char>) -> Option<Role> {
    if text == Role::Admin.text() {
        Some(Role::Admin)
    } else if text == Role::Productor.text() {
        Some(Role::Productor)
    } else {
        None
    }
}

fn role_from_text(text: &str) -> (r: Option<Role>)
    ensures
        r == role_named(text@),
{
    if str_eq(text, "Admin") {
        Some(Role::Admin)
    } else if str_eq(text, "Productor") {
        Some(Role::Productor)
    } else {
        None
    }
}

/// The claims of a decoded session token: its subject and expiry, and the
/// role its text names; no claims for a token that was not decoded or
/// names no known role.
pub open spec fn decoded_claims(d: Option<(String, i64, String)>) -> Option<Claims> {
    match d {
        Some((sub, exp, text)) => match role_named(text@) {
            Some(role) => Some(Claims { sub, exp, role }),
            None => None,
        },
        None => None,
    }
}

/// Turns what the token decoder gave (subject, expiry, role text) into
/// the claims of a session.
pub fn claims_from_decoded(d: Option<(String, i64, String)>) -> (r: Option<Claims>)
    ensures
        r == decoded_claims(d),
{
    match d {
        Some((sub, exp, text)) => match role_from_text(text.as_str()) {
            Some(role) => Some(Claims { sub, exp, role }),
            None => None,
        },
        None => None,
    }
}

/// The session of a request, read from its `Cookie` header: the token is
/// read out of the cookie and decoded (the decoder refuses a bad signature
/// and, by the clock, an expired token), and its claims are taken by
/// `claims_from_decoded`.  Without a token there is no session.
pub fn session_claims(cookie: &str) -> (r: Option<Claims>)
    ensures
        cookie_token(cookie@) is None ==> r is None,
        cookie_token(cookie@) matches Some(t) ==> exists|d: Option<(String, i64, String)>|
            (d matches Some(x) ==> jwt_payload(t, session_secret()) == Some((x.0@, x.1, x.2@)))
                && r == #[trigger] decoded_claims(d),
        r matches Some(c) ==> (cookie_token(cookie@) matches Some(t) && jwt_payload(
            t,
            session_secret(),
        ) == Some((c.sub@, c.exp, c.role.text()))),
{
    let token = match token_from_cookie(cookie) {
        Some(t) => t,
        None => {
            return None;
        },
    };
    let decoded = jwt_decode(token.as_str(), "SECRET");
    let ghost d = decoded;
    proof {
        reveal_strlit("Admin");
        reveal_strlit("Productor");
    }
    let r = claims_from_decoded(decoded);
    assert((d matches Some(x) ==> jwt_payload(token@, session_secret()) == Some(
        (x.0@, x.1, x.2@),
    )) && r == decoded_claims(d));
    r
}

/// A session that a login set is read back as that login's session: the
/// cookie's token is found, and any claims read from it are the user's
/// id, the login's expiry and the user's role.  Whether the read gives
/// claims at all rests on the decoder and the clock: it refuses an expired
/// token, and a token whose expiry is negative always.
pub proof fn lemma_session_round_trip(cookie: Seq<char>, sub: Seq<char>, exp: i64, role: Role)
    requires
        issued_session(cookie, sub, exp, role),
    ensures
        cookie_token(cookie) is Some,
        forall|c: Claims|
            (cookie_token(cookie) matches Some(t) && jwt_payload(t, session_secret()) == Some(
                (c.sub@, c.exp, c.role.text()),
            )) ==> c.sub@ == sub && c.exp == exp && c.role == role,
{
    let token = choose|token: Seq<char>|
        cookie == session_cookie_text(token) && token == jwt_hs256(
            sub,
            exp,
            role.text(),
            session_secret(),
        ) && jwt_text(token) && jwt_payload(token, session_secret()) == Some(
            (sub, exp, role.text()),
        );
    assert(free_of(token, ';')) by {
        assert forall|i: int| 0 <= i < token.len() implies token[i] != ';' by {
            assert(jwt_char(token[i]));
        }
    }
    assert(free_of(token, '=')) by {
        assert forall|i: int| 0 <= i < token.len() implies token[i] != '=' by {
            assert(jwt_char(token[i]));
        }
    }
    lemma_session_cookie_round_trip(token);
    reveal_strlit("Admin");
    reveal_strlit("Productor");
    assert forall|c: Claims|
        (cookie_token(cookie) matches Some(t) && jwt_payload(t, session_secret()) == Some(
            (c.sub@, c.exp, c.role.text()),
        )) implies c.sub@ == sub && c.exp == exp && c.role == role by {
        assert(c.role.text() == role.text());
        assert("Admin"@ != "Productor"@) by {
            assert("Admin"@.len() != "Productor"@.len());
        }
    }
}

} // verus!
