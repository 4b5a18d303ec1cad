use mediadir::auth::{
    authorize_upload, check_password, claims_from_decoded, default_admin_user, get_user_oid, login_answer,
    login_session, session_claims, session_cookie, token_from_cookie, update_fields,
    wrong_credentials,
};
use mediadir::errors::{
    CreateRateError, IoKind, LsError, ParseError, RepositoryError, ResponseError, UploadError,
    BAD_REQUEST, INTERNAL_SERVER_ERROR, NOT_IMPLEMENTED, UNAUTHORIZED,
};
use mediadir::models::{
    Ch, Claims, Encrypt, Logs, NewUser, Operation, Program, Role, UpdateUser, User,
};

fn user(role: Role, ch: Option<(&str, &str)>) -> User {
    User {
        id: Some("64b7f0c2a1b2c3d4e5f60718".to_string()),
        username: "ana".to_string(),
        password: "x".to_string(),
        email: None,
        phone: None,
        role,
        ch: ch.map(|(c, p)| Ch {
            name: c.to_string(),
            number: 7,
            icon_path: None,
            description: None,
            program: Program { name: p.to_string(), path: "/p".to_string(), icon_path: None },
        }),
    }
}

#[test]
fn error_body_is_json_detail() {
    let e = ResponseError::new(BAD_REQUEST, Some("Path"));
    assert_eq!(e.status(), 400);
    assert_eq!(e.body(), "{\"detail\":\"Path\"}");
    let q = ResponseError::new(BAD_REQUEST, Some("say \"hi\"\n"));
    assert_eq!(q.body(), "{\"detail\":\"say \\\"hi\\\"\\n\"}");
    let none = ResponseError::new(INTERNAL_SERVER_ERROR, None);
    assert_eq!(none.body(), "");
}

#[test]
fn parse_errors_name_the_part() {
    for (p, name) in [
        (ParseError::Path, "Path"),
        (ParseError::Param, "Param"),
        (ParseError::Json, "Json"),
        (ParseError::Query, "Query"),
    ] {
        let e = ResponseError::parse_error(p);
        assert_eq!(e.status(), BAD_REQUEST);
        assert_eq!(e.body(), format!("{{\"detail\":\"{name}\"}}"));
        assert_eq!(p.as_ref(), name);
        assert_eq!(p.message(), format!("Error parsing from entry valur to {name}"));
    }
}

#[test]
fn unimplemented_answer() {
    let e = ResponseError::unimplemented();
    assert_eq!(e.status(), NOT_IMPLEMENTED);
    assert_eq!(e.body(), "{\"detail\":\"This function is not implemented yet\"}");
}

#[test]
fn repository_errors() {
    assert!(matches!(
        RepositoryError::from_write_code(Some(11000), "dup".to_string()),
        RepositoryError::DuplicateKey
    ));
    match RepositoryError::from_write_code(Some(1100), "other".to_string()) {
        RepositoryError::MongoDb(t) => assert_eq!(t, "other"),
        e => panic!("{e:?}"),
    }
    match RepositoryError::from_write_code(None, "net".to_string()) {
        RepositoryError::MongoDb(t) => assert_eq!(t, "net"),
        e => panic!("{e:?}"),
    }
    assert_eq!(RepositoryError::MongoDb("x".into()).message(), "Database Error: x");
    assert_eq!(RepositoryError::DocumentNotFound.message(), "Document not found");
    assert_eq!(RepositoryError::DatabaseDefault.message(), "Database default not defined");
    assert_eq!(RepositoryError::CollectionNotFound.message(), "Collection not found");
    assert_eq!(RepositoryError::DuplicateKey.message(), "Duplicate key");
}

#[test]
fn object_store_errors() {
    assert!(matches!(LsError::from_write_code(Some(1100), "d".into()), LsError::DuplicateKey));
    assert!(matches!(LsError::from_write_code(Some(11000), "d".into()), LsError::MongoDb(_)));
    assert_eq!(LsError::DuplicateKey.message(), "Duplicate Key");
    assert_eq!(LsError::MongoDb("boom".into()).message(), "boom");
}

#[test]
fn upload_errors() {
    assert!(matches!(UploadError::from_io_kind(IoKind::WriteZero), UploadError::WriteZero));
    assert!(matches!(UploadError::from_io_kind(IoKind::StorageFull), UploadError::StorageFull));
    assert!(matches!(UploadError::from_io_kind(IoKind::UnexpectedEof), UploadError::UnexpectedEof));
    match UploadError::from_io_kind(IoKind::Other("permission denied".into())) {
        UploadError::Io(t) => assert_eq!(t, "permission denied"),
        e => panic!("{e:?}"),
    }
    assert_eq!(UploadError::UnexpectedEof.message(), "Unexpected EOF");
    assert_eq!(UploadError::WriteZero.message(), "Write 0 bytes");
    assert_eq!(UploadError::FileNameNotFound.message(), "File name not found");
    assert_eq!(UploadError::MimeNotFound("a.mp4".into()).message(), "File: a.mp4 {Mime type is not present}");
    assert_eq!(
        UploadError::MimeNotAllowed { file: "a.txt".into(), mime: "text/plain".into() }.message(),
        "file: a.txt { Mime text/plain is not allowed }"
    );
    assert_eq!(UploadError::from_multer("bad".into()).message(), "Multer error: bad");
    assert_eq!(UploadError::StorageFull.message(), "Storage full");
    assert_eq!(UploadError::Io("io".into()).message(), "io");
    assert_eq!(CreateRateError::BucketEmpty.message(), "Bucket empty");
    assert_eq!(CreateRateError::Update.message(), "Refill error");
}

#[test]
fn cookie_token_is_read_back() {
    let token = "eyJhbGciOiJIUzI1NiJ9.eyJzdWIiOiIxIn0.sig_-";
    let cookie = session_cookie(token);
    assert_eq!(
        cookie,
        format!("JWT={token}; HttpOnly; Secure; SameSite=Strict; Path=/; Max-Age=7200")
    );
    assert_eq!(token_from_cookie(&cookie), Some(token.to_string()));
}

#[test]
fn cookie_token_parsing() {
    assert_eq!(token_from_cookie("a=1;JWT=tok;b=2"), Some("tok".to_string()));
    assert_eq!(token_from_cookie("JWT"), None);
    assert_eq!(token_from_cookie("a=1; JWT=tok"), None);
    assert_eq!(token_from_cookie("JWTX=abc=def"), Some("abc".to_string()));
    assert_eq!(token_from_cookie("JWT=;JWT=second"), Some("".to_string()));
    assert_eq!(token_from_cookie(""), None);
}

#[test]
fn password_hash_verifies() {
    let hash = "secreto".to_string().encrypt().unwrap();
    assert_eq!(hash.len(), 60);
    assert!(hash.starts_with("$2b$12$"));
    assert_ne!(hash, "secreto");
    assert!(check_password("secreto", &hash));
    assert!(!check_password("otro", &hash));
}

#[test]
fn malformed_hash_matches_nothing() {
    assert!(!check_password("prueba", "prueba"));
    assert!(!check_password("", ""));
}

#[test]
fn wrong_credentials_answer() {
    let e = wrong_credentials();
    assert_eq!(e.status(), UNAUTHORIZED);
    assert_eq!(e.body(), "{\"detail\":\"Username or password error\"}");
}

#[test]
fn user_update_fields() {
    let f = update_fields(UpdateUser { username: Some("bob".into()), password: Some("pw".into()), role: None })
        .unwrap();
    assert_eq!(f.len(), 2);
    assert_eq!(f[0].0, "password");
    assert!(check_password("pw", &f[0].1));
    assert_eq!(f[1], ("username".to_string(), "bob".to_string()));
    let only = update_fields(UpdateUser { username: Some("c".into()), password: None, role: Some(Role::Admin) })
        .unwrap();
    assert_eq!(only, vec![("username".to_string(), "c".to_string())]);
    let none = update_fields(UpdateUser { username: None, password: None, role: None }).unwrap();
    assert!(none.is_empty());
}

#[test]
fn upload_authorization() {
    let p = user(Role::Productor, Some(("canal9", "noticias")));
    assert!(authorize_upload(&p, Role::Productor, "canal9", "noticias").is_ok());
    let e = authorize_upload(&p, Role::Productor, "canal9", "deportes").unwrap_err();
    assert_eq!(e.status(), BAD_REQUEST);
    assert_eq!(
        e.body(),
        "{\"detail\":\"Channel name or program name is not belong to the user\"}"
    );
    assert!(authorize_upload(&p, Role::Admin, "x", "y").is_ok());
    let no_ch = user(Role::Productor, None);
    assert!(authorize_upload(&no_ch, Role::Productor, "canal9", "noticias").is_err());
}

#[test]
fn claims_for_a_session() {
    let u = user(Role::Admin, None);
    let c = Claims::for_user_at(&u, 1_700_000_000);
    assert_eq!(c.sub, "64b7f0c2a1b2c3d4e5f60718");
    assert_eq!(c.exp, 1_700_007_200);
    assert_eq!(c.role, Role::Admin);
    assert_eq!(Claims::for_user_at(&u, i64::MAX - 10).exp, i64::MAX);
    let now = std::time::SystemTime::now()
        .duration_since(std::time::UNIX_EPOCH)
        .unwrap()
        .as_secs() as i64;
    let live = Claims::from_user(u);
    assert!(live.exp >= now + 7200 - 5 && live.exp <= now + 7200 + 5);
}

#[test]
fn new_users_are_producers() {
    let u = NewUser {
        username: "z".into(),
        password: "h".into(),
        role: Role::Admin,
        email: Some("z@x".into()),
        phone: None,
    }
    .into_user();
    assert_eq!(u.role, Role::Productor);
    assert!(u.id.is_none() && u.ch.is_none());
    assert_eq!(u.email.as_deref(), Some("z@x"));
}

#[test]
fn log_entries_and_roles() {
    let u = user(Role::Productor, None);
    let l = Logs::new_from_user_at(&u, "10.0.0.1".into(), 42, Operation::Login);
    assert_eq!(l.owner.username, "ana");
    assert_eq!(l.owner.src, "10.0.0.1");
    assert_eq!(l.owner.role, Role::Productor);
    assert_eq!(l.at, 42);
    assert!(l.id.is_none());
    assert!(matches!(Operation::default_operation(), Operation::Any));
    assert_eq!(Role::Admin.message(), "Admin");
    assert_eq!(Role::Productor.message(), "Productor");
}

fn claims_of(sub: &str) -> Claims {
    Claims { sub: sub.to_string(), exp: 0, role: Role::Productor }
}

#[test]
fn session_subject_is_a_document_id() {
    let ok = get_user_oid(&claims_of("64b7f0c2a1b2c3d4e5f60718")).unwrap();
    assert_eq!(ok, vec![0x64, 0xb7, 0xf0, 0xc2, 0xa1, 0xb2, 0xc3, 0xd4, 0xe5, 0xf6, 0x07, 0x18]);
    let upper = get_user_oid(&claims_of("64B7F0C2A1B2C3D4E5F60718")).unwrap();
    assert_eq!(upper, ok);
    for bad in ["", "64b7f0c2a1b2c3d4e5f6071", "64b7f0c2a1b2c3d4e5f6071z", "64b7f0c2a1b2c3d4e5f607180"] {
        let e = get_user_oid(&claims_of(bad)).unwrap_err();
        assert_eq!(e.status(), INTERNAL_SERVER_ERROR);
        assert_eq!(e.body(), "{\"detail\":\"we cannot obtain your username\"}");
    }
}

#[test]
fn default_admin_account() {
    let admin = default_admin_user().unwrap();
    assert_eq!(admin.username, "admin");
    assert_eq!(admin.role, Role::Admin);
    assert!(admin.id.is_none() && admin.ch.is_none() && admin.email.is_none());
    assert!(check_password("prueba", &admin.password));
    assert!(!check_password("admin", &admin.password));
}

#[test]
fn repository_failures_as_answers() {
    let db = ResponseError::from_repository(RepositoryError::MongoDb("socket closed".into()));
    assert_eq!(db.status(), INTERNAL_SERVER_ERROR);
    assert_eq!(db.body(), "{\"detail\":\"Database error\"}");
    let missing = ResponseError::from_repository(RepositoryError::DocumentNotFound);
    assert_eq!(missing.status(), BAD_REQUEST);
    assert_eq!(missing.body(), "{\"detail\":\"Document not found\"}");
    let dup = ResponseError::from_repository(RepositoryError::DuplicateKey);
    assert_eq!(dup.body(), "{\"detail\":\"Duplicate key\"}");
}

#[test]
fn log_entry_taken_now() {
    let u = user(Role::Admin, None);
    let l = Logs::new_from_user(&u, "Unknown".into(), Operation::Login);
    assert_eq!(l.owner.username, "ana");
    assert_eq!(l.owner.src, "Unknown");
    assert_eq!(l.owner.role, Role::Admin);
    assert!(l.at > 1_600_000_000);
    assert!(matches!(l.operation, Operation::Login));
}

fn stored_user(role: Role) -> User {
    let mut u = user(role, None);
    u.password = "prueba".to_string().encrypt().unwrap();
    u
}

#[test]
fn login_sets_a_session_that_reads_back() {
    let u = stored_user(Role::Admin);
    let now = 4_000_000_000;
    let cookie = login_answer(&u, "prueba", now).unwrap();
    assert!(cookie.starts_with("JWT="));
    assert!(cookie.ends_with("; HttpOnly; Secure; SameSite=Strict; Path=/; Max-Age=7200"));
    let token = token_from_cookie(&cookie).unwrap();
    assert!(token.chars().all(|c| c.is_ascii_alphanumeric() || c == '-' || c == '_' || c == '.'));
    assert_eq!(token.split('.').count(), 3);
    let claims = session_claims(&format!("JWT={token}")).unwrap();
    assert_eq!(claims.sub, "64b7f0c2a1b2c3d4e5f60718");
    assert_eq!(claims.exp, now + 7200);
    assert_eq!(claims.role, Role::Admin);
    let again = session_claims(&cookie).unwrap();
    assert_eq!(again.exp, now + 7200);
}

#[test]
fn wrong_password_is_refused() {
    let u = stored_user(Role::Productor);
    let e = login_answer(&u, "otra", 0).unwrap_err();
    assert_eq!(e.status(), UNAUTHORIZED);
    assert_eq!(e.body(), "{\"detail\":\"Username or password error\"}");
    assert!(login_session(&u, "otra").is_err());
    assert!(login_session(&u, "prueba").unwrap().starts_with("JWT="));
}

#[test]
fn stale_or_forged_sessions_are_refused() {
    let u = stored_user(Role::Productor);
    let old = login_answer(&u, "prueba", 1_000).unwrap();
    assert!(session_claims(&old).is_none());
    assert!(session_claims("").is_none());
    assert!(session_claims("JWT=abc.def.ghi").is_none());
    let live = login_answer(&u, "prueba", 4_000_000_000).unwrap();
    let token = token_from_cookie(&live).unwrap();
    let mut forged = token.clone();
    forged.push('x');
    assert!(session_claims(&format!("JWT={forged}")).is_none());
}

#[test]
fn decoded_tokens_become_claims() {
    let c = claims_from_decoded(Some(("64b7".into(), 99, "Productor".into()))).unwrap();
    assert_eq!((c.sub.as_str(), c.exp, c.role), ("64b7", 99, Role::Productor));
    assert_eq!(claims_from_decoded(Some(("x".into(), 1, "Admin".into()))).unwrap().role, Role::Admin);
    assert!(claims_from_decoded(Some(("x".into(), 1, "admin".into()))).is_none());
    assert!(claims_from_decoded(None).is_none());
}
