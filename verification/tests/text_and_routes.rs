use mediadir::errors::{BAD_REQUEST, NOT_FOUND};
use mediadir::routes::{
    api_route, cors_headers, endpoint_not_found, file_route, protected_page, route, to_login,
    upload_route, user_action, ApiRoute, FileRoute, HttpMethod, Page, Route, UserAction,
};
use mediadir::text::{decimal_string, split_exec, split_nth_exec, starts_with, str_eq};

#[test]
fn split_matches_std_split() {
    let cases = ["/api/v1/file/a/b", "a;;b;", "", ";", "x=y=z", "héllo/wörld/"];
    for s in cases {
        for pat in [";", "/", "=", "/api/v1"] {
            let got = split_exec(s, pat);
            let want: Vec<String> = s.split(pat).map(|x| x.to_string()).collect();
            assert_eq!(got, want, "split {s:?} at {pat:?}");
        }
    }
}

#[test]
fn split_nth_matches_std() {
    assert_eq!(split_nth_exec("/api/v1/user", "/api/v1", 1), Some("/user".to_string()));
    assert_eq!(split_nth_exec("/user", "/api/v1", 1), None);
    assert_eq!(split_nth_exec("a=b=c", "=", 2), Some("c".to_string()));
}

#[test]
fn prefix_and_equality() {
    assert!(starts_with("/api/v1/file", "/api/v1"));
    assert!(!starts_with("/api", "/api/v1"));
    assert!(starts_with("anything", ""));
    assert!(str_eq("/login", "/login"));
    assert!(!str_eq("/login", "/logout"));
}

#[test]
fn decimal_rendering() {
    for n in [0u64, 7, 10, 99, 3600, 7200, 65535, u64::MAX] {
        assert_eq!(decimal_string(n), n.to_string());
    }
}

#[test]
fn first_routing_decision() {
    assert_eq!(route("/login", HttpMethod::Options), Route::Cors);
    assert_eq!(route("/anything", HttpMethod::Options), Route::Cors);
    assert_eq!(route("/login", HttpMethod::Get), Route::LoginPage);
    assert_eq!(route("/login", HttpMethod::Post), Route::LoginSubmit);
    assert_eq!(route("/login", HttpMethod::Put), Route::Protected);
    assert_eq!(route("/", HttpMethod::Get), Route::Protected);
    assert_eq!(route("/api/v1/user", HttpMethod::Delete), Route::Protected);
    assert_eq!(route("relative", HttpMethod::Get), Route::Fallback);
    assert_eq!(route("", HttpMethod::Get), Route::Fallback);
}

#[test]
fn pages_behind_a_session() {
    assert_eq!(protected_page("/"), Page::Index);
    assert_eq!(protected_page("/api/v1/file/a/b"), Page::Api);
    assert_eq!(protected_page("/other"), Page::Fallback);
}

#[test]
fn redirect_without_session() {
    let r = to_login();
    assert_eq!(r.status(), 303);
    assert_eq!(r.location(), "/login");
}

#[test]
fn api_handlers() {
    assert_eq!(api_route("/api/v1/file/ch/prog"), ApiRoute::File);
    assert_eq!(api_route("/api/v1/user"), ApiRoute::User);
    assert_eq!(api_route("/api/v1/other"), ApiRoute::NotFound);
    assert_eq!(api_route("/nothing"), ApiRoute::NotFound);
}

#[test]
fn unknown_endpoint_answer() {
    let e = endpoint_not_found("/api/v1/x?y=1");
    assert_eq!(e.status(), NOT_FOUND);
    assert_eq!(e.body(), "{\"detail\":\"Entpoint /api/v1/x?y=1 not found\"}");
}

#[test]
fn user_actions_by_method() {
    assert_eq!(user_action(HttpMethod::Post).unwrap(), UserAction::Insert);
    assert_eq!(user_action(HttpMethod::Patch).unwrap(), UserAction::Update);
    assert_eq!(user_action(HttpMethod::Delete).unwrap(), UserAction::Delete);
    assert_eq!(user_action(HttpMethod::Get).unwrap(), UserAction::Get);
    let e = user_action(HttpMethod::Put).unwrap_err();
    assert_eq!(e.status(), BAD_REQUEST);
    assert_eq!(e.body(), "");
}

#[test]
fn upload_endpoint_segments() {
    assert_eq!(
        upload_route("/api/v1/upload/user1/show2", HttpMethod::Post),
        Some(("user1".to_string(), "show2".to_string()))
    );
    assert_eq!(upload_route("/api/v1/upload/user1/show2", HttpMethod::Get), None);
    assert_eq!(upload_route("/api/v1/upload/user1", HttpMethod::Post), None);
    assert_eq!(upload_route("/api/v1/upload/a/b/c", HttpMethod::Post), None);
    assert_eq!(upload_route("/api/v1/uploadx", HttpMethod::Post), None);
}

#[test]
fn file_endpoint_routes() {
    match file_route("/filex/y", HttpMethod::Post) {
        FileRoute::Upload { id_user, id_tvshow } => {
            assert_eq!(id_user, "x");
            assert_eq!(id_tvshow, "y");
        }
        other => panic!("unexpected {other:?}"),
    }
    match file_route("/file/a/f/u/t", HttpMethod::Delete) {
        FileRoute::Delete { id_user, id_tvshow, id_file } => {
            assert_eq!((id_user.as_str(), id_tvshow.as_str(), id_file.as_str()), ("u", "t", "f"));
        }
        other => panic!("unexpected {other:?}"),
    }
    match file_route("/file/a/f/u/t", HttpMethod::Patch) {
        FileRoute::Update { id_tvshow, id_user, id_file } => {
            assert_eq!((id_user.as_str(), id_tvshow.as_str(), id_file.as_str()), ("u", "t", "f"));
        }
        other => panic!("unexpected {other:?}"),
    }
    match file_route("/file/a/f/u/t", HttpMethod::Get) {
        FileRoute::List { id_user, id_tvshow } => {
            assert_eq!(id_user.as_deref(), Some("u"));
            assert_eq!(id_tvshow.as_deref(), Some("t"));
        }
        other => panic!("unexpected {other:?}"),
    }
    assert!(matches!(file_route("/file/a/b", HttpMethod::Post), FileRoute::Unimplemented));
    assert!(matches!(file_route("/file/a/f/u/t", HttpMethod::Post), FileRoute::Unimplemented));
}

#[test]
fn preflight_headers() {
    let h = cors_headers();
    assert_eq!(h.len(), 5);
    assert_eq!(h[0], ("access-control-allow-origin".to_string(), "http://localhost".to_string()));
    assert_eq!(h[4], ("access-control-max-age".to_string(), "3600".to_string()));
}
