//! Which handler a request goes to: decisions on the request path and method.
use crate::errors::{ResponseError, BAD_REQUEST, NOT_FOUND};
use crate::text::{
    find_from, has_prefix, lemma_find_from, lemma_split_shift, matches_at, split, split_exec,
    split_from, split_nth, split_nth_exec, starts_with, str_eq, views,
};
use vstd::prelude::*;
use vstd::string::*;

verus! {

/// The request methods that the routes tell apart.
#[derive(Debug, Clone, Copy, PartialEq, Eq, Structural)]
pub enum HttpMethod {
    Get,
    Post,
    Put,
    Delete,
    Patch,
    Options,
    Head,
    Other,
}

/// The first decision on a request.
#[derive(Debug, Clone, Copy, PartialEq, Eq, Structural)]
pub enum Route {
    /// A CORS preflight answer.
    Cors,
    /// The login page.
    LoginPage,
    /// A login attempt.
    LoginSubmit,
    /// A page that needs a valid session.
    Protected,
    /// The fallback page.
    Fallback,
}

/// What a request with a valid session gets.
#[derive(Debug, Clone, Copy, PartialEq, Eq, Structural)]
pub enum Page {
    Index,
    Api,
    Fallback,
}

/// The handlers under `/api/v1`.
#[derive(Debug, Clone, Copy, PartialEq, Eq, Structural)]
pub enum ApiRoute {
    File,
    User,
    NotFound,
}

/// The actions on users, by method.
#[derive(Debug, Clone, Copy, PartialEq, Eq, Structural)]
pub enum UserAction {
    Insert,
    Update,
    Delete,
    Get,
}

pub open spec fn spec_route(path: Seq<char>, method: HttpMethod) -> Route {
    if method == HttpMethod::Options {
        Route::Cors
    } else if path == "/login"@ && method == HttpMethod::Get {
        Route::LoginPage
    } else if path == "/login"@ && method == HttpMethod::Post {
        Route::LoginSubmit
    } else if has_prefix(path, "/"@) || has_prefix(path, "/api/v1"@) {
        Route::Protected
    } else {
        Route::Fallback
    }
}

/// Routes a request by path and method: any preflight is answered with CORS
/// headers, `/login` serves the form (GET) or checks credentials (POST), and
/// a path under `/` or `/api/v1` needs a session.
pub fn route(path: &str, method: HttpMethod) -> (r: Route)
    ensures
        r == spec_route(path@, method),
{
    if method == HttpMethod::Options {
        return Route::Cors;
    }
    let is_login = str_eq(path, "/login");
    if is_login && method == HttpMethod::Get {
        Route::LoginPage
    } else if is_login && method == HttpMethod::Post {
        Route::LoginSubmit
    } else if starts_with(path, "/") || starts_with(path, "/api/v1") {
        Route::Protected
    } else {
        Route::Fallback
    }
}

pub open spec fn spec_protected_page(path: Seq<char>) -> Page {
    if path == "/"@ {
        Page::Index
    } else if has_prefix(path, "/api/v1"@) {
        Page::Api
    } else {
        Page::Fallback
    }
}

/// What a request with a valid session gets: the index at `/`, the API
/// under `/api/v1`, the fallback page otherwise.
pub fn protected_page(path: &str) -> (p: Page)
    ensures
        p == spec_protected_page(path@),
{
    if str_eq(path, "/") {
        Page::Index
    } else if starts_with(path, "/api/v1") {
        Page::Api
    } else {
        Page::Fallback
    }
}

/// The path below `/api/v1`: the second piece of the path split at
/// `/api/v1`, or empty.
pub open spec fn api_rest(path: Seq<char>) -> Seq<char> {
    match split_nth(path, "/api/v1"@, 1) {
        Some(r) => r,
        None => Seq::empty(),
    }
}

fn api_rest_exec(path: &str) -> (r: String)
    ensures
        r@ == api_rest(path@),
{
    proof {
        reveal_strlit("/api/v1");
    }
    match split_nth_exec(path, "/api/v1", 1) {
        Some(r) => r,
        None => String::new(),
    }
}

pub open spec fn spec_api_route(path: Seq<char>) -> ApiRoute {
    if has_prefix(api_rest(path), "/file"@) {
        ApiRoute::File
    } else if has_prefix(api_rest(path), "/user"@) {
        ApiRoute::User
    } else {
        ApiRoute::NotFound
    }
}

/// Chooses the API handler: files under `/api/v1/file`, users under
/// `/api/v1/user`.
pub fn api_route(path: &str) -> (r: ApiRoute)
    ensures
        r == spec_api_route(path@),
{
    let rest = api_rest_exec(path);
    if starts_with(rest.as_str(), "/file") {
        ApiRoute::File
    } else if starts_with(rest.as_str(), "/user") {
        ApiRoute::User
    } else {
        ApiRoute::NotFound
    }
}

/// The answer for an endpoint that does not exist: 404 with the detail
/// `Entpoint <uri> not found`.
pub fn endpoint_not_found(uri: &str) -> (e: ResponseError)
    ensures
        e.spec_status() == NOT_FOUND,
        e.spec_body() == ResponseError::body_for(Some("Entpoint "@ + uri@ + " not found"@)),
{
    let detail = "Entpoint ".to_owned().concat(uri).concat(" not found");
    ResponseError::new(NOT_FOUND, Some(detail.as_str()))
}

/// The user action for a method: POST inserts, PATCH updates, DELETE
/// deletes, GET reads; any other method is a bad request.
pub fn user_action(method: HttpMethod) -> (r: Result<UserAction, ResponseError>)
    ensures
        method == HttpMethod::Post ==> r == Ok::<UserAction, ResponseError>(UserAction::Insert),
        method == HttpMethod::Patch ==> r == Ok::<UserAction, ResponseError>(UserAction::Update),
        method == HttpMethod::Delete ==> r == Ok::<UserAction, ResponseError>(UserAction::Delete),
        method == HttpMethod::Get ==> r == Ok::<UserAction, ResponseError>(UserAction::Get),
        method != HttpMethod::Post && method != HttpMethod::Patch && method != HttpMethod::Delete
            && method != HttpMethod::Get ==> (r matches Err(e) && e.spec_status() == BAD_REQUEST
            && e.spec_body() == Seq::<char>::empty()),
{
    match method {
        HttpMethod::Post => Ok(UserAction::Insert),
        HttpMethod::Patch => Ok(UserAction::Update),
        HttpMethod::Delete => Ok(UserAction::Delete),
        HttpMethod::Get => Ok(UserAction::Get),
        _ => Err(ResponseError::new(BAD_REQUEST, None)),
    }
}

/// The segments of an upload path `/api/v1/upload/<user>/<show>`, when the
/// request is a POST to it.
pub open spec fn upload_segments(path: Seq<char>, method: HttpMethod) -> Option<Seq<Seq<char>>> {
    let rest = api_rest(path);
    if has_prefix(rest, "/upload"@) && method == HttpMethod::Post {
        match split_nth(rest, "/upload/"@, 1) {
            Some(tail) => if split(tail, "/"@).len() == 2 {
                Some(split(tail, "/"@))
            } else {
                None
            },
            None => None,
        }
    } else {
        None
    }
}

/// For a POST to `/api/v1/upload/<user>/<show>`, the user and show ids;
/// `None` for any other request.
pub fn upload_route(path: &str, method: HttpMethod) -> (r: Option<(String, String)>)
    ensures
        match r {
            Some((user, show)) => upload_segments(path@, method) == Some(seq![user@, show@]),
            None => upload_segments(path@, method) is None,
        },
{
    let rest = api_rest_exec(path);
    if starts_with(rest.as_str(), "/upload") && method == HttpMethod::Post {
        proof {
            reveal_strlit("/upload/");
            reveal_strlit("/");
        }
        match split_nth_exec(rest.as_str(), "/upload/", 1) {
            Some(tail) => {
                let parts = split_exec(tail.as_str(), "/");
                if parts.len() == 2 {
                    let user = parts[0].clone();
                    let show = parts[1].clone();
                    proof {
                        assert(views(parts@)[0] == parts@[0]@);
                        assert(views(parts@)[1] == parts@[1]@);
                        assert(split(tail@, "/"@) =~= seq![user@, show@]);
                    }
                    Some((user, show))
                } else {
                    None
                }
            },
            None => None,
        }
    } else {
        None
    }
}

/// What the file endpoint does with a request.
#[derive(Debug, Clone)]
#[allow(inconsistent_fields)]
pub enum FileRoute {
    Upload { id_user: String, id_tvshow: String },
    Delete { id_user: String, id_tvshow: String, id_file: String },
    Update { id_tvshow: String, id_user: String, id_file: String },
    List { id_user: Option<String>, id_tvshow: Option<String> },
    Unimplemented,
}

/// The `/`-separated segments after `/file` in the path.
pub open spec fn file_segments(path: Seq<char>) -> Seq<Seq<char>> {
    split(split(path, "/file"@)[1], "/"@)
}

/// Routes the file endpoint.  With two segments after `/file` a POST
/// uploads for user and show; with five, the last three are file, user and
/// show, and DELETE, PATCH or GET act on them; anything else is not
/// implemented.
pub fn file_route(path: &str, method: HttpMethod) -> (r: FileRoute)
    requires
        split(path@, "/file"@).len() > 1,
    ensures
        ({
            let segs = file_segments(path@);
            &&& (segs.len() == 2 && method == HttpMethod::Post) ==> (r matches FileRoute::Upload {
                id_user,
                id_tvshow,
            } && id_user@ == segs[0] && id_tvshow@ == segs[1])
            &&& (segs.len() == 5 && method == HttpMethod::Delete) ==> (r matches FileRoute::Delete {
                id_user,
                id_tvshow,
                id_file,
            } && id_user@ == segs[3] && id_tvshow@ == segs[4] && id_file@ == segs[2])
            &&& (segs.len() == 5 && method == HttpMethod::Patch) ==> (r matches FileRoute::Update {
                id_tvshow,
                id_user,
                id_file,
            } && id_user@ == segs[3] && id_tvshow@ == segs[4] && id_file@ == segs[2])
            &&& (segs.len() == 5 && method == HttpMethod::Get) ==> (r matches FileRoute::List {
                id_user: Some(u),
                id_tvshow: Some(t),
            } && u@ == segs[3] && t@ == segs[4])
            &&& !((segs.len() == 2 && method == HttpMethod::Post) || (segs.len() == 5 && (method
                == HttpMethod::Delete || method == HttpMethod::Patch || method == HttpMethod::Get)))
                ==> r is Unimplemented
        }),
{
    proof {
        reveal_strlit("/file");
        reveal_strlit("/");
    }
    let outer = split_exec(path, "/file");
    let rest = outer[1].clone();
    proof {
        assert(views(outer@)[1] == outer@[1]@);
    }
    let segs = split_exec(rest.as_str(), "/");
    let ghost s = views(segs@);
    assert(s == file_segments(path@));
    let len = segs.len();
    if len == 2 && method == HttpMethod::Post {
        assert(s[0] == segs@[0]@ && s[1] == segs@[1]@);
        return FileRoute::Upload { id_user: segs[0].clone(), id_tvshow: segs[1].clone() };
    }
    if len == 5 {
        assert(s[2] == segs@[2]@ && s[3] == segs@[3]@ && s[4] == segs@[4]@);
        let id_file = segs[2].clone();
        let id_user = segs[3].clone();
        let id_tvshow = segs[4].clone();
        match method {
            HttpMethod::Delete => {
                return FileRoute::Delete { id_user, id_tvshow, id_file };
            },
            HttpMethod::Patch => {
                return FileRoute::Update { id_tvshow, id_user, id_file };
            },
            HttpMethod::Get => {
                return FileRoute::List { id_user: Some(id_user), id_tvshow: Some(id_tvshow) };
            },
            _ => {},
        }
    }
    FileRoute::Unimplemented
}

/// A character that a header value may hold: a tab, or any character from
/// the space on except DEL.
pub open spec fn header_char(c: char) -> bool {
    c == '\t' || ((c as u32) >= 32 && (c as u32) != 127)
}

/// A redirection answer.
#[derive(Debug, Clone)]
pub struct Redirect {
    status_code: u16,
    location: String,
}

impl Redirect {
    pub closed spec fn spec_status(&self) -> u16 {
        self.status_code
    }

    pub closed spec fn spec_location(&self) -> Seq<char> {
        self.location@
    }

    /// A "see other" redirection to `url`, which must be a valid header
    /// value.
    pub fn to(url: &str) -> (r: Redirect)
        requires
            forall|i: int| 0 <= i < url@.len() ==> header_char(#[trigger] url@[i]),
        ensures
            r.spec_status() == crate::errors::SEE_OTHER,
            r.spec_location() == url@,
    {
        Redirect { status_code: crate::errors::SEE_OTHER, location: url.to_owned() }
    }

    pub fn status(&self) -> (s: u16)
        ensures
            s == self.spec_status(),
    {
        self.status_code
    }

    pub fn location(&self) -> (l: &str)
        ensures
            l@ == self.spec_location(),
    {
        self.location.as_str()
    }
}

/// The redirection of a request without a valid session: to the login
/// page.
pub fn to_login() -> (r: Redirect)
    ensures
        r.spec_status() == crate::errors::SEE_OTHER,
        r.spec_location() == "/login"@,
{
    proof {
        reveal_strlit("/login");
    }
    Redirect::to("/login")
}

/// The headers of the answer to a CORS preflight, which has no content.
pub open spec fn cors_header_texts() -> Seq<(Seq<char>, Seq<char>)> {
    seq![
        ("access-control-allow-origin"@, "http://localhost"@),
        ("access-control-allow-methods"@, "GET, POST, PATCH, UPDATE, DELETE"@),
        ("access-control-allow-headers"@, "Content-Type, Authorization"@),
        ("access-control-allow-credentials"@, "true"@),
        ("access-control-max-age"@, "3600"@),
    ]
}

/// The headers of the answer to a CORS preflight, in order.
pub fn cors_headers() -> (h: Vec<(String, String)>)
    ensures
        h@.len() == cors_header_texts().len(),
        forall|i: int|
            0 <= i < h@.len() ==> (#[trigger] h@[i]).0@ == cors_header_texts()[i].0 && h@[i].1@
                == cors_header_texts()[i].1,
{
    let mut h: Vec<(String, String)> = Vec::new();
    h.push(("access-control-allow-origin".to_owned(), "http://localhost".to_owned()));
    h.push(
        ("access-control-allow-methods".to_owned(), "GET, POST, PATCH, UPDATE, DELETE".to_owned()),
    );
    h.push(("access-control-allow-headers".to_owned(), "Content-Type, Authorization".to_owned()));
    h.push(("access-control-allow-credentials".to_owned(), "true".to_owned()));
    h.push(("access-control-max-age".to_owned(), "3600".to_owned()));
    h
}

/// The first decision on a request: a preflight, whatever its path, gets
/// the CORS answer; `/login` serves the form on GET and checks credentials
/// on POST; any other request whose path begins with `/` needs a session;
/// a path that does not begin with `/` gets the fallback page.
pub proof fn lemma_routes(path: Seq<char>, rest: Seq<char>, method: HttpMethod)
    ensures
        spec_route(path, HttpMethod::Options) == Route::Cors,
        spec_route("/login"@, HttpMethod::Get) == Route::LoginPage,
        spec_route("/login"@, HttpMethod::Post) == Route::LoginSubmit,
        method != HttpMethod::Options && !("/"@ + rest == "/login"@ && (method == HttpMethod::Get
            || method == HttpMethod::Post)) ==> spec_route("/"@ + rest, method) == Route::Protected,
        method != HttpMethod::Options && (path.len() == 0 || path[0] != '/') ==> spec_route(
            path,
            method,
        ) == Route::Fallback,
{
    reveal_strlit("/");
    reveal_strlit("/login");
    reveal_strlit("/api/v1");
    assert(("/"@ + rest).subrange(0, 1) =~= "/"@);
    if path.len() == 0 || path[0] != '/' {
        assert(path != "/login"@) by {
            if path == "/login"@ {
                assert(path[0] == '/');
            }
        }
        assert(!has_prefix(path, "/"@)) by {
            if has_prefix(path, "/"@) {
                assert(path.subrange(0, 1)[0] == path[0]);
            }
        }
        assert(!has_prefix(path, "/api/v1"@)) by {
            if has_prefix(path, "/api/v1"@) {
                assert(path.subrange(0, 7)[0] == path[0]);
            }
        }
    }
}

/// Behind a valid session, `/` is the index page, every path that begins
/// with `/api/v1` goes to the API, and every other path gets the fallback
/// page.
pub proof fn lemma_protected_pages(rest: Seq<char>, path: Seq<char>)
    ensures
        spec_protected_page("/"@) == Page::Index,
        spec_protected_page("/api/v1"@ + rest) == Page::Api,
        path != "/"@ && !has_prefix(path, "/api/v1"@) ==> spec_protected_page(path) == Page::Fallback,
{
    reveal_strlit("/");
    reveal_strlit("/api/v1");
    let p = "/api/v1"@ + rest;
    assert(p.len() >= 7);
    assert(p != "/"@);
    assert(p.subrange(0, 7) =~= "/api/v1"@);
}

/// For a path `/api/v1<rest>` where `rest` holds no further `/api/v1`, the
/// part below the API is `rest`, and the handler is the file handler when
/// it begins with `/file`, the user handler when it begins with `/user`,
/// and none otherwise.
pub proof fn lemma_api_routes(rest: Seq<char>)
    requires
        forall|j: int| !matches_at(rest, "/api/v1"@, j),
    ensures
        api_rest("/api/v1"@ + rest) == rest,
        has_prefix(rest, "/file"@) ==> spec_api_route("/api/v1"@ + rest) == ApiRoute::File,
        has_prefix(rest, "/user"@) ==> spec_api_route("/api/v1"@ + rest) == ApiRoute::User,
        !has_prefix(rest, "/file"@) && !has_prefix(rest, "/user"@) ==> spec_api_route(
            "/api/v1"@ + rest,
        ) == ApiRoute::NotFound,
{
    reveal_strlit("/api/v1");
    let pat = "/api/v1"@;
    let p = pat + rest;
    assert(pat.len() == 7);
    assert(matches_at(p, pat, 0)) by {
        assert(p.subrange(0, 7) =~= pat);
    }
    assert(find_from(p, pat, 0) == Some(0int));
    lemma_split_shift(pat, rest, pat, 0);
    lemma_find_from(rest, pat, 0);
    assert(find_from(rest, pat, 0) is None);
    assert(rest.subrange(0, rest.len() as int) =~= rest);
    assert(split_from(rest, pat, 0) == seq![rest]);
    assert(split(p, pat) =~= seq![p.subrange(0, 0)] + seq![rest]);
    assert(split_nth(p, pat, 1) == Some(rest));
    reveal_strlit("/file");
    reveal_strlit("/user");
    if has_prefix(rest, "/user"@) {
        assert(rest.subrange(0, 5)[1] == 'u');
        assert(!has_prefix(rest, "/file"@)) by {
            if has_prefix(rest, "/file"@) {
                assert(rest.subrange(0, 5)[1] == 'f');
            }
        }
    }
}

} // verus!
