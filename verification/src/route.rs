//! Routing and handlers.
//!
//! Routes are tried in a fixed priority order: `/` exact, `/user-agent`
//! exact, `/echo/` prefix, `/files/` prefix, then not-found. The first three
//! handlers are pure; the `/files/` handlers name a file operation in an
//! [`Action`], the caller performs it, and [`read_outcome`] /
//! [`write_outcome`] map what happened back to a status.

use crate::parse::{
    match_at, match_at_exec, normalize_body, normalized, parse_request, spec_parse, str_eq,
    user_agent, user_agent_of, Method, Request, SpecRequest,
};
use crate::status::{HTTPStatus, SpecStatus};
use vstd::prelude::*;
use vstd::string::{StrSliceExecFns, StringExecFns};

verus! {

/// What handling a request asks of the caller: send a finished response, or
/// first read or write the named file under the base directory.
#[derive(Debug)]
pub enum Action {
    Respond(HTTPStatus),
    ReadFile(String),
    WriteFile(String, String),
}

/// Spec-level mirror of [`Action`].
pub ghost enum SpecAction {
    Respond(SpecStatus),
    ReadFile(Seq<char>),
    WriteFile(Seq<char>, Seq<char>),
}

impl View for Action {
    type V = SpecAction;

    open spec fn view(&self) -> SpecAction {
        match self {
            Action::Respond(st) => SpecAction::Respond(st@),
            Action::ReadFile(name) => SpecAction::ReadFile(name@),
            Action::WriteFile(name, content) => SpecAction::WriteFile(name@, content@),
        }
    }
}

/// Which action a request selects. Routes in priority order; `/files/`
/// requests demand a configured base directory and branch on the method:
/// `POST` writes the normalized body, anything else reads. The file name is
/// the path's raw suffix after `/files/`, taken as-is: nothing guards
/// against `..` segments leaving the base directory.
pub open spec fn spec_route(r: SpecRequest, has_directory: bool) -> SpecAction {
    match r.path {
        Option::None => SpecAction::Respond(SpecStatus::NotFound),
        Option::Some(p) => {
            if p == "/"@ {
                SpecAction::Respond(SpecStatus::Okay("Hello, world!"@, "text/plain"@))
            } else if p == "/user-agent"@ {
                SpecAction::Respond(SpecStatus::Okay(user_agent_of(r.headers), "text/plain"@))
            } else if match_at(p, "/echo/"@, 0) {
                SpecAction::Respond(
                    SpecStatus::Okay(p.skip("/echo/"@.len() as int), "text/plain"@),
                )
            } else if match_at(p, "/files/"@, 0) {
                if !has_directory {
                    SpecAction::Respond(SpecStatus::NotFound)
                } else if r.method == Method::Post {
                    SpecAction::WriteFile(p.skip("/files/"@.len() as int), normalized(r.body))
                } else {
                    SpecAction::ReadFile(p.skip("/files/"@.len() as int))
                }
            } else {
                SpecAction::Respond(SpecStatus::NotFound)
            }
        },
    }
}

/// Selects the action for a parsed request. `has_directory` says whether a
/// base directory for `/files/` operations is configured.
pub fn route(r: &Request, has_directory: bool) -> (a: Action)
    ensures
        a@ == spec_route(r@, has_directory),
{
    match &r.path {
        Option::None => Action::Respond(HTTPStatus::NotFound),
        Option::Some(path) => {
            let p = path.as_str();
            let np = p.unicode_len();
            proof {
                reveal_strlit("/echo/");
                reveal_strlit("/files/");
            }
            if str_eq(p, "/") {
                Action::Respond(
                    HTTPStatus::Okay("Hello, world!".to_owned(), "text/plain".to_owned()),
                )
            } else if str_eq(p, "/user-agent") {
                Action::Respond(HTTPStatus::Okay(user_agent(r), "text/plain".to_owned()))
            } else if match_at_exec(p, np, "/echo/", 6, 0) {
                let text = p.substring_char(6, np).to_owned();
                proof {
                    assert(text@ =~= path@.skip("/echo/"@.len() as int));
                }
                Action::Respond(HTTPStatus::Okay(text, "text/plain".to_owned()))
            } else if match_at_exec(p, np, "/files/", 7, 0) {
                let name = p.substring_char(7, np).to_owned();
                proof {
                    assert(name@ =~= path@.skip("/files/"@.len() as int));
                }
                if !has_directory {
                    Action::Respond(HTTPStatus::NotFound)
                } else if matches!(r.method, Method::Post) {
                    Action::WriteFile(name, normalize_body(r.body.as_str()))
                } else {
                    Action::ReadFile(name)
                }
            } else {
                Action::Respond(HTTPStatus::NotFound)
            }
        },
    }
}

/// Parses a request text and selects its action.
pub fn handle(s: &str, has_directory: bool) -> (a: Action)
    ensures
        a@ == spec_route(spec_parse(s@), has_directory),
{
    let r = parse_request(s);
    route(&r, has_directory)
}

/// The characters that stand for a raw byte buffer: its lossy UTF-8
/// decoding, ill-formed sequences replaced.
pub uninterp spec fn lossy_decode(b: Seq<u8>) -> Seq<char>;

/// Relies on `String::from_utf8_lossy` from std: decodes a byte buffer as
/// UTF-8, replacing ill-formed sequences, a function of the bytes alone.
#[verifier::external_body]
fn decode_lossy(b: &[u8]) -> (r: String)
    ensures
        r@ == lossy_decode(b@),
{
    String::from_utf8_lossy(b).into_owned()
}

/// Handles a raw request buffer as read from a connection: decodes it
/// lossily, parses it, and selects the action.
pub fn handle_bytes(buf: &[u8], has_directory: bool) -> (a: Action)
    ensures
        a@ == spec_route(spec_parse(lossy_decode(buf@)), has_directory),
{
    let text = decode_lossy(buf);
    handle(text.as_str(), has_directory)
}

/// What a file read came to: the contents, or nothing when the read failed
/// for any reason.
pub fn read_outcome(contents: Option<String>) -> (st: HTTPStatus)
    ensures
        contents matches Option::Some(c) ==> st@ == SpecStatus::Okay(
            c@,
            "application/octet-stream"@,
        ),
        contents is None ==> st@ == SpecStatus::NotFound,
{
    match contents {
        Option::Some(c) => HTTPStatus::Okay(c, "application/octet-stream".to_owned()),
        Option::None => HTTPStatus::NotFound,
    }
}

/// What a file write came to: created on success, not-found on any failure.
pub fn write_outcome(ok: bool) -> (st: HTTPStatus)
    ensures
        ok ==> st@ == SpecStatus::Created,
        !ok ==> st@ == SpecStatus::NotFound,
{
    if ok {
        HTTPStatus::Created
    } else {
        HTTPStatus::NotFound
    }
}

/// The path of `name` under `directory`, joined with a single slash.
pub fn file_path(directory: &str, name: &str) -> (r: String)
    ensures
        r@ == directory@ + "/"@ + name@,
{
    let mut out = String::new();
    out.append(directory);
    out.append("/");
    out.append(name);
    proof {
        assert(out@ =~= directory@ + "/"@ + name@);
    }
    out
}

/// LAW: a request whose path is absent or matches none of `/`,
/// `/user-agent`, `/echo/`-prefixed and `/files/`-prefixed is answered
/// not-found, whatever else it holds.
pub proof fn lemma_unmatched_path_not_found(r: SpecRequest, has_directory: bool)
    requires
        r.path matches Option::Some(p) ==> p != "/"@ && p != "/user-agent"@ && !match_at(
            p,
            "/echo/"@,
            0,
        ) && !match_at(p, "/files/"@, 0),
    ensures
        spec_route(r, has_directory) == SpecAction::Respond(SpecStatus::NotFound),
{
}

/// LAW: writing a file and then asking for the same name round-trips. The
/// `POST` routes to a write of the normalized upload body under the path's
/// `/files/` suffix, a later request for the same path routes to a read of
/// that very name, and a read that yields the stored content is answered
/// with that content, byte for byte.
pub proof fn lemma_file_round_trip(post: SpecRequest, get: SpecRequest, p: Seq<char>)
    requires
        post.method == Method::Post,
        get.method != Method::Post,
        post.path == Option::Some(p),
        get.path == Option::Some(p),
        match_at(p, "/files/"@, 0),
    ensures
        spec_route(post, true) == SpecAction::WriteFile(
            p.skip("/files/"@.len() as int),
            normalized(post.body),
        ),
        spec_route(get, true) == SpecAction::ReadFile(p.skip("/files/"@.len() as int)),
{
    reveal_strlit("/");
    reveal_strlit("/user-agent");
    reveal_strlit("/echo/");
    reveal_strlit("/files/");
    assert(p.len() >= 7);
    assert(p.subrange(0, "/files/"@.len() as int)[1] == p[1]);
    assert(p[1] == 'f');
    assert(p != "/"@);
    assert(p != "/user-agent"@);
    if match_at(p, "/echo/"@, 0) {
        assert(p.subrange(0, "/echo/"@.len() as int)[1] == p[1]);
        assert(p[1] == 'e');
    }
}

} // verus!
