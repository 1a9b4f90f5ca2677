//! The companion HTTP endpoint's decisions: how a request is routed, which
//! runtime command each control route carries, and the exact bodies of the
//! answers.  The listening socket and the HTTP plumbing are the caller's.

use vstd::prelude::*;

use crate::messages::spec_json_escape;
use crate::textutil::{ascii_bytes, bytes_eq, dec_chars, str_to_bytes, u64_to_string};

verus! {

use vstd::string::StringExecFns;
use vstd::string::StringSliceAdditionalSpecFns;

/// The request methods the endpoint distinguishes.
#[derive(Clone, Copy, Debug, PartialEq, Eq, Structural)]
pub enum HttpMethod {
    Get,
    Post,
    Options,
    Other,
}

/// Where a request goes.
#[derive(Clone, Copy, Debug, PartialEq, Eq, Structural)]
pub enum Route {
    /// An options request: the preflight answer, whatever the path.
    Preflight,
    /// The health check.
    Health,
    /// Ad-hoc code execution.
    Eval,
    /// Help-file conversion.
    ConvertSchelp,
    /// The stop control command.
    Stop,
    /// The boot control command.
    Boot,
    /// The recompile control command.
    Recompile,
    /// The quit control command.
    Quit,
    /// Everything else.
    NotFound,
}

/// The routing table over the method and the path's bytes.
pub open spec fn spec_route(m: HttpMethod, url: Seq<u8>) -> Route {
    if m == HttpMethod::Options {
        Route::Preflight
    } else if m == HttpMethod::Get && url == ascii_bytes("/health"@) {
        Route::Health
    } else if m == HttpMethod::Post && url == ascii_bytes("/eval"@) {
        Route::Eval
    } else if m == HttpMethod::Post && url == ascii_bytes("/convert-schelp"@) {
        Route::ConvertSchelp
    } else if m == HttpMethod::Post && url == ascii_bytes("/stop"@) {
        Route::Stop
    } else if m == HttpMethod::Post && url == ascii_bytes("/boot"@) {
        Route::Boot
    } else if m == HttpMethod::Post && url == ascii_bytes("/recompile"@) {
        Route::Recompile
    } else if m == HttpMethod::Post && url == ascii_bytes("/quit"@) {
        Route::Quit
    } else {
        Route::NotFound
    }
}

/// Route one request.
pub fn route_request(method: HttpMethod, url: &str) -> (r: Route)
    ensures
        r == spec_route(method, url.spec_bytes()),
{
    proof {
        reveal_strlit("/health");
        assert("/health".is_ascii());
        reveal_strlit("/eval");
        assert("/eval".is_ascii());
        reveal_strlit("/convert-schelp");
        assert("/convert-schelp".is_ascii());
        reveal_strlit("/stop");
        assert("/stop".is_ascii());
        reveal_strlit("/boot");
        assert("/boot".is_ascii());
        reveal_strlit("/recompile");
        assert("/recompile".is_ascii());
        reveal_strlit("/quit");
        assert("/quit".is_ascii());
    }
    if method == HttpMethod::Options {
        return Route::Preflight;
    }
    let ub = url.as_bytes();
    if method == HttpMethod::Get && bytes_eq(ub, str_to_bytes("/health").as_slice()) {
        Route::Health
    } else if method == HttpMethod::Post && bytes_eq(ub, str_to_bytes("/eval").as_slice()) {
        Route::Eval
    } else if method == HttpMethod::Post && bytes_eq(
        ub,
        str_to_bytes("/convert-schelp").as_slice(),
    ) {
        Route::ConvertSchelp
    } else if method == HttpMethod::Post && bytes_eq(ub, str_to_bytes("/stop").as_slice()) {
        Route::Stop
    } else if method == HttpMethod::Post && bytes_eq(ub, str_to_bytes("/boot").as_slice()) {
        Route::Boot
    } else if method == HttpMethod::Post && bytes_eq(ub, str_to_bytes("/recompile").as_slice()) {
        Route::Recompile
    } else if method == HttpMethod::Post && bytes_eq(ub, str_to_bytes("/quit").as_slice()) {
        Route::Quit
    } else {
        Route::NotFound
    }
}

/// The runtime command a control route carries.
pub fn command_for_route(r: Route) -> (c: Option<&'static str>)
    ensures
        match r {
            Route::Stop => c matches Some(s) && s@ == "supercollider.internal.cmdPeriod"@,
            Route::Boot => c matches Some(s) && s@ == "supercollider.internal.bootServer"@,
            Route::Recompile => c matches Some(s) && s@ == "supercollider.internal.recompile"@,
            Route::Quit => c matches Some(s) && s@ == "supercollider.internal.quitServer"@,
            _ => c is None,
        },
{
    match r {
        Route::Stop => Some("supercollider.internal.cmdPeriod"),
        Route::Boot => Some("supercollider.internal.bootServer"),
        Route::Recompile => Some("supercollider.internal.recompile"),
        Route::Quit => Some("supercollider.internal.quitServer"),
        _ => None,
    }
}

/// The headers of the preflight answer.
pub fn cors_headers() -> (h: Vec<(String, String)>)
    ensures
        h.deep_view() == seq![
            ("Access-Control-Allow-Origin"@, "*"@),
            ("Access-Control-Allow-Methods"@, "POST, OPTIONS"@),
            ("Access-Control-Allow-Headers"@, "Content-Type"@),
        ],
{
    let mut h: Vec<(String, String)> = Vec::new();
    h.push((String::from_str("Access-Control-Allow-Origin"), String::from_str("*")));
    h.push((String::from_str("Access-Control-Allow-Methods"), String::from_str("POST, OPTIONS")));
    h.push((String::from_str("Access-Control-Allow-Headers"), String::from_str("Content-Type")));
    proof {
        assert(h.deep_view() =~~= seq![
            ("Access-Control-Allow-Origin"@, "*"@),
            ("Access-Control-Allow-Methods"@, "POST, OPTIONS"@),
            ("Access-Control-Allow-Headers"@, "Content-Type"@),
        ]);
    }
    h
}

/// The health answer's body.
pub fn health_body() -> (r: String)
    ensures
        r@ == "{\"status\":\"ok\"}"@,
{
    String::from_str("{\"status\":\"ok\"}")
}

/// The not-found body naming the available endpoints.
pub fn not_found_body() -> (r: String)
    ensures
        r@
            == "{\"error\":\"not found\",\"endpoints\":[\"/eval\",\"/health\",\"/stop\",\"/boot\",\"/recompile\",\"/quit\",\"/convert-schelp\"]}"@,
{
    String::from_str(
        "{\"error\":\"not found\",\"endpoints\":[\"/eval\",\"/health\",\"/stop\",\"/boot\",\"/recompile\",\"/quit\",\"/convert-schelp\"]}",
    )
}

/// An error body around the caller's message, inserted verbatim.
pub open spec fn spec_error_body(msg: Seq<char>) -> Seq<char> {
    "{\"error\":\""@ + msg + "\"}"@
}

/// Build an error body.
pub fn error_body(msg: &str) -> (r: String)
    ensures
        r@ == spec_error_body(msg@),
{
    proof {
        reveal_strlit("{\"error\":\"");
        reveal_strlit("\"}");
    }
    let mut r = String::from_str("{\"error\":\"");
    r.append(msg);
    r.append("\"}");
    r
}

/// The accepted answer for an execution request: what was sent and under
/// which id.
pub open spec fn spec_eval_accepted_body(request_id: u64, code_length: nat) -> Seq<char> {
    "{\"status\":\"sent\",\"request_id\":"@ + dec_chars(request_id as nat)
        + ",\"code_length\":"@ + dec_chars(code_length) + "}"@
}

/// Build the accepted answer for an execution request.
pub fn eval_accepted_body(request_id: u64, code_length: usize) -> (r: String)
    ensures
        r@ == spec_eval_accepted_body(request_id, code_length as nat),
{
    proof {
        reveal_strlit("{\"status\":\"sent\",\"request_id\":");
        reveal_strlit(",\"code_length\":");
        reveal_strlit("}");
    }
    let mut r = String::from_str("{\"status\":\"sent\",\"request_id\":");
    let idd = u64_to_string(request_id);
    r.append(idd.as_str());
    r.append(",\"code_length\":");
    let cl = u64_to_string(code_length as u64);
    r.append(cl.as_str());
    r.append("}");
    proof {
        assert(r@ =~= spec_eval_accepted_body(request_id, code_length as nat));
    }
    r
}

/// The accepted answer for a control command: the command and its id.
pub open spec fn spec_command_accepted_body(command: Seq<char>, request_id: u64) -> Seq<char> {
    "{\"status\":\"sent\",\"command\":\""@ + command + "\",\"request_id\":"@ + dec_chars(
        request_id as nat,
    ) + "}"@
}

/// Build the accepted answer for a control command.
pub fn command_accepted_body(command: &str, request_id: u64) -> (r: String)
    ensures
        r@ == spec_command_accepted_body(command@, request_id),
{
    proof {
        reveal_strlit("{\"status\":\"sent\",\"command\":\"");
        reveal_strlit("\",\"request_id\":");
        reveal_strlit("}");
    }
    let mut r = String::from_str("{\"status\":\"sent\",\"command\":\"");
    r.append(command);
    r.append("\",\"request_id\":");
    let idd = u64_to_string(request_id);
    r.append(idd.as_str());
    r.append("}");
    proof {
        assert(r@ =~= spec_command_accepted_body(command@, request_id));
    }
    r
}

/// What the help-file conversion does once its request body has been
/// decoded and the prerequisites probed.
pub enum SchelpStep {
    /// The request body was not JSON or named no path: answer 400.
    BadRequest,
    /// The named file does not exist: answer 404.
    FileNotFound,
    /// The converter's reader script was not found: answer 500.
    NoReader,
    /// Everything is in place: run the converter.
    RunConverter,
}

/// Decide the conversion's first failure, in the order the prerequisites
/// are checked: the path, the file, the reader.
pub fn schelp_step(path_given: bool, file_exists: bool, reader_found: bool) -> (s: SchelpStep)
    ensures
        !path_given ==> s == SchelpStep::BadRequest,
        path_given && !file_exists ==> s == SchelpStep::FileNotFound,
        path_given && file_exists && !reader_found ==> s == SchelpStep::NoReader,
        path_given && file_exists && reader_found ==> s == SchelpStep::RunConverter,
{
    if !path_given {
        SchelpStep::BadRequest
    } else if !file_exists {
        SchelpStep::FileNotFound
    } else if !reader_found {
        SchelpStep::NoReader
    } else {
        SchelpStep::RunConverter
    }
}

/// The successful conversion answer: the converter's output as a JSON
/// string member.
pub open spec fn spec_schelp_success_body(markdown: Seq<u8>) -> Seq<u8> {
    ascii_bytes("{\"markdown\":\""@) + spec_json_escape(markdown) + ascii_bytes("\"}"@)
}

/// Build the successful conversion answer around the converter's output.
pub fn schelp_success_body(markdown: &[u8]) -> (r: Vec<u8>)
    ensures
        r@ == spec_schelp_success_body(markdown@),
{
    proof {
        reveal_strlit("{\"markdown\":\"");
        assert("{\"markdown\":\"".is_ascii());
        reveal_strlit("\"}");
        assert("\"}".is_ascii());
    }
    let mut r = str_to_bytes("{\"markdown\":\"");
    let mut m = crate::messages::json_escape_bytes(markdown);
    r.append(&mut m);
    let mut tail = str_to_bytes("\"}");
    r.append(&mut tail);
    proof {
        assert(r@ =~= spec_schelp_success_body(markdown@));
    }
    r
}

} // verus!
