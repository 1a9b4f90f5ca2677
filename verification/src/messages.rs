//! Construction of the protocol messages the bridge writes itself: the
//! synthesized handshake response, requests and notifications of its own,
//! and the pid-file body.  Each builder's output is pinned byte for byte.

use vstd::prelude::*;

use crate::ids::{IdView, RequestId};
use crate::textutil::{ascii_bytes, dec_bytes, str_to_bytes, u64_to_dec_bytes};

verus! {

use vstd::string::StringSliceAdditionalSpecFns;
use vstd::utf8::encode_utf8;

/// The escape of one byte inside a JSON string: quote and backslash get a
/// backslash, the named control characters their short forms, the rest of
/// the control range the four-digit form, and everything else passes
/// through.
pub open spec fn escape_byte(b: u8) -> Seq<u8> {
    if b == 34 {
        seq![92u8, 34u8]
    } else if b == 92 {
        seq![92u8, 92u8]
    } else if b == 8 {
        seq![92u8, 98u8]
    } else if b == 12 {
        seq![92u8, 102u8]
    } else if b == 10 {
        seq![92u8, 110u8]
    } else if b == 13 {
        seq![92u8, 114u8]
    } else if b == 9 {
        seq![92u8, 116u8]
    } else if b < 32 {
        seq![92u8, 117u8, 48u8, 48u8, hex_digit_byte((b / 16) as u8), hex_digit_byte(
            (b % 16) as u8,
        )]
    } else {
        seq![b]
    }
}

/// Lower-case hexadecimal digit for a value below 16.
pub open spec fn hex_digit_byte(d: u8) -> u8 {
    if d < 10 {
        (48 + d) as u8
    } else {
        (87 + d) as u8
    }
}

/// The named escape function, for use with `flat_map`.
pub open spec fn escape_fn() -> spec_fn(u8) -> Seq<u8> {
    |b: u8| escape_byte(b)
}

/// A byte string escaped for inclusion in a JSON string literal.
pub open spec fn spec_json_escape(s: Seq<u8>) -> Seq<u8> {
    s.flat_map(escape_fn())
}

/// Escape a byte string for inclusion in a JSON string literal.
pub fn json_escape_bytes(s: &[u8]) -> (r: Vec<u8>)
    ensures
        r@ == spec_json_escape(s@),
{
    let slen: usize = s.len();
    let mut r: Vec<u8> = Vec::new();
    let mut i: usize = 0;
    proof {
        assert(s@.take(0).flat_map(escape_fn()) =~= Seq::<u8>::empty());
    }
    while i < slen
        invariant
            slen == s@.len(),
            0 <= i <= slen,
            r@ == s@.take(i as int).flat_map(escape_fn()),
        decreases slen - i,
    {
        let b = s[i];
        let ghost pre = r@;
        if b == 34 {
            r.push(92);
            r.push(34);
        } else if b == 92 {
            r.push(92);
            r.push(92);
        } else if b == 8 {
            r.push(92);
            r.push(98);
        } else if b == 12 {
            r.push(92);
            r.push(102);
        } else if b == 10 {
            r.push(92);
            r.push(110);
        } else if b == 13 {
            r.push(92);
            r.push(114);
        } else if b == 9 {
            r.push(92);
            r.push(116);
        } else if b < 32 {
            r.push(92);
            r.push(117);
            r.push(48);
            r.push(48);
            let hi = b / 16;
            let lo = b % 16;
            r.push(if hi < 10 { 48 + hi } else { 87 + hi });
            r.push(if lo < 10 { 48 + lo } else { 87 + lo });
        } else {
            r.push(b);
        }
        proof {
            assert(r@ =~= pre + escape_byte(s@[i as int]));
            s@.take(i as int).lemma_flat_map_push(escape_fn(), s@[i as int]);
            assert(s@.take(i as int).push(s@[i as int]) =~= s@.take(i + 1));
        }
        i = i + 1;
    }
    proof {
        assert(s@.take(slen as int) =~= s@);
    }
    r
}

/// A request id on the wire: the plain decimal for a number, the escaped
/// text in quotes for a string.
pub open spec fn spec_render_id(id: IdView) -> Seq<u8> {
    match id {
        IdView::Num(n) => if n >= 0 {
            dec_bytes(n as nat)
        } else {
            seq![45u8] + dec_bytes((-n) as nat)
        },
        IdView::Str(s) => seq![34u8] + spec_json_escape(encode_utf8(s)) + seq![34u8],
    }
}

/// Render a request id as JSON.
pub fn render_id(id: &RequestId) -> (r: Vec<u8>)
    ensures
        r@ == spec_render_id(id@),
{
    match id {
        RequestId::Number(n) => {
            let n = *n;
            if n >= 0 {
                u64_to_dec_bytes(n as u64)
            } else {
                let mut r: Vec<u8> = Vec::new();
                r.push(45);
                let mut d = u64_to_dec_bytes((-(n as i128)) as u64);
                r.append(&mut d);
                proof {
                    assert(r@ =~= spec_render_id(id@));
                }
                r
            }
        },
        RequestId::String(s) => {
            let mut r: Vec<u8> = Vec::new();
            r.push(34);
            let mut e = json_escape_bytes(s.as_str().as_bytes());
            r.append(&mut e);
            r.push(34);
            proof {
                assert(r@ =~= spec_render_id(id@));
            }
            r
        },
    }
}

/// Append the bytes of an ASCII literal.
fn push_str_bytes(v: &mut Vec<u8>, s: &str)
    requires
        s.is_ascii(),
    ensures
        final(v)@ == old(v)@ + ascii_bytes(s@),
{
    let mut b = str_to_bytes(s);
    v.append(&mut b);
}

/// The body of the synthesized handshake response for a given request id:
/// the fixed capability set and server identity promised by the bridge,
/// with the original id echoed.
pub open spec fn spec_initialize_response(id: IdView) -> Seq<u8> {
    ascii_bytes("{\"jsonrpc\":\"2.0\",\"id\":"@) + spec_render_id(id) + ascii_bytes(
        initialize_response_tail()@,
    )
}

/// Everything of the handshake response after the echoed id: capabilities
/// for incremental sync with open/close and save notifications, completion
/// with its trigger characters, signature help, hover, definition,
/// declaration, implementation, references, selection range, folding
/// range, code lens, source code actions, workspace symbols, and the fixed
/// executable command names; then the server identity.
pub open spec fn initialize_response_tail() -> &'static str {
    ",\"result\":{\"capabilities\":{\"textDocumentSync\":{\"openClose\":true,\"change\":2,\"save\":{}},\"completionProvider\":{\"resolveProvider\":false,\"triggerCharacters\":[\".\",\"(\",\"~\"],\"completionItem\":{\"labelDetailsSupport\":true}},\"signatureHelpProvider\":{\"triggerCharacters\":[\"(\"],\"retriggerCharacters\":[\",\"]},\"hoverProvider\":true,\"definitionProvider\":true,\"declarationProvider\":true,\"implementationProvider\":true,\"referencesProvider\":true,\"selectionRangeProvider\":true,\"foldingRangeProvider\":true,\"codeLensProvider\":{},\"codeActionProvider\":{\"codeActionKinds\":[\"source\"]},\"workspaceSymbolProvider\":true,\"executeCommandProvider\":{\"commands\":[\"supercollider.eval\",\"supercollider.evaluateSelection\",\"supercollider.internal.bootServer\",\"supercollider.internal.rebootServer\",\"supercollider.internal.quitServer\",\"supercollider.internal.recompile\",\"supercollider.internal.cmdPeriod\",\"supercollider.internal.openPostLog\"]}},\"serverInfo\":{\"name\":\"sclang:LSPConnection\",\"version\":\"0.1\"}}}"
}

/// Build the synthesized handshake response body.
pub fn create_initialize_response(id: &RequestId) -> (r: Vec<u8>)
    ensures
        r@ == spec_initialize_response(id@),
{
    proof {
        reveal_strlit("{\"jsonrpc\":\"2.0\",\"id\":");
        assert("{\"jsonrpc\":\"2.0\",\"id\":".is_ascii());
    }
    let mut r = str_to_bytes("{\"jsonrpc\":\"2.0\",\"id\":");
    let mut idb = render_id(id);
    r.append(&mut idb);
    let tail = initialize_response_tail_exec();
    proof {
        assert(tail.is_ascii());
    }
    push_str_bytes(&mut r, tail);
    proof {
        assert(r@ =~= spec_initialize_response(id@));
    }
    r
}

/// The fixed tail of the handshake response, with its characters known.
#[verifier::when_used_as_spec(initialize_response_tail)]
fn initialize_response_tail_exec() -> (s: &'static str)
    ensures
        s == initialize_response_tail(),
        s.is_ascii(),
{
    proof {
        reveal_strlit(
            ",\"result\":{\"capabilities\":{\"textDocumentSync\":{\"openClose\":true,\"change\":2,\"save\":{}},\"completionProvider\":{\"resolveProvider\":false,\"triggerCharacters\":[\".\",\"(\",\"~\"],\"completionItem\":{\"labelDetailsSupport\":true}},\"signatureHelpProvider\":{\"triggerCharacters\":[\"(\"],\"retriggerCharacters\":[\",\"]},\"hoverProvider\":true,\"definitionProvider\":true,\"declarationProvider\":true,\"implementationProvider\":true,\"referencesProvider\":true,\"selectionRangeProvider\":true,\"foldingRangeProvider\":true,\"codeLensProvider\":{},\"codeActionProvider\":{\"codeActionKinds\":[\"source\"]},\"workspaceSymbolProvider\":true,\"executeCommandProvider\":{\"commands\":[\"supercollider.eval\",\"supercollider.evaluateSelection\",\"supercollider.internal.bootServer\",\"supercollider.internal.rebootServer\",\"supercollider.internal.quitServer\",\"supercollider.internal.recompile\",\"supercollider.internal.cmdPeriod\",\"supercollider.internal.openPostLog\"]}},\"serverInfo\":{\"name\":\"sclang:LSPConnection\",\"version\":\"0.1\"}}}",
        );
    }
    ",\"result\":{\"capabilities\":{\"textDocumentSync\":{\"openClose\":true,\"change\":2,\"save\":{}},\"completionProvider\":{\"resolveProvider\":false,\"triggerCharacters\":[\".\",\"(\",\"~\"],\"completionItem\":{\"labelDetailsSupport\":true}},\"signatureHelpProvider\":{\"triggerCharacters\":[\"(\"],\"retriggerCharacters\":[\",\"]},\"hoverProvider\":true,\"definitionProvider\":true,\"declarationProvider\":true,\"implementationProvider\":true,\"referencesProvider\":true,\"selectionRangeProvider\":true,\"foldingRangeProvider\":true,\"codeLensProvider\":{},\"codeActionProvider\":{\"codeActionKinds\":[\"source\"]},\"workspaceSymbolProvider\":true,\"executeCommandProvider\":{\"commands\":[\"supercollider.eval\",\"supercollider.evaluateSelection\",\"supercollider.internal.bootServer\",\"supercollider.internal.rebootServer\",\"supercollider.internal.quitServer\",\"supercollider.internal.recompile\",\"supercollider.internal.cmdPeriod\",\"supercollider.internal.openPostLog\"]}},\"serverInfo\":{\"name\":\"sclang:LSPConnection\",\"version\":\"0.1\"}}}"
}

/// A launcher-originated request with the standard envelope.
pub open spec fn spec_lsp_request(id: u64, method: Seq<u8>, params: Seq<u8>) -> Seq<u8> {
    ascii_bytes("{\"jsonrpc\":\"2.0\",\"id\":"@) + dec_bytes(id as nat) + ascii_bytes(
        ",\"method\":\""@,
    ) + spec_json_escape(method) + ascii_bytes("\",\"params\":"@) + params + ascii_bytes("}"@)
}

/// Build a request of the bridge's own: envelope, id, method, and the
/// already-encoded params value.
pub fn create_lsp_request(id: u64, method: &str, params_json: &str) -> (r: Vec<u8>)
    ensures
        r@ == spec_lsp_request(id, method.spec_bytes(), params_json.spec_bytes()),
{
    create_lsp_request_bytes(id, method, params_json.as_bytes())
}

/// Build a request of the bridge's own from raw params bytes.
fn create_lsp_request_bytes(id: u64, method: &str, params_json: &[u8]) -> (r: Vec<u8>)
    ensures
        r@ == spec_lsp_request(id, method.spec_bytes(), params_json@),
{
    proof {
        reveal_strlit("{\"jsonrpc\":\"2.0\",\"id\":");
        assert("{\"jsonrpc\":\"2.0\",\"id\":".is_ascii());
        reveal_strlit(",\"method\":\"");
        assert(",\"method\":\"".is_ascii());
        reveal_strlit("\",\"params\":");
        assert("\",\"params\":".is_ascii());
        reveal_strlit("}");
        assert("}".is_ascii());
    }
    let mut r = str_to_bytes("{\"jsonrpc\":\"2.0\",\"id\":");
    let mut idb = u64_to_dec_bytes(id);
    r.append(&mut idb);
    push_str_bytes(&mut r, ",\"method\":\"");
    let mut mb = json_escape_bytes(method.as_bytes());
    r.append(&mut mb);
    push_str_bytes(&mut r, "\",\"params\":");
    let mut pb = vstd::slice::slice_to_vec(params_json);
    r.append(&mut pb);
    push_str_bytes(&mut r, "}");
    proof {
        assert(r@ =~= spec_lsp_request(id, method.spec_bytes(), params_json@));
    }
    r
}

/// A launcher-originated notification: like a request, but without an id.
pub open spec fn spec_lsp_notification(method: Seq<u8>, params: Seq<u8>) -> Seq<u8> {
    ascii_bytes("{\"jsonrpc\":\"2.0\",\"method\":\""@) + spec_json_escape(method) + ascii_bytes(
        "\",\"params\":"@,
    ) + params + ascii_bytes("}"@)
}

/// Build a notification of the bridge's own.
pub fn create_lsp_notification(method: &str, params_json: &str) -> (r: Vec<u8>)
    ensures
        r@ == spec_lsp_notification(method.spec_bytes(), params_json.spec_bytes()),
{
    proof {
        reveal_strlit("{\"jsonrpc\":\"2.0\",\"method\":\"");
        assert("{\"jsonrpc\":\"2.0\",\"method\":\"".is_ascii());
        reveal_strlit("\",\"params\":");
        assert("\",\"params\":".is_ascii());
        reveal_strlit("}");
        assert("}".is_ascii());
    }
    let mut r = str_to_bytes("{\"jsonrpc\":\"2.0\",\"method\":\"");
    let mut mb = json_escape_bytes(method.as_bytes());
    r.append(&mut mb);
    push_str_bytes(&mut r, "\",\"params\":");
    let mut pb = vstd::slice::slice_to_vec(params_json.as_bytes());
    r.append(&mut pb);
    push_str_bytes(&mut r, "}");
    proof {
        assert(r@ =~= spec_lsp_notification(method.spec_bytes(), params_json.spec_bytes()));
    }
    r
}

/// Already-encoded JSON values joined by commas.
pub open spec fn spec_join_args(args: Seq<Seq<u8>>) -> Seq<u8>
    decreases args.len(),
{
    if args.len() == 0 {
        Seq::empty()
    } else if args.len() == 1 {
        args.last()
    } else {
        spec_join_args(args.drop_last()) + seq![44u8] + args.last()
    }
}

/// The params of a command-execution request: the command name and its
/// already-encoded arguments.
pub open spec fn spec_execute_command_params(command: Seq<u8>, args: Seq<Seq<u8>>) -> Seq<u8> {
    ascii_bytes("{\"command\":\""@) + spec_json_escape(command) + ascii_bytes(
        "\",\"arguments\":["@,
    ) + spec_join_args(args) + ascii_bytes("]}"@)
}

/// A command-execution request: the standard envelope around the fixed
/// method name and the command params.
pub open spec fn spec_execute_command_request(id: u64, command: Seq<u8>, args: Seq<Seq<u8>>) -> Seq<
    u8,
> {
    spec_lsp_request(
        id,
        ascii_bytes("workspace/executeCommand"@),
        spec_execute_command_params(command, args),
    )
}

/// Build a command-execution request.  Each argument is handed in as an
/// already-encoded JSON value.
pub fn create_execute_command_request(id: u64, command: &str, arguments_json: &Vec<String>) -> (r:
    Vec<u8>)
    ensures
        r@ == spec_execute_command_request(
            id,
            command.spec_bytes(),
            arguments_json.deep_view().map_values(|s: Seq<char>| encode_utf8(s)),
        ),
{
    proof {
        reveal_strlit("{\"command\":\"");
        assert("{\"command\":\"".is_ascii());
        reveal_strlit("\",\"arguments\":[");
        assert("\",\"arguments\":[".is_ascii());
        reveal_strlit("]}");
        assert("]}".is_ascii());
        reveal_strlit(",");
        reveal_strlit("workspace/executeCommand");
        assert("workspace/executeCommand".is_ascii());
    }
    let ghost gargs = arguments_json.deep_view().map_values(|s: Seq<char>| encode_utf8(s));
    let mut params = str_to_bytes("{\"command\":\"");
    let mut cb = json_escape_bytes(command.as_bytes());
    params.append(&mut cb);
    push_str_bytes(&mut params, "\",\"arguments\":[");
    let ghost prefix = params@;
    let n = arguments_json.len();
    let mut i: usize = 0;
    proof {
        assert(gargs.take(0) =~= Seq::<Seq<u8>>::empty());
        assert(params@ =~= prefix + spec_join_args(gargs.take(0)));
    }
    while i < n
        invariant
            n == arguments_json@.len(),
            gargs == arguments_json.deep_view().map_values(|s: Seq<char>| encode_utf8(s)),
            gargs.len() == n,
            0 <= i <= n,
            params@ == prefix + spec_join_args(gargs.take(i as int)),
        decreases n - i,
    {
        let ghost pre = params@;
        if i > 0 {
            params.push(44);
        }
        let mut ab = vstd::slice::slice_to_vec(arguments_json[i].as_str().as_bytes());
        params.append(&mut ab);
        proof {
            assert(arguments_json.deep_view()[i as int] == arguments_json@[i as int]@);
            assert(gargs[i as int] == encode_utf8(arguments_json@[i as int]@));
            assert(gargs.take(i + 1).last() == gargs[i as int]);
            assert(gargs.take(i + 1).drop_last() =~= gargs.take(i as int));
            if i == 0 {
                assert(spec_join_args(gargs.take(1)) == gargs[0]);
                assert(params@ =~= prefix + spec_join_args(gargs.take(i + 1)));
            } else {
                assert(spec_join_args(gargs.take(i + 1)) == spec_join_args(gargs.take(i as int))
                    + seq![44u8] + gargs[i as int]);
                assert(params@ =~= prefix + spec_join_args(gargs.take(i + 1)));
            }
        }
        i = i + 1;
    }
    proof {
        assert(gargs.take(n as int) =~= gargs);
    }
    push_str_bytes(&mut params, "]}");
    proof {
        assert(params@ =~= spec_execute_command_params(command.spec_bytes(), gargs));
    }
    let r = create_lsp_request_bytes(id, "workspace/executeCommand", params.as_slice());
    r
}

/// The pid-file body naming the launcher and the runtime process.
pub open spec fn spec_pid_file_contents(launcher_pid: u32, sclang_pid: u32) -> Seq<u8> {
    ascii_bytes("{\"launcher_pid\":"@) + dec_bytes(launcher_pid as nat) + ascii_bytes(
        ",\"sclang_pid\":"@,
    ) + dec_bytes(sclang_pid as nat) + ascii_bytes("}"@)
}

/// Build the pid-file body.
pub fn pid_file_contents(launcher_pid: u32, sclang_pid: u32) -> (r: Vec<u8>)
    ensures
        r@ == spec_pid_file_contents(launcher_pid, sclang_pid),
{
    proof {
        reveal_strlit("{\"launcher_pid\":");
        assert("{\"launcher_pid\":".is_ascii());
        reveal_strlit(",\"sclang_pid\":");
        assert(",\"sclang_pid\":".is_ascii());
        reveal_strlit("}");
        assert("}".is_ascii());
    }
    let mut r = str_to_bytes("{\"launcher_pid\":");
    let mut a = u64_to_dec_bytes(launcher_pid as u64);
    r.append(&mut a);
    push_str_bytes(&mut r, ",\"sclang_pid\":");
    let mut b = u64_to_dec_bytes(sclang_pid as u64);
    r.append(&mut b);
    push_str_bytes(&mut r, "}");
    proof {
        assert(r@ =~= spec_pid_file_contents(launcher_pid, sclang_pid));
    }
    r
}

} // verus!
