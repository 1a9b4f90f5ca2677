//! The editor-extension side: recognizing the language-server id, the
//! default launcher arguments, and the text of the setup report and of
//! the help shown when no launcher is found.

use vstd::prelude::*;

use crate::textutil::ascii_bytes;

verus! {

use vstd::string::StringExecFns;
use vstd::string::StringSliceAdditionalSpecFns;

/// An ASCII byte folded to lower case.
pub open spec fn lower_byte(b: u8) -> u8 {
    if 65 <= b <= 90 {
        (b + 32) as u8
    } else {
        b
    }
}

/// A byte string folded to lower case.
pub open spec fn spec_lower(s: Seq<u8>) -> Seq<u8> {
    s.map_values(|b: u8| lower_byte(b))
}

/// Whether `id` names this language server, compared without regard to
/// ASCII case.
pub fn is_supercollider_server(id: &str) -> (r: bool)
    ensures
        r == (spec_lower(id.spec_bytes()) == ascii_bytes("supercollider"@)),
{
    proof {
        reveal_strlit("supercollider");
        assert("supercollider".is_ascii());
    }
    let target = crate::textutil::str_to_bytes("supercollider");
    let ib = id.as_bytes();
    let tlen: usize = target.len();
    if ib.len() != tlen {
        proof {
            assert(spec_lower(id.spec_bytes()).len() == id.spec_bytes().len());
        }
        return false;
    }
    let mut i: usize = 0;
    while i < tlen
        invariant
            tlen == target@.len(),
            ib@.len() == tlen,
            ib@ == id.spec_bytes(),
            target@ == ascii_bytes("supercollider"@),
            0 <= i <= tlen,
            forall|j: int| 0 <= j < i ==> lower_byte(#[trigger] ib@[j]) == target@[j],
        decreases tlen - i,
    {
        let b = ib[i];
        let folded: u8 = if b >= 65 && b <= 90 {
            b + 32
        } else {
            b
        };
        if folded != target[i] {
            proof {
                assert(spec_lower(ib@)[i as int] == lower_byte(ib@[i as int]));
            }
            return false;
        }
        i = i + 1;
    }
    proof {
        assert(spec_lower(ib@) =~= target@);
    }
    true
}

/// The launcher arguments to use: the configured ones, or the default
/// protocol mode when none are configured.
pub fn default_launcher_args(provided: &Vec<String>) -> (r: Vec<String>)
    ensures
        provided@.len() == 0 ==> r.deep_view() == seq!["--mode"@, "lsp"@],
        provided@.len() > 0 ==> r.deep_view() == provided.deep_view(),
{
    proof {
        reveal_strlit("--mode");
        reveal_strlit("lsp");
    }
    if provided.len() == 0 {
        let mut r: Vec<String> = Vec::new();
        r.push(String::from_str("--mode"));
        r.push(String::from_str("lsp"));
        proof {
            assert(r.deep_view() =~~= seq!["--mode"@, "lsp"@]);
        }
        r
    } else {
        let n = provided.len();
        let mut r: Vec<String> = Vec::new();
        let mut i: usize = 0;
        while i < n
            invariant
                n == provided@.len(),
                0 <= i <= n,
                r.deep_view() == provided.deep_view().take(i as int),
            decreases n - i,
        {
            let ghost pre = r.deep_view();
            r.push(provided[i].clone());
            proof {
                assert(r.deep_view() =~~= pre.push(provided@[i as int]@));
                assert(provided.deep_view()[i as int] == provided@[i as int]@);
                assert(r.deep_view() =~= provided.deep_view().take(i + 1));
            }
            i = i + 1;
        }
        proof {
            assert(provided.deep_view().take(n as int) =~= provided.deep_view());
        }
        r
    }
}

/// The help shown when no launcher executable can be found.
pub fn launcher_not_found_help() -> (r: String)
    ensures
        r@
            == "supercollider LSP launcher not found.\n- Set lsp.supercollider.binary.path to the sc_launcher binary (args: [\"--mode\",\"lsp\",\"--http-port\",\"57130\"])\n- Or add sc_launcher to PATH so Zed can find it\n- If developing in this repo, run `cargo build --release` in server/launcher to create server/launcher/target/release/sc_launcher\n- Ensure LanguageServer.quark is installed via Quarks.install(\"LanguageServer\");"@,
{
    String::from_str(
        "supercollider LSP launcher not found.\n- Set lsp.supercollider.binary.path to the sc_launcher binary (args: [\"--mode\",\"lsp\",\"--http-port\",\"57130\"])\n- Or add sc_launcher to PATH so Zed can find it\n- If developing in this repo, run `cargo build --release` in server/launcher to create server/launcher/target/release/sc_launcher\n- Ensure LanguageServer.quark is installed via Quarks.install(\"LanguageServer\");",
    )
}

/// The troubleshooting tail of a failed setup report.
pub open spec fn report_troubleshooting() -> Seq<char> {
    "\nTroubleshooting:\n- Set lsp.supercollider.binary.path to the sc_launcher binary (args: [\"--mode\",\"lsp\",\"--http-port\",\"57130\"]).\n- Add sc_launcher to PATH so Zed can find it.\n- Build the dev launcher in server/launcher with `cargo build --release` (binary at server/launcher/target/release/sc_launcher).\n- Install LanguageServer.quark: Quarks.install(\"LanguageServer\");\n- Example settings snippet:\n  \"lsp\": { \"supercollider\": { \"binary\": { \"path\": \"/path/to/sc_launcher\", \"arguments\": [\"--mode\",\"lsp\",\"--http-port\",\"57130\"] } } }\n"@
}

/// The setup report's text for a finished probe of the launcher: the
/// status, the launcher path, the arguments when any were used, the exit
/// status, whatever the probe printed, and the troubleshooting notes on
/// failure.
pub open spec fn spec_check_setup_report(
    ok: bool,
    launcher: Seq<char>,
    args_joined: Seq<char>,
    status: Seq<char>,
    out_trimmed: Seq<char>,
    err_trimmed: Seq<char>,
) -> Seq<char> {
    "SuperCollider: Check Setup\n\nstatus: "@ + (if ok {
        "ok"@
    } else {
        "error"@
    }) + "\nlauncher: "@ + launcher + "\n"@ + (if args_joined.len() > 0 {
        "args: "@ + args_joined + "\n"@
    } else {
        Seq::empty()
    }) + "exit status: "@ + status + "\n"@ + (if out_trimmed.len() > 0 {
        "\nstdout:\n"@ + out_trimmed + "\n"@
    } else {
        Seq::empty()
    }) + (if err_trimmed.len() > 0 {
        "\nstderr:\n"@ + err_trimmed + "\n"@
    } else {
        Seq::empty()
    }) + (if ok {
        Seq::empty()
    } else {
        report_troubleshooting()
    })
}

/// Build the setup report.  The output streams are handed in already
/// trimmed.
pub fn format_check_setup_report(
    ok: bool,
    launcher: &str,
    args_joined: &str,
    status: &str,
    out_trimmed: &str,
    err_trimmed: &str,
) -> (r: String)
    ensures
        r@ == spec_check_setup_report(
            ok,
            launcher@,
            args_joined@,
            status@,
            out_trimmed@,
            err_trimmed@,
        ),
{
    proof {
        reveal_strlit("SuperCollider: Check Setup\n\nstatus: ");
        reveal_strlit("ok");
        reveal_strlit("error");
        reveal_strlit("\nlauncher: ");
        reveal_strlit("\n");
        reveal_strlit("args: ");
        reveal_strlit("exit status: ");
        reveal_strlit("\nstdout:\n");
        reveal_strlit("\nstderr:\n");
    }
    let mut r = String::from_str("SuperCollider: Check Setup\n\nstatus: ");
    r.append(if ok { "ok" } else { "error" });
    r.append("\nlauncher: ");
    r.append(launcher);
    r.append("\n");
    if !args_joined.is_empty() {
        r.append("args: ");
        r.append(args_joined);
        r.append("\n");
    }
    r.append("exit status: ");
    r.append(status);
    r.append("\n");
    if !out_trimmed.is_empty() {
        r.append("\nstdout:\n");
        r.append(out_trimmed);
        r.append("\n");
    }
    if !err_trimmed.is_empty() {
        r.append("\nstderr:\n");
        r.append(err_trimmed);
        r.append("\n");
    }
    if !ok {
        let tail = report_troubleshooting_exec();
        r.append(tail);
    }
    proof {
        assert(r@ =~= spec_check_setup_report(
            ok,
            launcher@,
            args_joined@,
            status@,
            out_trimmed@,
            err_trimmed@,
        ));
    }
    r
}

/// The troubleshooting tail, as an executable string slice.
fn report_troubleshooting_exec() -> (s: &'static str)
    ensures
        s@ == report_troubleshooting(),
{
    "\nTroubleshooting:\n- Set lsp.supercollider.binary.path to the sc_launcher binary (args: [\"--mode\",\"lsp\",\"--http-port\",\"57130\"]).\n- Add sc_launcher to PATH so Zed can find it.\n- Build the dev launcher in server/launcher with `cargo build --release` (binary at server/launcher/target/release/sc_launcher).\n- Install LanguageServer.quark: Quarks.install(\"LanguageServer\");\n- Example settings snippet:\n  \"lsp\": { \"supercollider\": { \"binary\": { \"path\": \"/path/to/sc_launcher\", \"arguments\": [\"--mode\",\"lsp\",\"--http-port\",\"57130\"] } } }\n"
}

} // verus!
