//! Tests of the process bookkeeping, the HTTP endpoint decisions and the
//! extension-side helpers.

use sc_launcher::httpapi::{
    command_accepted_body, command_for_route, cors_headers, error_body, eval_accepted_body,
    health_body, not_found_body, route_request, schelp_step, schelp_success_body, HttpMethod,
    Route, SchelpStep,
};
use sc_launcher::lifecycle::{spawn_env, Ports};
use sc_launcher::processes::{
    choose_sclang_path, orphan_pids, parse_ps_line, startup_cleanup_action, StartupCleanup,
};
use sc_launcher::JsonTree;

#[test]
fn spawn_env_names_ports_and_level() {
    let ports = Ports { client_port: 50001, server_port: 50002 };
    let env = spawn_env(&ports, &Some("debug".to_string()));
    let expect: Vec<(String, String)> = vec![
        ("SCLANG_LSP_ENABLE".into(), "1".into()),
        ("SCLANG_LSP_CLIENTPORT".into(), "50001".into()),
        ("SCLANG_LSP_SERVERPORT".into(), "50002".into()),
        ("SCLANG_LSP_LOGLEVEL".into(), "debug".into()),
    ];
    assert_eq!(env, expect);
    let bare = spawn_env(&ports, &None);
    assert_eq!(bare.len(), 3);
}

#[test]
fn ps_lines_parse_and_orphans_are_found() {
    let e1 = parse_ps_line(b"  301 1 sclang").unwrap();
    assert_eq!((e1.pid, e1.ppid), (301, 1));
    assert_eq!(e1.comm, b"sclang".to_vec());
    let e2 = parse_ps_line(b" 400   77  sclang lang server").unwrap();
    assert_eq!((e2.pid, e2.ppid), (400, 77));
    assert_eq!(e2.comm, b"sclang lang server".to_vec());
    assert!(parse_ps_line(b"  PID  PPID COMM").is_none());
    assert!(parse_ps_line(b"301 1").is_none());

    let entries = vec![
        parse_ps_line(b"301 1 sclang").unwrap(),
        parse_ps_line(b"302 200 sclang").unwrap(),
        parse_ps_line(b"303 1 scsynth").unwrap(),
        parse_ps_line(b"304 1 other").unwrap(),
    ];
    assert_eq!(orphan_pids(&entries, b"sclang"), vec![301]);
    assert_eq!(orphan_pids(&entries, b"scsynth"), vec![303]);
}

#[test]
fn startup_cleanup_cases() {
    assert!(matches!(
        startup_cleanup_action(None, false, false),
        StartupCleanup::Nothing
    ));
    assert!(matches!(
        startup_cleanup_action(Some((10, 20)), true, true),
        StartupCleanup::WarnAnotherRunning { launcher_pid: 10 }
    ));
    assert!(matches!(
        startup_cleanup_action(Some((10, 20)), false, true),
        StartupCleanup::KillOrphanAndRemoveFile { sclang_pid: 20 }
    ));
    assert!(matches!(
        startup_cleanup_action(Some((10, 20)), false, false),
        StartupCleanup::RemoveFile
    ));
}

#[test]
fn sclang_path_priority() {
    let arg = Some("/from/arg".to_string());
    let env = Some("/from/env".to_string());
    let which = Some("/from/path".to_string());
    let default = Some("/from/default".to_string());
    assert_eq!(
        choose_sclang_path(&arg, &env, &which, &default).unwrap(),
        "/from/arg"
    );
    assert_eq!(
        choose_sclang_path(&None, &env, &which, &default).unwrap(),
        "/from/env"
    );
    assert_eq!(
        choose_sclang_path(&None, &None, &which, &default).unwrap(),
        "/from/path"
    );
    assert_eq!(
        choose_sclang_path(&None, &None, &None, &default).unwrap(),
        "/from/default"
    );
    assert!(choose_sclang_path(&None, &None, &None, &None).is_none());
}

#[test]
fn http_routing_table() {
    assert_eq!(route_request(HttpMethod::Options, "/anything"), Route::Preflight);
    assert_eq!(route_request(HttpMethod::Get, "/health"), Route::Health);
    assert_eq!(route_request(HttpMethod::Post, "/eval"), Route::Eval);
    assert_eq!(
        route_request(HttpMethod::Post, "/convert-schelp"),
        Route::ConvertSchelp
    );
    assert_eq!(route_request(HttpMethod::Post, "/stop"), Route::Stop);
    assert_eq!(route_request(HttpMethod::Post, "/boot"), Route::Boot);
    assert_eq!(route_request(HttpMethod::Post, "/recompile"), Route::Recompile);
    assert_eq!(route_request(HttpMethod::Post, "/quit"), Route::Quit);
    assert_eq!(route_request(HttpMethod::Get, "/eval"), Route::NotFound);
    assert_eq!(route_request(HttpMethod::Post, "/health"), Route::NotFound);
    assert_eq!(route_request(HttpMethod::Other, "/eval"), Route::NotFound);
}

#[test]
fn control_routes_carry_their_commands() {
    assert_eq!(
        command_for_route(Route::Stop).unwrap(),
        "supercollider.internal.cmdPeriod"
    );
    assert_eq!(
        command_for_route(Route::Boot).unwrap(),
        "supercollider.internal.bootServer"
    );
    assert_eq!(
        command_for_route(Route::Recompile).unwrap(),
        "supercollider.internal.recompile"
    );
    assert_eq!(
        command_for_route(Route::Quit).unwrap(),
        "supercollider.internal.quitServer"
    );
    assert!(command_for_route(Route::Health).is_none());
}

#[test]
fn test_cors_headers_includes_required_headers() {
    let headers = cors_headers();
    assert_eq!(headers.len(), 3);
    let header_strs: Vec<String> = headers
        .iter()
        .map(|h| format!("{}: {}", h.0, h.1))
        .collect();
    assert!(header_strs.iter().any(|h| h.contains("Access-Control-Allow-Origin")));
    assert!(header_strs.iter().any(|h| h.contains("Access-Control-Allow-Methods")));
    assert!(header_strs.iter().any(|h| h.contains("Access-Control-Allow-Headers")));
}

#[test]
fn http_bodies_are_exact() {
    assert_eq!(health_body(), "{\"status\":\"ok\"}");
    assert_eq!(error_body("test error"), "{\"error\":\"test error\"}");
    assert_eq!(
        eval_accepted_body(1000001, 3),
        "{\"status\":\"sent\",\"request_id\":1000001,\"code_length\":3}"
    );
    assert_eq!(
        command_accepted_body("supercollider.internal.recompile", 7),
        "{\"status\":\"sent\",\"command\":\"supercollider.internal.recompile\",\"request_id\":7}"
    );
    assert!(not_found_body().contains("/convert-schelp"));
    let success = schelp_success_body(b"a \"quoted\" line\n");
    let value: serde_json::Value = serde_json::from_slice(&success).unwrap();
    assert_eq!(
        value.get("markdown").unwrap().as_str().unwrap(),
        "a \"quoted\" line\n"
    );
}

#[test]
fn schelp_checks_in_order() {
    assert!(matches!(schelp_step(false, true, true), SchelpStep::BadRequest));
    assert!(matches!(schelp_step(true, false, true), SchelpStep::FileNotFound));
    assert!(matches!(schelp_step(true, true, false), SchelpStep::NoReader));
    assert!(matches!(schelp_step(true, true, true), SchelpStep::RunConverter));
}

#[test]
fn server_id_is_case_insensitive() {
    assert!(sc_launcher::extension::is_supercollider_server("supercollider"));
    assert!(sc_launcher::extension::is_supercollider_server("SuperCollider"));
    assert!(!sc_launcher::extension::is_supercollider_server("supercollider2"));
    assert!(!sc_launcher::extension::is_supercollider_server("sclang"));
}

#[test]
fn launcher_args_default_to_lsp_mode() {
    let empty: Vec<String> = Vec::new();
    let args = sc_launcher::extension::default_launcher_args(&empty);
    let expect: Vec<String> = vec!["--mode".into(), "lsp".into()];
    assert_eq!(args, expect);
    let given: Vec<String> = vec!["--probe".into()];
    assert_eq!(sc_launcher::extension::default_launcher_args(&given), given);
}

#[test]
fn setup_report_layout() {
    let ok = sc_launcher::extension::format_check_setup_report(
        true, "/bin/sc_launcher", "", "0", "probe-ok", "",
    );
    assert!(ok.starts_with("SuperCollider: Check Setup\n\nstatus: ok\n"));
    assert!(ok.contains("launcher: /bin/sc_launcher\n"));
    assert!(ok.contains("exit status: 0\n"));
    assert!(ok.contains("\nstdout:\nprobe-ok\n"));
    assert!(!ok.contains("Troubleshooting"));
    let bad = sc_launcher::extension::format_check_setup_report(
        false, "/bin/sc_launcher", "--mode lsp", "1", "", "boom",
    );
    assert!(bad.contains("status: error\n"));
    assert!(bad.contains("args: --mode lsp\n"));
    assert!(bad.contains("\nstderr:\nboom\n"));
    assert!(bad.contains("Troubleshooting"));
    assert!(bad.contains("- Example settings snippet:\n"));
    assert!(bad.ends_with(
        "  \"lsp\": { \"supercollider\": { \"binary\": { \"path\": \"/path/to/sc_launcher\", \"arguments\": [\"--mode\",\"lsp\",\"--http-port\",\"57130\"] } } }\n"
    ));
    let help = sc_launcher::launcher_not_found_help();
    assert!(help.contains("sc_launcher"));
}

#[test]
fn noise_filter_and_ready_marker() {
    assert!(sc_launcher::is_lsp_noise("[LANGUAGESERVER.QUARK] hello"));
    assert!(sc_launcher::is_lsp_noise("{\"jsonrpc\":\"2.0\"}"));
    assert!(sc_launcher::is_lsp_noise("Content-Length: 10"));
    assert!(!sc_launcher::is_lsp_noise("compiling class library"));
    assert!(sc_launcher::bridge::line_signals_ready("... *** LSP READY *** ..."));
    assert!(!sc_launcher::bridge::line_signals_ready("almost ready"));
}

#[test]
fn default_settings_shape() {
    let tree = sc_launcher::default_workspace_settings();
    match tree {
        JsonTree::Obj(top) => {
            assert_eq!(top.len(), 1);
            assert_eq!(top[0].0, "supercollider");
            match &top[0].1 {
                JsonTree::Obj(inner) => {
                    assert_eq!(inner[0].0, "languageServerLogLevel");
                    assert!(matches!(&inner[0].1, JsonTree::Str(s) if s == "debug"));
                    assert_eq!(inner[1].0, "sclang");
                }
                _ => panic!("supercollider member must be an object"),
            }
        }
        _ => panic!("defaults must be an object"),
    }
}

#[test]
fn settings_merge_replaces_and_appends() {
    let base = sc_launcher::default_workspace_settings();
    // Override the log level and add a new member.
    let override_inner = JsonTree::Obj(vec![
        ("languageServerLogLevel".to_string(), JsonTree::Str("info".to_string())),
        ("extra".to_string(), JsonTree::Str("x".to_string())),
    ]);
    let overrides =
        JsonTree::Obj(vec![("supercollider".to_string(), override_inner)]);
    let merged = sc_launcher::merge_settings(base, &overrides);
    match merged {
        JsonTree::Obj(top) => match &top[0].1 {
            JsonTree::Obj(inner) => {
                assert!(matches!(&inner[0].1, JsonTree::Str(s) if s == "info"));
                assert_eq!(inner[1].0, "sclang");
                assert_eq!(inner[2].0, "extra");
                assert!(matches!(&inner[2].1, JsonTree::Str(s) if s == "x"));
            }
            _ => panic!("supercollider member must stay an object"),
        },
        _ => panic!("merge of objects is an object"),
    }
    // A non-object override replaces the base outright.
    let replaced = sc_launcher::merge_settings(
        sc_launcher::default_workspace_settings(),
        &JsonTree::Str("flat".to_string()),
    );
    assert!(matches!(replaced, JsonTree::Str(s) if s == "flat"));
}

#[test]
fn quark_presence_is_any_installed_path() {
    let none: Vec<String> = Vec::new();
    assert!(!sc_launcher::ensure_quark_present(&none));
    let some: Vec<String> = vec!["/a/b/LanguageServer".into()];
    assert!(sc_launcher::ensure_quark_present(&some));
}
