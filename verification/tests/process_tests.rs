use codex_switcher::process::{
    build_launch_spec, command_failure_details, ensure_switch_allowed, find_active_codex_processes,
    find_antigravity_processes, find_windows_antigravity_processes,
    is_antigravity_app_server_command, is_codex_executable, is_windows_codex_root_process,
    prepare_codex_restart_plan, split_command_line, stop_codex_for_restart, ActiveCodexProcess,
    ProcessError, WindowsCodexProcess,
};

#[test]
fn command_line_splitter_preserves_quoted_paths_and_args() {
    let args = split_command_line(
        r#""C:\Users\Dev\AppData\Local\Programs\Codex\Codex.exe" --profile "Work Account""#,
    );

    assert_eq!(
        args,
        vec![
            r#"C:\Users\Dev\AppData\Local\Programs\Codex\Codex.exe"#,
            "--profile",
            "Work Account",
        ]
    );
}

#[test]
fn launch_spec_rejects_unexpected_executable() {
    let result = build_launch_spec(ActiveCodexProcess {
        pid: 42,
        command_line: r#""C:\Tools\not-codex.exe" --profile Work"#.to_string(),
        executable_path: Some(r#"C:\Tools\not-codex.exe"#.to_string()),
    });

    assert!(result
        .expect_err("non-Codex executable should be rejected")
        .message()
        .contains("Refusing to restart unexpected executable"));
}

#[test]
fn codex_executable_detection_accepts_cli_and_desktop_names() {
    assert!(is_codex_executable("codex"));
    assert!(is_codex_executable(
        r#"C:\Users\Dev\AppData\Local\Programs\Codex\Codex.exe"#
    ));
    assert!(is_codex_executable(
        r#"C:\Program Files\WindowsApps\OpenAI.Codex_26.707.3748.0_x64__2p2nqsd0c76g0\app\ChatGPT.exe"#
    ));
    assert!(!is_codex_executable(
        r#"C:\Users\Dev\AppData\Local\Programs\ChatGPT\ChatGPT.exe"#
    ));
    assert!(!is_codex_executable("not-codex.exe"));
}

#[test]
fn windows_codex_root_detection_accepts_renamed_store_host_only() {
    let renamed_codex = WindowsCodexProcess {
        name: "ChatGPT.exe".to_string(),
        process_id: 100,
        parent_process_id: 1,
        command_line: r#""C:\Program Files\WindowsApps\OpenAI.Codex_26.707.3748.0_x64__2p2nqsd0c76g0\app\ChatGPT.exe""#.to_string(),
        executable_path: r#"C:\Program Files\WindowsApps\OpenAI.Codex_26.707.3748.0_x64__2p2nqsd0c76g0\app\ChatGPT.exe"#.to_string(),
        main_window_title: "Codex".to_string(),
    };
    let standalone_chatgpt = WindowsCodexProcess {
        executable_path: r#"C:\Users\Dev\AppData\Local\Programs\ChatGPT\ChatGPT.exe"#.to_string(),
        ..renamed_codex.clone()
    };

    assert!(is_windows_codex_root_process(&renamed_codex));
    assert!(!is_windows_codex_root_process(&standalone_chatgpt));
}

#[test]
fn launch_spec_accepts_renamed_store_host() {
    let path = r#"C:\Program Files\WindowsApps\OpenAI.Codex_26.707.3748.0_x64__2p2nqsd0c76g0\app\ChatGPT.exe"#;
    let spec = build_launch_spec(ActiveCodexProcess {
        pid: 42,
        command_line: format!(r#""{path}""#),
        executable_path: Some(path.to_string()),
    })
    .expect("renamed Codex desktop host should be restartable");

    assert_eq!(spec.executable, path);
    assert!(spec.args.is_empty());
}

#[test]
fn antigravity_restart_matcher_ignores_plain_codex_cli() {
    assert!(!is_antigravity_app_server_command(
        r#"C:\Users\Dev\AppData\Local\Programs\Codex\codex.exe exec "hello""#
    ));
    assert!(!is_antigravity_app_server_command(
        r#"/usr/local/bin/codex app-server"#
    ));
}

#[test]
fn antigravity_restart_matcher_detects_ide_app_server() {
    assert!(is_antigravity_app_server_command(
        r#"C:\Users\Dev\.vscode\extensions\openai.chatgpt\bin\codex.exe" app-server --analytics-default-enabled"#
    ));
    assert!(is_antigravity_app_server_command(
        "/Users/dev/.antigravity/extensions/openai.chatgpt/bin/codex app-server"
    ));
}

#[test]
fn antigravity_windows_json_payload_detects_app_server_pid() {
    let processes = vec![WindowsCodexProcess {
        name: "codex.exe".to_string(),
        process_id: 1234,
        parent_process_id: 1,
        command_line:
            r#"C:\Users\Dev\.vscode\extensions\openai.chatgpt\bin\codex.exe app-server --analytics-default-enabled"#
                .to_string(),
        executable_path: String::new(),
        main_window_title: String::new(),
    }];

    assert_eq!(find_windows_antigravity_processes(&processes), vec![1234]);
}

#[test]
fn ps_output_lists_codex_cli_processes_except_this_one() {
    let ps = "  PID COMMAND\n  10 /usr/local/bin/codex --profile work\n  11 /usr/bin/vim notes\n  12 codex\n  99 codex\n  13 /home/u/.vscode/extensions/openai.chatgpt/bin/codex app-server\n";
    let (active, background) = find_active_codex_processes(ps, 99);
    let pids: Vec<u32> = active.iter().map(|p| p.pid).collect();
    assert_eq!(pids, vec![10, 12]);
    assert_eq!(background, 1);
    assert_eq!(find_antigravity_processes(ps), vec![13]);
}

#[test]
fn switching_is_refused_while_codex_runs() {
    assert!(ensure_switch_allowed(&[]).is_ok());
    assert!(matches!(ensure_switch_allowed(&[7]), Err(ProcessError::SwitchBlocked { .. })));
}

#[test]
fn restart_stops_only_planned_processes_still_running() {
    let plan = prepare_codex_restart_plan(vec![
        ActiveCodexProcess {
            pid: 5,
            command_line: "/usr/local/bin/codex --profile a".to_string(),
            executable_path: Some("/usr/local/bin/codex".to_string()),
        },
        ActiveCodexProcess {
            pid: 6,
            command_line: "/usr/local/bin/codex".to_string(),
            executable_path: Some("/usr/local/bin/codex".to_string()),
        },
    ])
    .expect("plan");
    assert_eq!(stop_codex_for_restart(&plan, &[6, 8]), vec![6]);
}

#[test]
fn failure_details_prefer_error_output() {
    assert_eq!(command_failure_details(" denied \n", "out", "1"), "denied");
    assert_eq!(command_failure_details("  ", " out ", "1"), "out");
    assert_eq!(
        command_failure_details("", "", "exit status: 1"),
        "process exited with status exit status: 1"
    );
}

#[test]
fn switch_guard_blocks_when_test_override_reports_live_processes() {
    let result = ensure_switch_allowed(&[4242, 4243]);
    assert!(result.is_err());
}

#[test]
fn switch_guard_allows_when_test_override_reports_no_processes() {
    assert!(ensure_switch_allowed(&[]).is_ok());
}

#[test]
fn unquoted_command_line_splits_at_white_space() {
    assert_eq!(
        split_command_line("  /usr/bin/codex\t--profile  work \n"),
        vec!["/usr/bin/codex", "--profile", "work"]
    );
    assert!(split_command_line("   ").is_empty());
}
