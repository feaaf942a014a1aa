use copilot_sdk::process::{
    choose_cli, cli_path_override, copilot_program, exit_code, find_copilot, find_executable, find_node,
    is_node_extension, is_node_script, node_program, still_running,
    stdio_options, stdio_plan, ProcessOptions,
};
use std::path::PathBuf;

#[test]
fn test_process_options_builder() {
    let options = ProcessOptions::new()
        .working_dir(PathBuf::from("/tmp"))
        .env("FOO", "bar")
        .inherit_env(false)
        .stdin(true)
        .stdout(true)
        .stderr(true);

    assert_eq!(options.working_directory, Some(PathBuf::from("/tmp")));
    assert_eq!(options.environment.get("FOO"), Some(&"bar".to_string()));
    assert!(!options.inherit_environment);
    assert!(options.redirect_stdin);
    assert!(options.redirect_stdout);
    assert!(options.redirect_stderr);
}

#[test]
fn test_process_options_default() {
    let options = ProcessOptions::default();

    assert!(options.working_directory.is_none());
    assert!(options.environment.is_empty());
    assert!(options.inherit_environment);
    assert!(options.redirect_stdin);
    assert!(options.redirect_stdout);
    assert!(!options.redirect_stderr);
}

#[test]
fn test_is_node_script() {
    assert!(is_node_script("script.js"));
    assert!(is_node_script("script.mjs"));
    assert!(is_node_script("/path/to/script.js"));
    assert!(!is_node_script("script.ts"));
    assert!(!is_node_script("script"));
    assert!(!is_node_script("script.py"));
}

#[test]
fn test_find_node() {
    // Whether it finds node depends on the system; it must not panic.
    let _ = find_node();
}

#[test]
fn node_script_edge_cases() {
    // A dot that starts the file name does not begin an extension.
    assert!(!is_node_script(".js"));
    assert!(!is_node_script("dir/.mjs"));
    // Trailing slashes and `.` components are not the file name.
    assert!(is_node_script("dir/app.js/"));
    assert!(is_node_script("dir/app.mjs/."));
    assert!(is_node_script("a/./b.js"));
    // `..` has no file name.
    assert!(!is_node_script("app.js/.."));
    // Only the last extension counts.
    assert!(is_node_script("bundle.min.js"));
    assert!(!is_node_script("script.js.map"));
    // The extension lies in the file name, not in a directory.
    assert!(!is_node_script("dir.js/script"));
    assert!(!is_node_script(""));
    assert!(!is_node_script("/"));
    assert!(is_node_script("..js"));
    assert!(!is_node_script("script.JS"));
}

#[test]
fn env_replaces_a_key_and_keeps_others() {
    let options = ProcessOptions::new().env("A", "1").env("B", "2").env("A", "3");
    assert_eq!(options.environment.len(), 2);
    assert_eq!(options.environment.get("A"), Some(&"3".to_string()));
    assert_eq!(options.environment.get("B"), Some(&"2".to_string()));
    assert_eq!(options.environment.get("C"), None);
}

#[test]
fn stdio_plan_follows_the_options() {
    let p = stdio_plan(&ProcessOptions::new());
    assert!(p.pipe_stdin && p.pipe_stdout && !p.pipe_stderr);
    assert!(p.make_transport);
    assert!(!p.keep_stdout);
    assert!(!p.keep_stderr);

    let p = stdio_plan(&ProcessOptions::new().stdin(false).stderr(true));
    assert!(!p.make_transport);
    assert!(p.keep_stdout);
    assert!(p.keep_stderr);
    assert!(p.pipe_stderr);

    let p = stdio_plan(&ProcessOptions::new().stdout(false));
    assert!(!p.make_transport);
    assert!(!p.keep_stdout);

    let o = stdio_options();
    assert!(o.redirect_stdin && o.redirect_stdout && !o.redirect_stderr);
}

#[test]
fn exit_codes() {
    assert_eq!(exit_code(Some(0)), 0);
    assert_eq!(exit_code(Some(3)), 3);
    assert_eq!(exit_code(None), -1);
}

#[test]
fn cli_path_override_is_trimmed() {
    assert_eq!(cli_path_override(Some("  /usr/bin/copilot \n")), Some("/usr/bin/copilot".to_string()));
    assert_eq!(cli_path_override(Some("/opt/copilot")), Some("/opt/copilot".to_string()));
    assert_eq!(cli_path_override(Some(" \t ")), None);
    assert_eq!(cli_path_override(Some("")), None);
    assert_eq!(cli_path_override(None), None);
    assert_eq!(cli_path_override(Some("\u{3000}x y\u{A0}")), Some("x y".to_string()));
}

#[test]
fn find_executable_does_not_find_nonsense() {
    assert!(find_executable("no-such-executable-for-this-test-0c1d").is_none());
}

#[test]
fn override_wins_over_path_lookup() {
    let p = PathBuf::from("/opt/tools/copilot");
    let q = PathBuf::from("/usr/bin/copilot");
    assert_eq!(choose_cli(Some(p.clone()), Some(q.clone())), Some(p.clone()));
    assert_eq!(choose_cli(Some(p.clone()), None), Some(p));
    assert_eq!(choose_cli(None, Some(q.clone())), Some(q));
    assert_eq!(choose_cli(None, None), None);
    // the PATH lookup is that of `copilot`
    assert_eq!(find_copilot(), find_executable("copilot"));
}

#[test]
fn running_unless_the_query_saw_an_exit() {
    assert!(still_running(None));
    assert!(still_running(Some(false)));
    assert!(!still_running(Some(true)));
}

#[test]
fn program_names() {
    assert_eq!(node_program(), "node");
    assert_eq!(copilot_program(), "copilot");
    assert_eq!(find_node(), find_executable("node"));
}

#[test]
fn node_extensions() {
    assert!(is_node_extension(Some("js")));
    assert!(is_node_extension(Some("mjs")));
    assert!(!is_node_extension(Some("cjs")));
    assert!(!is_node_extension(Some("JS")));
    assert!(!is_node_extension(Some("")));
    assert!(!is_node_extension(Some("jsx")));
    assert!(!is_node_extension(None));
}
