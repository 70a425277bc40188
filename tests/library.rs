use wasm_pack_test_all::dispatch::echo_line;
use wasm_pack_test_all::discovery::find_bytes;
use wasm_pack_test_all::workspace::{is_workspace_manifest, resolve_members, workspace_members, MemberProblem};
use wasm_pack_test_all::{
    check_root, filter_testable_crates, gather_crates_paths_in_dir_or_subdirs, is_testable_crate,
    parse_options, plan_run, spawn_failure_report, stop_report, Dispatch, Entry, EntryKind,
    ExitCode, Invocation, RootStatus, Stop,
};

fn strings(items: &[&str]) -> Vec<String> {
    items.iter().map(|s| s.to_string()).collect()
}

fn dir(path: &[&str]) -> Entry {
    Entry { path: strings(path), kind: EntryKind::Directory }
}

fn file(path: &[&str], text: &str) -> Entry {
    Entry { path: strings(path), kind: EntryKind::File(text.to_string()) }
}

fn no_options() -> Invocation {
    Invocation { path: None, wasm_pack_test_options: vec![], cargo_test_options: vec![] }
}

fn two_crates_one_marked() -> Vec<Entry> {
    vec![
        dir(&[]),
        dir(&["a"]),
        file(&["a", "Cargo.toml"], "[package]\nname = \"a\"\n"),
        dir(&["a", "src"]),
        dir(&["a", "src", "empty"]),
        file(&["a", "src", "lib.rs"], "fn f() {}\n"),
        dir(&["b"]),
        file(&["b", "Cargo.toml"], "[package]\nname = \"b\"\n"),
        dir(&["b", "src"]),
        dir(&["b", "src", "inner"]),
        dir(&["b", "tests"]),
        file(&["b", "tests", "web.rs"], "#[wasm_bindgen_test]\nfn t() {}\n"),
    ]
}

#[test]
fn first_path_like_token_is_the_root_path() {
    let inv = parse_options(&strings(&["some/dir", "--node", "x", "--", "--nocapture"])).unwrap();
    assert_eq!(inv.path, Some("some/dir".to_string()));
    assert_eq!(inv.wasm_pack_test_options, strings(&["--node", "x"]));
    assert_eq!(inv.cargo_test_options, strings(&["--", "--nocapture"]));
}

#[test]
fn leading_flag_goes_to_wrapped_options() {
    let inv = parse_options(&strings(&["--node", "--release"])).unwrap();
    assert_eq!(inv.path, None);
    assert_eq!(inv.wasm_pack_test_options, strings(&["--node", "--release"]));
    assert!(inv.cargo_test_options.is_empty());
}

#[test]
fn leading_separator_goes_downstream_with_everything_after() {
    let inv = parse_options(&strings(&["--", "a", "--", "-h"])).unwrap();
    assert_eq!(inv.path, None);
    assert!(inv.wasm_pack_test_options.is_empty());
    assert_eq!(inv.cargo_test_options, strings(&["--", "a", "--", "-h"]));
}

#[test]
fn path_like_token_in_empty_wrapped_bucket_is_a_usage_error() {
    match parse_options(&strings(&["root", "other", "--node"])) {
        Err(Stop::PathInOptions(t)) => assert_eq!(t, "other"),
        _ => panic!("expected a usage error"),
    }
    let report = stop_report(&Stop::PathInOptions("other".to_string()));
    assert_eq!(report.code.code(), 1);
    assert!(report.stderr[0].contains("(found other)"));
}

#[test]
fn help_and_version_only_in_leading_position() {
    assert!(matches!(parse_options(&strings(&["-h"])), Err(Stop::Help)));
    assert!(matches!(parse_options(&strings(&["-V"])), Err(Stop::Version)));
    let inv = parse_options(&strings(&["--node", "--help"])).unwrap();
    assert_eq!(inv.wasm_pack_test_options, strings(&["--node", "--help"]));
}

#[test]
fn exit_codes_have_stable_numbers() {
    let all = [
        ExitCode::Success,
        ExitCode::Help,
        ExitCode::PathNotFound,
        ExitCode::NotADirectory,
        ExitCode::NoCratesFound,
        ExitCode::NoTestsFound,
        ExitCode::TestsFailed,
        ExitCode::ExternalError,
    ];
    let codes: Vec<u8> = all.iter().map(|c| c.code()).collect();
    assert_eq!(codes, vec![0, 1, 2, 3, 4, 5, 6, 7]);
}

#[test]
fn tree_without_manifest_has_no_crates() {
    let entries = vec![dir(&[]), dir(&["src"]), file(&["src", "lib.rs"], "#[wasm_bindgen_test]")];
    assert!(gather_crates_paths_in_dir_or_subdirs(&entries).is_empty());
    let report = plan_run("/w", &entries, &no_options()).unwrap_err();
    assert_eq!(report.code.code(), 4);
    assert_eq!(report.stderr, strings(&["[wasm-pack-test-all] No crates found in the directory /w."]));
}

#[test]
fn unmarked_crate_is_dropped_beside_a_marked_one() {
    let entries = two_crates_one_marked();
    let crates = gather_crates_paths_in_dir_or_subdirs(&entries);
    assert_eq!(crates, vec![strings(&["a"]), strings(&["b"])]);
    assert!(!is_testable_crate(&strings(&["a"]), &entries));
    assert!(is_testable_crate(&strings(&["b"]), &entries));
    assert_eq!(filter_testable_crates(&crates, &entries), vec![strings(&["b"])]);
}

#[test]
fn marker_in_a_later_sibling_directory_counts() {
    let entries = two_crates_one_marked();
    assert!(is_testable_crate(&strings(&["b"]), &entries));
    assert!(!is_testable_crate(&strings(&["b", "src"]), &entries));
}

#[test]
fn discovery_twice_gives_the_same_crates_in_order() {
    let entries = two_crates_one_marked();
    let first = filter_testable_crates(&gather_crates_paths_in_dir_or_subdirs(&entries), &entries);
    let second = filter_testable_crates(&gather_crates_paths_in_dir_or_subdirs(&entries), &entries);
    assert_eq!(first, second);
    assert_eq!(filter_testable_crates(&first, &entries), first);
}

#[test]
fn root_crate_is_found() {
    let entries = vec![dir(&[]), file(&["Cargo.toml"], "[package]\n"), file(&["lib.rs"], "#[wasm_bindgen_test]")];
    assert_eq!(gather_crates_paths_in_dir_or_subdirs(&entries), vec![Vec::<String>::new()]);
    let plan = plan_run("/w", &entries, &no_options()).unwrap();
    assert_eq!(plan.commands, vec![strings(&["test", "/w"])]);
}

#[test]
fn no_testable_crates_reports_code_five() {
    let entries = vec![dir(&[]), dir(&["a"]), file(&["a", "Cargo.toml"], "[package]\n")];
    let report = plan_run("/w", &entries, &no_options()).unwrap_err();
    assert_eq!(report.code.code(), 5);
    assert_eq!(report.stdout, strings(&["[wasm-pack-test-all] Found 1 crates in the directory /w."]));
    assert!(report.stderr[0].starts_with("[wasm-pack-test-all] No testable crates found in the directory /w."));
}

#[test]
fn plan_builds_commands_in_order() {
    let entries = two_crates_one_marked();
    let inv = Invocation {
        path: None,
        wasm_pack_test_options: strings(&["--node", "--release"]),
        cargo_test_options: strings(&["--", "--nocapture"]),
    };
    let plan = plan_run("/w", &entries, &inv).unwrap();
    assert_eq!(
        plan.commands,
        vec![strings(&["test", "--node", "--release", "/w/b", "--", "--nocapture"])]
    );
    assert_eq!(
        plan.stdout,
        strings(&[
            "[wasm-pack-test-all] Found 2 crates in the directory /w.",
            "[wasm-pack-test-all] Found 1 testable crates.",
            "[wasm-pack-test-all] Running tests...",
        ])
    );
    assert_eq!(
        echo_line(&plan.commands[0]),
        "[wasm-pack-test-all] + wasm-pack test --node --release /w/b -- --nocapture"
    );
}

#[test]
fn counts_are_written_in_decimal() {
    let mut entries = vec![dir(&[])];
    let names: Vec<String> = (0..12).map(|i| format!("c{}", i)).collect();
    for n in &names {
        entries.push(dir(&[n.as_str()]));
        entries.push(file(&[n.as_str(), "Cargo.toml"], "[package]\n"));
        entries.push(file(&[n.as_str(), "lib.rs"], "#[wasm_bindgen_test]\n"));
    }
    let plan = plan_run("/w", &entries, &no_options()).unwrap();
    assert_eq!(plan.commands.len(), 12);
    assert_eq!(plan.stdout[0], "[wasm-pack-test-all] Found 12 crates in the directory /w.");
    assert_eq!(plan.stdout[1], "[wasm-pack-test-all] Found 12 testable crates.");
}

#[test]
fn one_failing_crate_fails_the_run_but_all_run() {
    let commands = vec![strings(&["test", "/w/a"]), strings(&["test", "/w/b"]), strings(&["test", "/w/c"])];
    let mut dispatch = Dispatch::new(commands.clone());
    let mut seen = Vec::new();
    let outcomes = [true, false, true];
    let mut k = 0;
    while let Some(c) = dispatch.next_command() {
        seen.push(c.clone());
        dispatch.record(outcomes[k]);
        k += 1;
    }
    assert_eq!(seen, commands);
    let report = dispatch.finish();
    assert_eq!(report.code.code(), 6);
    assert_eq!(report.stderr, strings(&["[wasm-pack-test-all] Some tests failed."]));
}

#[test]
fn all_passing_crates_succeed() {
    let mut dispatch = Dispatch::new(vec![strings(&["test", "/w/a"]), strings(&["test", "/w/b"])]);
    dispatch.record(true);
    dispatch.record(true);
    assert!(dispatch.next_command().is_none());
    let report = dispatch.finish();
    assert_eq!(report.code.code(), 0);
    assert_eq!(report.stdout, strings(&["[wasm-pack-test-all] All tests passed!"]));
}

#[test]
fn spawn_failures_report_external_error() {
    let r = spawn_failure_report(true, "");
    assert_eq!(r.code.code(), 7);
    assert!(r.stderr[0].contains("Binary wasm-pack not found"));
    let r = spawn_failure_report(false, "permission denied");
    assert_eq!(r.code.code(), 7);
    assert_eq!(r.stderr[0], "[wasm-pack-test-all] `wasm-pack test` command failed with error: permission denied");
}

#[test]
fn root_checks() {
    let r = check_root("x", RootStatus::Missing).unwrap();
    assert_eq!(r.code.code(), 2);
    assert_eq!(r.stderr, strings(&["[wasm-pack-test-all] The path x does not exists."]));
    let r = check_root("x", RootStatus::NotADirectory).unwrap();
    assert_eq!(r.code.code(), 3);
    assert!(check_root("x", RootStatus::Directory).is_none());
}

#[test]
fn workspace_members_are_read_from_the_manifest() {
    let text = "[workspace]\nresolver = \"2\"\nmembers = [\"foo\", 3, \"crates/bar\"]\n";
    assert!(is_workspace_manifest(&text.to_string()));
    assert_eq!(workspace_members(text), strings(&["foo", "crates/bar"]));
    assert!(workspace_members("[workspace]\n").is_empty());
    assert!(workspace_members("not = = toml").is_empty());
    assert!(!is_workspace_manifest(&"[package]\n".to_string()));
}

#[test]
fn workspace_members_resolve_against_the_tree() {
    let entries = vec![dir(&[]), dir(&["crates"]), dir(&["crates", "bar"]), file(&["foo"], "")];
    assert_eq!(
        resolve_members(&strings(&["crates/bar"]), &entries).unwrap(),
        vec![strings(&["crates", "bar"])]
    );
    assert!(matches!(
        resolve_members(&strings(&["crates/bar", "foo"]), &entries),
        Err(MemberProblem::NotADirectory(m)) if m == "foo"
    ));
    assert!(matches!(
        resolve_members(&strings(&["nope", "foo"]), &entries),
        Err(MemberProblem::NotFound(m)) if m == "nope"
    ));
}

#[test]
fn missing_workspace_member_reports_path_not_found() {
    let entries = vec![dir(&[]), file(&["Cargo.toml"], "[workspace]\nmembers = [\"gone\"]\n")];
    let report = plan_run("/w", &entries, &no_options()).unwrap_err();
    assert_eq!(report.code.code(), 2);
    assert_eq!(report.stderr, strings(&["[wasm-pack-test-all] The workspace member /w/gone does not exists."]));
}

#[test]
fn empty_workspace_member_list_reports_no_crates() {
    let entries = vec![dir(&[]), file(&["Cargo.toml"], "[workspace]\nmembers = []\n")];
    let report = plan_run("/w", &entries, &no_options()).unwrap_err();
    assert_eq!(report.code.code(), 4);
    assert_eq!(report.stderr, strings(&["[wasm-pack-test-all] No crates found in the workspace /w."]));
}

#[test]
fn byte_search_finds_runs() {
    assert!(find_bytes(b"abcabd", b"abd"));
    assert!(!find_bytes(b"abcab", b"abd"));
    assert!(find_bytes(b"", b""));
    assert!(!find_bytes(b"ab", b"abc"));
}
