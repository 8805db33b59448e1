use modelrelay::local_fs_edit::{apply_edit, find_occurrences};
use modelrelay::local_fs_tools::{
    entry_rel_path, normalize_rel_path, parse_optional_rel_path, parse_rel_path, resolve_cap,
    search_timeout_message, start_display, with_local_fs_hard_max_read_bytes,
    with_local_fs_ignore_dirs, with_local_fs_max_list_entries, with_local_fs_max_read_bytes,
    FileScan, FsEditArgs, FsListFilesArgs, FsReadFileArgs, FsSearchArgs, LocalFSToolPack,
    ScanStep,
};
use modelrelay::local_tools_common::LocalToolError;

fn pack(opts: Vec<modelrelay::local_fs_tools::LocalFSOption>) -> LocalFSToolPack {
    LocalFSToolPack::new(Ok("/root".to_string()), opts).expect("create pack")
}

#[test]
fn test_fs_read_file_max_bytes() {
    let p = pack(vec![with_local_fs_max_read_bytes(3)]);
    let plan = p
        .plan_read(&FsReadFileArgs { path: "foo.txt".to_string(), max_bytes: None })
        .unwrap();
    assert_eq!(plan.max_bytes, 3);
    let err = plan.check_size(5).unwrap_err();
    assert!(err.contains("file exceeds max_bytes"));
    assert_eq!(err, "fs.read_file: file exceeds max_bytes (3)");
    assert!(plan.check_size(3).is_ok());
}

#[test]
fn test_fs_read_file_hard_cap() {
    let p = pack(vec![with_local_fs_hard_max_read_bytes(5)]);
    let err = p
        .plan_read(&FsReadFileArgs { path: "foo.txt".to_string(), max_bytes: Some(100) })
        .unwrap_err();
    assert!(err.contains("max_bytes exceeds hard cap"));
    assert_eq!(err, "invalid arguments: max_bytes exceeds hard cap (5)");
}

#[test]
fn test_fs_list_files_max_entries() {
    let p = pack(vec![]);
    let plan = p
        .plan_list(&FsListFilesArgs { path: Some(".".to_string()), max_entries: Some(1) })
        .unwrap();
    let mut out = Vec::new();
    assert!(plan.record_entry("a.txt".to_string(), &mut out));
    assert_eq!(out.join("\n").lines().count(), 1);
}

#[test]
fn test_fs_list_files_path_traversal() {
    let p = pack(vec![]);
    let err = p
        .plan_list(&FsListFilesArgs { path: Some("../".to_string()), max_entries: None })
        .unwrap_err();
    assert!(err.contains("path must not escape"));
}

#[test]
fn test_fs_search_max_matches_and_ignores() {
    let p = pack(vec![]);
    let plan = p
        .plan_search(&FsSearchArgs {
            query: "foo".to_string(),
            path: Some(".".to_string()),
            max_matches: Some(1),
        })
        .unwrap();
    assert!(p.cfg.is_ignored_dir(&".git".to_string()));
    let mut out = Vec::new();
    let mut scan = FileScan::new();
    let step = plan.scan_line("src/main.txt", "foo\n", &mut scan, &mut out);
    assert_eq!(step, ScanStep::Finished);
    assert_eq!(out.join("\n").lines().count(), 1);
    assert!(out[0].contains("src/main.txt"));
    assert!(!out[0].contains(".git"));
    assert_eq!(out[0], "src/main.txt:1:foo");
}

#[test]
fn rel_paths_are_checked() {
    assert_eq!(parse_rel_path("  a\\b.txt ").unwrap(), "a/b.txt");
    assert_eq!(parse_rel_path("").unwrap_err(), "invalid arguments: path is required");
    assert_eq!(
        parse_rel_path("/etc/passwd").unwrap_err(),
        "invalid arguments: path must be workspace-relative (not absolute)"
    );
    assert_eq!(
        parse_rel_path("a/../b").unwrap_err(),
        "invalid arguments: path must not escape the workspace root"
    );
    assert_eq!(
        parse_rel_path("\\\\server").unwrap_err(),
        "invalid arguments: path must be workspace-relative (not absolute)"
    );
    assert_eq!(parse_rel_path("a/..b/c").unwrap(), "a/..b/c");
    assert_eq!(parse_optional_rel_path(&None).unwrap(), ".");
    assert_eq!(parse_optional_rel_path(&Some("   ".to_string())).unwrap(), ".");
    assert_eq!(start_display(&Some(" src ".to_string())), "src");
    assert_eq!(start_display(&None), ".");
}

#[test]
fn caps_and_defaults() {
    assert_eq!(resolve_cap(None, 0, 10, "n").unwrap(), 1);
    assert_eq!(resolve_cap(Some(0), 5, 10, "n").unwrap(), 1);
    assert_eq!(resolve_cap(Some(10), 5, 10, "n").unwrap(), 10);
    assert_eq!(resolve_cap(Some(11), 5, 10, "n").unwrap_err(), "invalid arguments: n exceeds hard cap (10)");
}

#[test]
fn args_validation_messages() {
    assert_eq!(FsReadFileArgs { path: " ".into(), max_bytes: None }.validate().unwrap_err(), "path is required");
    assert_eq!(
        FsReadFileArgs { path: "a".into(), max_bytes: Some(0) }.validate().unwrap_err(),
        "max_bytes must be > 0"
    );
    assert_eq!(
        FsListFilesArgs { path: None, max_entries: Some(0) }.validate().unwrap_err(),
        "max_entries must be > 0"
    );
    assert_eq!(
        FsSearchArgs { query: "".into(), path: None, max_matches: None }.validate().unwrap_err(),
        "query is required"
    );
    let e = FsEditArgs { path: "a".into(), old_string: Some("  ".into()), new_string: Some("".into()), replace_all: None };
    assert_eq!(e.validate().unwrap_err(), "old_string is required");
    let e = FsEditArgs { path: "a".into(), old_string: Some("x".into()), new_string: None, replace_all: None };
    assert_eq!(e.validate().unwrap_err(), "new_string is required");
}

#[test]
fn search_plan_rejects_bad_regex() {
    let p = pack(vec![]);
    let err = p
        .plan_search(&FsSearchArgs { query: "foo(".to_string(), path: None, max_matches: None })
        .unwrap_err();
    assert!(err.starts_with("invalid arguments: invalid query regex: "));
}

#[test]
fn search_scan_stops_past_byte_limit() {
    let p = pack(vec![modelrelay::local_fs_tools::with_local_fs_max_search_bytes(4)]);
    let plan = p
        .plan_search(&FsSearchArgs { query: "a".to_string(), path: None, max_matches: None })
        .unwrap();
    let mut out = Vec::new();
    let mut scan = FileScan::new();
    assert_eq!(plan.scan_line("f", "xa\r\n", &mut scan, &mut out), ScanStep::NextLine);
    assert_eq!(out, vec!["f:1:xa".to_string()]);
    assert_eq!(plan.scan_line("f", "a\n", &mut scan, &mut out), ScanStep::SkipRestOfFile);
    assert_eq!(scan.line_no, 1);
}

#[test]
fn timeout_messages() {
    assert_eq!(search_timeout_message(5000), "fs.search: timed out after 5s");
    assert_eq!(search_timeout_message(1500), "fs.search: timed out after 1.5s");
    assert_eq!(search_timeout_message(1001), "fs.search: timed out after 1.001s");
    assert_eq!(search_timeout_message(250), "fs.search: timed out after 250ms");
    assert_eq!(search_timeout_message(0), "fs.search: timed out after 0ns");
}

#[test]
fn ignore_dirs_and_root_errors() {
    let p = pack(vec![
        with_local_fs_ignore_dirs(vec![" tmp ".to_string(), "".to_string()]),
        with_local_fs_max_list_entries(7),
    ]);
    assert!(p.cfg.is_ignored_dir(&"tmp".to_string()));
    assert!(p.cfg.is_ignored_dir(&"node_modules".to_string()));
    assert!(!p.cfg.is_ignored_dir(&"".to_string()));
    assert_eq!(p.cfg.max_list_entries, 7);
    assert_eq!(p.cfg.root_abs, "/root");
    let err = LocalFSToolPack::new(Err(LocalToolError::RootRequired), vec![]).unwrap_err();
    assert_eq!(err, LocalToolError::RootRequired);
}

#[test]
fn entry_paths() {
    assert_eq!(entry_rel_path("fs.list_files", "a\\b").unwrap(), "a/b");
    assert_eq!(
        entry_rel_path("fs.search", "").unwrap_err(),
        "fs.search: internal error: escaped root"
    );
    assert_eq!(normalize_rel_path("x\\y\\z"), "x/y/z");
}

#[test]
fn edit_replaces_single_occurrence() {
    let out = apply_edit("notes.txt", "a\nfoo\nb\n", "foo", "bar", false).unwrap();
    assert_eq!(out.updated, "a\nbar\nb\n");
    assert_eq!(out.summary, "Edited notes.txt (replacements=1, lines 2)");
}

#[test]
fn edit_refuses_missing_and_ambiguous() {
    assert_eq!(apply_edit("f", "abc", "x", "y", false).unwrap_err(), "fs.edit: old_string not found");
    assert_eq!(
        apply_edit("f", "x x", "x", "y", false).unwrap_err(),
        "fs.edit: old_string appears multiple times"
    );
}

#[test]
fn edit_replace_all_merges_line_ranges() {
    let text = "x\nx\n\nx\nab\nab";
    let out = apply_edit("d\\f.txt", text, "x", "y", true).unwrap();
    assert_eq!(out.updated, "y\ny\n\ny\nab\nab");
    assert_eq!(out.summary, "Edited d/f.txt (replacements=3, lines 1-2,4)");
    let out = apply_edit("f", "a\nb\nc", "a\nb", "z", true).unwrap();
    assert_eq!(out.updated, "z\nc");
    assert_eq!(out.summary, "Edited f (replacements=1, lines 1-2)");
}

#[test]
fn occurrences_do_not_overlap() {
    let h: Vec<char> = "aaaa".chars().collect();
    let n: Vec<char> = "aa".chars().collect();
    assert_eq!(find_occurrences(&h, &n), vec![0, 2]);
    let e: Vec<char> = Vec::new();
    assert!(find_occurrences(&h, &e).is_empty());
}
