use git_hud::{section_of, HudError, Repository, Section, StatusCode, StatusEntry};

fn repo() -> Repository {
    Repository::new("/work/repo".to_string())
}

fn parse(line: &str) -> StatusEntry {
    repo().parse_status_line(line).unwrap().unwrap()
}

#[test]
fn ordinary_unstaged_modification() {
    let entry = parse("1 .M N... 100644 100644 100644 0123abc 4567def file.txt");
    assert_eq!(entry.status, StatusCode::Modified);
    assert!(!entry.staged);
    assert_eq!(entry.display_path, "file.txt");
    assert_eq!(entry.abs_path, "/work/repo/file.txt");
    assert_eq!(entry.original_path, None);
    assert!(!entry.is_binary);
}

#[test]
fn ordinary_staged_addition() {
    let entry = parse("1 A. N... 000000 100644 100644 0000000 4567def new.txt");
    assert_eq!(entry.status, StatusCode::Added);
    assert!(entry.staged);
    assert_eq!(entry.display_path, "new.txt");
}

#[test]
fn ordinary_record_with_four_placeholders_is_refused() {
    let line = "1 .M N... 100644 100644 100644 file.txt";
    assert_eq!(
        repo().parse_status_line(line).unwrap_err(),
        HudError::Parse(line.to_string())
    );
}

#[test]
fn ordinary_record_of_kind_two() {
    let entry = parse("2 MD N... 100644 100644 000000 0123abc 4567def gone.txt");
    assert_eq!(entry.status, StatusCode::Deleted);
    assert!(entry.staged);
}

#[test]
fn renamed_record() {
    let entry = parse("R 100 old.txt new.txt");
    assert_eq!(entry.status, StatusCode::Renamed);
    assert!(entry.staged);
    assert_eq!(entry.display_path, "new.txt");
    assert_eq!(entry.abs_path, "/work/repo/new.txt");
    assert_eq!(entry.original_path, Some("old.txt".to_string()));
}

#[test]
fn copied_record_keeps_spaces_in_original_path() {
    let entry = parse("C 75 old dir/a.txt b.txt");
    assert_eq!(entry.status, StatusCode::Copied);
    assert_eq!(entry.original_path, Some("old dir/a.txt".to_string()));
    assert_eq!(entry.display_path, "b.txt");
}

#[test]
fn untracked_record() {
    let entry = parse("? untracked.txt");
    assert_eq!(entry.status, StatusCode::Untracked);
    assert!(!entry.staged);
    assert_eq!(entry.display_path, "untracked.txt");
}

#[test]
fn unmerged_record() {
    let entry = parse("u conflict.txt");
    assert_eq!(entry.status, StatusCode::Unmerged);
    assert!(!entry.staged);
    assert_eq!(entry.display_path, "conflict.txt");
}

#[test]
fn paths_with_spaces_survive() {
    let path = "file with spaces.txt";
    assert_eq!(parse(&format!("? {}", path)).display_path, path);
    assert_eq!(parse(&format!("u {}", path)).display_path, path);
    let entry = parse(&format!("1 .M N... 100644 100644 100644 0123abc 4567def {}", path));
    assert_eq!(entry.display_path, path);
    assert_eq!(entry.abs_path, "/work/repo/file with spaces.txt");
    let special = "special file (with spaces) アイウエオ.txt";
    assert_eq!(parse(&format!("? {}", special)).display_path, special);
}

#[test]
fn skipped_records() {
    let r = repo();
    assert!(r.parse_status_line("").unwrap().is_none());
    assert!(r.parse_status_line("! ignored.txt").unwrap().is_none());
    assert!(r.parse_status_line("# branch.oid 0123abc").unwrap().is_none());
}

#[test]
fn malformed_records() {
    let r = repo();
    for line in [
        "1",
        "?",
        "u",
        "R",
        "R 100",
        "R 100 only.txt",
        "1 .X N... 100644 100644 100644 0123abc 4567def file.txt",
        "1 M N... 100644 100644 100644 0123abc 4567def file.txt",
        "1 .. N... 100644 100644 100644 0123abc 4567def file.txt",
    ] {
        assert_eq!(
            r.parse_status_line(line).unwrap_err(),
            HudError::Parse(line.to_string()),
            "{}",
            line
        );
    }
}

#[test]
fn xy_code_with_both_letters_reports_the_worktree_letter() {
    let entry = parse("1 MD N... 100644 100644 000000 0123abc 4567def both.txt");
    assert_eq!(entry.status, StatusCode::Deleted);
    assert!(entry.staged);
}

#[test]
fn status_code_from_str() {
    let cases = [
        ("M", StatusCode::Modified),
        ("A", StatusCode::Added),
        ("D", StatusCode::Deleted),
        ("R", StatusCode::Renamed),
        ("C", StatusCode::Copied),
        ("U", StatusCode::Unmerged),
        ("?", StatusCode::Untracked),
        ("!", StatusCode::Ignored),
    ];
    for (code, kind) in cases {
        assert_eq!(StatusCode::from_str(code).unwrap(), kind);
    }
    assert_eq!(StatusCode::from_str("X").unwrap_err(), HudError::Parse("X".to_string()));
    assert_eq!(StatusCode::from_str("MM").unwrap_err(), HudError::Parse("MM".to_string()));
    assert_eq!(StatusCode::from_str("").unwrap_err(), HudError::Parse(String::new()));
    assert_eq!(StatusCode::from_code('?'), Some(StatusCode::Untracked));
    assert_eq!(StatusCode::from_code('x'), None);
}

#[test]
fn joining_paths() {
    assert_eq!(Repository::new("/a/b".to_string()).join("c.txt"), "/a/b/c.txt");
    assert_eq!(Repository::new("/a/b/".to_string()).join("c.txt"), "/a/b/c.txt");
    assert_eq!(Repository::new(String::new()).join("c.txt"), "c.txt");
    assert_eq!(Repository::new("/a".to_string()).join("/etc/x"), "/etc/x");
    assert_eq!(Repository::new("/a".to_string()).root_path(), "/a");
}

#[test]
fn collecting_a_report_keeps_its_order() {
    let out = b"1 .M N... 100644 100644 100644 0123abc 4567def a.txt\0R 100 old.txt new.txt\0\0u c d.txt\0? e.txt\0! ignored\0";
    let entries = repo().collect_entries(true, out, b"").unwrap();
    let paths: Vec<&str> = entries.iter().map(|e| e.display_path.as_str()).collect();
    assert_eq!(paths, vec!["a.txt", "new.txt", "c d.txt", "e.txt"]);
    let kinds: Vec<StatusCode> = entries.iter().map(|e| e.status).collect();
    assert_eq!(
        kinds,
        vec![
            StatusCode::Modified,
            StatusCode::Renamed,
            StatusCode::Unmerged,
            StatusCode::Untracked
        ]
    );
    assert!(entries.iter().all(|e| !e.is_binary));
}

#[test]
fn collecting_an_empty_report() {
    assert!(repo().collect_entries(true, b"", b"").unwrap().is_empty());
}

#[test]
fn collecting_after_a_failed_command() {
    assert_eq!(
        repo().collect_entries(false, b"", b"fatal: not a git repository").unwrap_err(),
        HudError::Collection("fatal: not a git repository".to_string())
    );
    assert_eq!(
        repo().collect_entries(false, b"", &[b'b', b'a', b'd', 0xFF]).unwrap_err(),
        HudError::Collection("bad\u{FFFD}".to_string())
    );
}

#[test]
fn collecting_output_that_is_not_text() {
    assert_eq!(
        repo().collect_entries(true, &[b'?', b' ', 0xFF, 0], b"").unwrap_err(),
        HudError::Collection("status output is not valid UTF-8".to_string())
    );
}

#[test]
fn collecting_stops_at_a_malformed_record() {
    let out = b"? a.txt\0R 100\0? b.txt\0";
    assert_eq!(
        repo().collect_entries(true, out, b"").unwrap_err(),
        HudError::Parse("R 100".to_string())
    );
}

#[test]
fn collecting_twice_gives_the_same_entries() {
    let out = b"1 A. N... 000000 100644 100644 0000000 4567def x.txt\0? y z.txt\0";
    let first = repo().collect_entries(true, out, b"").unwrap();
    let second = repo().collect_entries(true, out, b"").unwrap();
    assert_eq!(first.len(), second.len());
    for (a, b) in first.iter().zip(second.iter()) {
        assert_eq!(a.display_path, b.display_path);
        assert_eq!(a.abs_path, b.abs_path);
        assert_eq!(a.status, b.status);
        assert_eq!(a.staged, b.staged);
        assert_eq!(a.original_path, b.original_path);
        assert_eq!(a.is_binary, b.is_binary);
    }
}

#[test]
fn sections_and_labels() {
    assert_eq!(section_of(StatusCode::Untracked, false), Section::Untracked);
    assert_eq!(section_of(StatusCode::Added, true), Section::Staged);
    assert_eq!(section_of(StatusCode::Modified, false), Section::Unstaged);
    assert_eq!(StatusCode::Added.label(), "new file");
    assert_eq!(StatusCode::Modified.label(), "modified");
    assert_eq!(StatusCode::Unmerged.label(), "unmerged");
}
