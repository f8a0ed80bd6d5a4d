use git_hud::diff::{diff_from_output, untracked_diff, DiffAction};
use git_hud::{HudError, Repository, StatusCode, StatusEntry};

fn entry(status: StatusCode, staged: bool, original: Option<&str>, is_binary: bool) -> StatusEntry {
    StatusEntry {
        abs_path: "/r/f.txt".to_string(),
        display_path: "f.txt".to_string(),
        status,
        staged,
        original_path: original.map(|o| o.to_string()),
        is_binary,
    }
}

fn run_args(a: DiffAction) -> Vec<String> {
    match a {
        DiffAction::RunGit { args } => args,
        other => panic!("expected a git run, got {:?}", other),
    }
}

fn strings(v: &[&str]) -> Vec<String> {
    v.iter().map(|s| s.to_string()).collect()
}

#[test]
fn untracked_file_diff() {
    assert_eq!(untracked_diff("new content\n"), "+new content");
    assert!(untracked_diff("new content\n").contains("+new content"));
    assert_eq!(untracked_diff("a\nb"), "+a\n+b");
    assert_eq!(untracked_diff("a\r\nb\r\n"), "+a\n+b");
    assert_eq!(untracked_diff("a\n\nb\n"), "+a\n+\n+b");
    assert_eq!(untracked_diff("a\rb"), "+a\rb");
    assert_eq!(untracked_diff(""), "+");
    assert_eq!(untracked_diff("\n"), "+");
}

#[test]
fn deleted_file_gets_the_fixed_text() {
    let repo = Repository::new("/r".to_string());
    match repo.get_diff(&entry(StatusCode::Deleted, true, None, false)) {
        DiffAction::Done(Some(t)) => assert!(t.contains("This file was deleted")),
        other => panic!("{:?}", other),
    }
    match repo.get_diff(&entry(StatusCode::Deleted, false, None, false)) {
        DiffAction::Done(Some(t)) => assert_eq!(t, "This file was deleted"),
        other => panic!("{:?}", other),
    }
}

#[test]
fn binary_file_has_no_diff() {
    let repo = Repository::new("/r".to_string());
    assert!(matches!(
        repo.get_diff(&entry(StatusCode::Modified, false, None, true)),
        DiffAction::Done(None)
    ));
}

#[test]
fn untracked_file_is_read() {
    let repo = Repository::new("/r".to_string());
    match repo.get_diff(&entry(StatusCode::Untracked, false, None, false)) {
        DiffAction::ReadUntracked(p) => assert_eq!(p, "/r/f.txt"),
        other => panic!("{:?}", other),
    }
}

#[test]
fn renamed_file_is_diffed_against_its_original() {
    let repo = Repository::new("/r".to_string());
    let args = run_args(repo.get_diff(&entry(StatusCode::Renamed, true, Some("old.txt"), false)));
    assert_eq!(args, strings(&["diff", "--no-color", "--no-prefix", "old.txt", "/r/f.txt"]));
    assert!(matches!(
        repo.get_diff(&entry(StatusCode::Copied, true, None, false)),
        DiffAction::Done(None)
    ));
}

#[test]
fn unmerged_file_is_diffed_with_a_filter() {
    let repo = Repository::new("/r".to_string());
    let args = run_args(repo.get_diff(&entry(StatusCode::Unmerged, false, None, false)));
    assert_eq!(
        args,
        strings(&["diff", "--no-color", "--no-prefix", "--diff-filter=U", "/r/f.txt"])
    );
}

#[test]
fn modified_file_is_diffed_against_index_or_worktree() {
    let repo = Repository::new("/r".to_string());
    let args = run_args(repo.get_diff(&entry(StatusCode::Added, true, None, false)));
    assert_eq!(args, strings(&["diff", "--no-color", "--no-prefix", "--cached", "/r/f.txt"]));
    let args = run_args(repo.get_diff(&entry(StatusCode::Modified, false, None, false)));
    assert_eq!(args, strings(&["diff", "--no-color", "--no-prefix", "/r/f.txt"]));
}

#[test]
fn diff_output_handling() {
    assert_eq!(
        diff_from_output(true, b"-a\n+b\n", b"").unwrap(),
        Some("-a\n+b\n".to_string())
    );
    assert_eq!(
        diff_from_output(true, &[0xC3], b"").unwrap_err(),
        HudError::Retrieval("diff output is not valid UTF-8".to_string())
    );
    assert_eq!(
        diff_from_output(false, b"", b"boom").unwrap_err(),
        HudError::Retrieval("boom".to_string())
    );
    assert_eq!(
        diff_from_output(false, b"", &[b'x', 0xFF]).unwrap_err(),
        HudError::Retrieval("x\u{FFFD}".to_string())
    );
}
