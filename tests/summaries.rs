use git_hud::summary::{
    after_diff, join_summaries, BranchStep, summary_from_parts, summary_from_response, summary_prompt, FileWithSummary,
};
use git_hud::{HudError, StatusCode, StatusEntry};

fn entry(path: &str, status: StatusCode) -> StatusEntry {
    StatusEntry {
        abs_path: format!("/r/{}", path),
        display_path: path.to_string(),
        status,
        staged: false,
        original_path: None,
        is_binary: false,
    }
}

fn entries() -> Vec<StatusEntry> {
    vec![
        entry("a.txt", StatusCode::Modified),
        entry("b.bin", StatusCode::Added),
        entry("c.txt", StatusCode::Untracked),
    ]
}

#[test]
fn join_keeps_entry_order() {
    let es = entries();
    let outcomes = vec![Ok(Some("first".to_string())), Ok(None), Ok(Some("third".to_string()))];
    let joined = join_summaries(&es, outcomes).unwrap();
    assert_eq!(joined.len(), 3);
    let paths: Vec<&str> = joined.iter().map(|f| f.path.as_str()).collect();
    assert_eq!(paths, vec!["a.txt", "b.bin", "c.txt"]);
    assert_eq!(joined[0].summary, Some("first".to_string()));
    assert_eq!(joined[1].summary, None);
    assert_eq!(joined[2].summary, Some("third".to_string()));
    assert_eq!(joined[2].status, StatusCode::Untracked);
}

#[test]
fn join_of_nothing() {
    assert!(join_summaries(&Vec::new(), Vec::new()).unwrap().is_empty());
}

#[test]
fn join_fails_with_a_failing_branch() {
    let es = entries();
    let outcomes = vec![Ok(None), Err(HudError::Api("down".to_string())), Ok(None)];
    assert_eq!(join_summaries(&es, outcomes).unwrap_err(), HudError::Api("down".to_string()));
}

#[test]
fn join_reports_the_first_failing_branch() {
    let es = entries();
    let outcomes = vec![
        Ok(None),
        Err(HudError::Io("first".to_string())),
        Err(HudError::Retrieval("second".to_string())),
    ];
    assert_eq!(join_summaries(&es, outcomes).unwrap_err(), HudError::Io("first".to_string()));
}

#[test]
fn file_with_summary_copies_the_entry() {
    let mut e = entry("n.txt", StatusCode::Renamed);
    e.original_path = Some("o.txt".to_string());
    e.staged = true;
    let f = FileWithSummary::new(&e, Some("s".to_string()));
    assert_eq!(f.path, "n.txt");
    assert_eq!(f.original_path, Some("o.txt".to_string()));
    assert!(f.staged);
    assert_eq!(f.status, StatusCode::Renamed);
}

#[test]
fn prompt_holds_instruction_and_diff() {
    let p = summary_prompt("+x");
    assert!(p.starts_with("Summarize this git diff in ONE SHORT LINE (max 50 chars)."));
    assert!(p.ends_with("Here's the diff:\n\n+x"));
}

#[test]
fn summary_from_a_response() {
    let body = r#"{"content":[{"text":"  Add greeting  \n","type":"text"}],"id":"m"}"#;
    assert_eq!(summary_from_response(true, body).unwrap(), "Add greeting");
}

#[test]
fn failed_response_carries_its_body() {
    assert_eq!(
        summary_from_response(false, "overloaded").unwrap_err(),
        HudError::Api("overloaded".to_string())
    );
}

#[test]
fn response_of_another_shape() {
    for body in ["not json", r#"{"content":[]}"#, r#"{"content":[{"text":7}]}"#, "{}"] {
        assert_eq!(
            summary_from_response(true, body).unwrap_err(),
            HudError::Api("Unexpected API response format".to_string()),
            "{}",
            body
        );
    }
}

#[test]
fn summary_from_given_parts() {
    assert_eq!(summary_from_parts(true, "b", Some("t".to_string())).unwrap(), "t");
    assert_eq!(
        summary_from_parts(true, "b", None).unwrap_err(),
        HudError::Api("Unexpected API response format".to_string())
    );
    assert_eq!(
        summary_from_parts(false, "b", Some("t".to_string())).unwrap_err(),
        HudError::Api("b".to_string())
    );
}

#[test]
fn summary_trims_unicode_white_space() {
    let body = "{\"content\":[{\"text\":\"\u{3000}\\t Fix bug\\u00a0\\n\"}]}";
    assert_eq!(summary_from_response(true, body).unwrap(), "Fix bug");
}

#[test]
fn only_a_diff_is_summarized() {
    assert!(matches!(after_diff(None), BranchStep::Done(None)));
    match after_diff(Some("+x".to_string())) {
        BranchStep::Summarize(d) => assert_eq!(d, "+x"),
        other => panic!("{:?}", other),
    }
}
