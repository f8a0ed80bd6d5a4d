//! Joining the per-file outcomes of diffing and summarizing into one
//! ordered result, and the text exchanged with the summarization service.

use vstd::prelude::*;

use crate::error::HudError;
use crate::status::{opt_view, StatusCode, StatusEntry};

verus! {

/// A change record together with the summary of its diff, if it got one.
#[derive(Debug, Clone)]
pub struct FileWithSummary {
    pub path: String,
    pub status: StatusCode,
    pub staged: bool,
    pub original_path: Option<String>,
    pub summary: Option<String>,
}

/// `f` is `e` with the summary `s`.
pub open spec fn summarizes(f: FileWithSummary, e: StatusEntry, s: Option<String>) -> bool {
    &&& f.path@ == e.display_path@
    &&& f.status == e.status
    &&& f.staged == e.staged
    &&& opt_view(f.original_path) == opt_view(e.original_path)
    &&& f.summary == s
}

impl FileWithSummary {
    /// `entry` with the summary `summary`.
    pub fn new(entry: &StatusEntry, summary: Option<String>) -> (r: FileWithSummary)
        ensures
            summarizes(r, *entry, summary),
    {
        FileWithSummary {
            path: entry.display_path.clone(),
            status: entry.status,
            staged: entry.staged,
            original_path: match &entry.original_path {
                Some(o) => Some(o.clone()),
                None => None,
            },
            summary,
        }
    }
}

/// Every branch succeeded.
pub open spec fn all_succeeded(outcomes: Seq<Result<Option<String>, HudError>>) -> bool {
    forall|i: int| 0 <= i < outcomes.len() ==> (#[trigger] outcomes[i]) is Ok
}

/// `i` is the first branch that failed.
pub open spec fn first_failure(outcomes: Seq<Result<Option<String>, HudError>>, i: int) -> bool {
    &&& 0 <= i < outcomes.len()
    &&& outcomes[i] is Err
    &&& forall|j: int| 0 <= j < i ==> (#[trigger] outcomes[j]) is Ok
}

/// What joining the branches gives: where all succeeded, one result per
/// entry in entry order; otherwise the error of the first branch that failed
/// and no results.
pub open spec fn joined(
    entries: Seq<StatusEntry>,
    outcomes: Seq<Result<Option<String>, HudError>>,
    r: Result<Vec<FileWithSummary>, HudError>,
) -> bool {
    if all_succeeded(outcomes) {
        r matches Ok(v) && v@.len() == entries.len() && forall|i: int|
            0 <= i < entries.len() ==> summarizes(
                #[trigger] v@[i],
                entries[i],
                outcomes[i]->Ok_0,
            )
    } else {
        r matches Err(e) && exists|i: int| #[trigger]
            first_failure(outcomes, i) && outcomes[i] == Err::<Option<String>, HudError>(e)
    }
}

/// Joins the outcomes of the branches, one per entry and in entry order,
/// into the entries with their summaries.
pub fn join_summaries(
    entries: &Vec<StatusEntry>,
    outcomes: Vec<Result<Option<String>, HudError>>,
) -> (r: Result<Vec<FileWithSummary>, HudError>)
    requires
        entries.len() == outcomes.len(),
    ensures
        joined(entries@, outcomes@, r),
{
    let n = outcomes.len();
    let ghost all = outcomes@;
    let mut rest = outcomes;
    let mut reversed: Vec<FileWithSummary> = Vec::new();
    let mut failure: Option<HudError> = None;
    let ghost mut fail_at: int = 0;
    while rest.len() > 0
        invariant
            n == all.len(),
            n == entries.len(),
            rest.len() <= n,
            rest@ == all.take(rest.len() as int),
            failure matches Some(e) ==> {
                &&& rest.len() <= fail_at < n
                &&& all[fail_at] == Err::<Option<String>, HudError>(e)
                &&& forall|j: int| rest.len() <= j < fail_at ==> (#[trigger] all[j]) is Ok
            },
            failure is None ==> forall|j: int| rest.len() <= j < n ==> (#[trigger] all[j]) is Ok,
            failure is None ==> reversed.len() == n - rest.len(),
            failure is None ==> forall|t: int|
                0 <= t < reversed.len() ==> summarizes(
                    #[trigger] reversed@[t],
                    entries@[n - 1 - t],
                    all[n - 1 - t]->Ok_0,
                ),
        decreases rest.len(),
    {
        let ghost before = rest@;
        let o = rest.pop().unwrap();
        let i = rest.len();
        proof {
            assert(o == before[i as int]);
            assert(rest@ =~= all.take(i as int));
        }
        match o {
            Ok(s) => {
                if failure.is_none() {
                    reversed.push(FileWithSummary::new(&entries[i], s));
                }
            },
            Err(e) => {
                failure = Some(e);
                proof {
                    fail_at = i as int;
                }
            },
        }
    }
    match failure {
        Some(e) => {
            proof {
                assert(first_failure(all, fail_at));
            }
            Err(e)
        },
        None => {
            let mut out: Vec<FileWithSummary> = Vec::new();
            while reversed.len() > 0
                invariant
                    n == entries.len(),
                    n == all.len(),
                    out.len() + reversed.len() == n,
                    forall|t: int|
                        0 <= t < reversed.len() ==> summarizes(
                            #[trigger] reversed@[t],
                            entries@[n - 1 - t],
                            all[n - 1 - t]->Ok_0,
                        ),
                    forall|t: int|
                        0 <= t < out.len() ==> summarizes(
                            #[trigger] out@[t],
                            entries@[t],
                            all[t]->Ok_0,
                        ),
                decreases reversed.len(),
            {
                let ghost before = reversed@;
                let f = reversed.pop().unwrap();
                proof {
                    assert(f == before[reversed.len() as int]);
                    assert forall|t: int| 0 <= t < reversed.len() implies reversed@[t] == before[t] by {}
                }
                out.push(f);
            }
            Ok(out)
        },
    }
}


/// The join keeps order: where every branch succeeded, there is one result
/// per entry, and the result at each position carries the path of the
/// entry at that position.
pub proof fn lemma_join_keeps_order(
    entries: Seq<StatusEntry>,
    outcomes: Seq<Result<Option<String>, HudError>>,
    r: Result<Vec<FileWithSummary>, HudError>,
)
    requires
        entries.len() == outcomes.len(),
        joined(entries, outcomes, r),
        all_succeeded(outcomes),
    ensures
        r matches Ok(v) && v@.len() == entries.len() && forall|i: int|
            0 <= i < entries.len() ==> (#[trigger] v@[i]).path@ == entries[i].display_path@,
{
    let v = r->Ok_0;
    assert forall|i: int| 0 <= i < entries.len() implies (#[trigger] v@[i]).path@
        == entries[i].display_path@ by {
        assert(summarizes(v@[i], entries[i], outcomes[i]->Ok_0));
    }
}

/// The join fails as a whole: where any branch failed, the result is the
/// error of a branch that failed, and no sequence of results.
pub proof fn lemma_join_propagates_failure(
    entries: Seq<StatusEntry>,
    outcomes: Seq<Result<Option<String>, HudError>>,
    r: Result<Vec<FileWithSummary>, HudError>,
    failed: int,
)
    requires
        entries.len() == outcomes.len(),
        joined(entries, outcomes, r),
        0 <= failed < outcomes.len(),
        outcomes[failed] is Err,
    ensures
        r matches Err(e) && exists|i: int|
            0 <= i < outcomes.len() && #[trigger] outcomes[i] == Err::<Option<String>, HudError>(e),
{
    assert(!all_succeeded(outcomes));
    let e = r->Err_0;
    let i = choose|i: int| #[trigger]
        first_failure(outcomes, i) && outcomes[i] == Err::<Option<String>, HudError>(e);
    assert(0 <= i < outcomes.len() && outcomes[i] == Err::<Option<String>, HudError>(e));
}

/// The instruction that precedes the diff in a summarization request.
pub open spec fn summary_instruction() -> Seq<char> {
    "Summarize this git diff in ONE SHORT LINE (max 50 chars). Focus on the semantic changes, not the mechanical ones. Here's the diff:\n\n"@
}

/// The request text for the diff `diff`: the instruction, then the diff.
pub fn summary_prompt(diff: &str) -> (r: String)
    ensures
        r@ == summary_instruction() + diff@,
{
    let mut r = String::from_str(
        "Summarize this git diff in ONE SHORT LINE (max 50 chars). Focus on the semantic changes, not the mechanical ones. Here's the diff:\n\n",
    );
    r.append(diff);
    r
}

/// The string at `body[key][index][field]` of the body read as JSON, if the
/// body is JSON and holds a string there.
pub uninterp spec fn json_str_at_of(body: Seq<char>, key: Seq<char>, index: nat, field: Seq<char>) -> Option<Seq<char>>;

/// Relies on `serde_json::from_str` into a `serde_json::Value`, the `Value`
/// indexing by key and by position (which gives `Null` where nothing is
/// found, and never panics on a read) and `Value::as_str`.
#[verifier::external_body]
fn json_str_at(body: &str, key: &str, index: usize, field: &str) -> (r: Option<String>)
    ensures
        match r {
            Some(t) => json_str_at_of(body@, key@, index as nat, field@) == Some(t@),
            None => json_str_at_of(body@, key@, index as nat, field@) is None,
        },
{
    let v: serde_json::Value = serde_json::from_str(body).ok()?;
    v[key][index][field].as_str().map(|t| t.to_string())
}

/// Where a response holds its summary: the `text` of the first `content` item.
pub open spec fn response_text_of(body: Seq<char>) -> Option<Seq<char>> {
    json_str_at_of(body, "content"@, 0, "text"@)
}

/// The summary text that a response body holds, if any.
fn response_text(body: &str) -> (r: Option<String>)
    ensures
        match r {
            Some(t) => response_text_of(body@) == Some(t@),
            None => response_text_of(body@) is None,
        },
{
    json_str_at(body, "content", 0, "text")
}

/// A character of the Unicode `White_Space` property.
pub open spec fn is_white_space(c: char) -> bool {
    let v = c as u32;
    (0x09 <= v <= 0x0D) || v == 0x20 || v == 0x85 || v == 0xA0 || v == 0x1680 || (0x2000 <= v
        <= 0x200A) || v == 0x2028 || v == 0x2029 || v == 0x202F || v == 0x205F || v == 0x3000
}

/// `s` without its leading white space.
pub open spec fn trim_start_of(s: Seq<char>) -> Seq<char>
    decreases s.len(),
{
    if s.len() > 0 && is_white_space(s[0]) {
        trim_start_of(s.drop_first())
    } else {
        s
    }
}

/// `s` without its trailing white space.
pub open spec fn trim_end_of(s: Seq<char>) -> Seq<char>
    decreases s.len(),
{
    if s.len() > 0 && is_white_space(s.last()) {
        trim_end_of(s.drop_last())
    } else {
        s
    }
}

/// `s` without leading and trailing white space.
pub open spec fn trimmed_of(s: Seq<char>) -> Seq<char> {
    trim_end_of(trim_start_of(s))
}

/// Relies on `str::trim`: `s` without the leading and trailing characters of
/// the Unicode `White_Space` property.
#[verifier::external_body]
fn trim_text(s: &str) -> (r: &str)
    ensures
        r@ == trimmed_of(s@),
{
    s.trim()
}

/// The message of a response whose shape is not the expected one.
pub open spec fn unexpected_response() -> Seq<char> {
    "Unexpected API response format"@
}

/// The summary that a response gives, from whether its status was a
/// success, its body and the trimmed text found in it: a failed response is
/// an error that carries its body, a response without the text is an error
/// of shape, and otherwise the text is the summary.
pub fn summary_from_parts(success: bool, body: &str, text: Option<String>) -> (r: Result<
    String,
    HudError,
>)
    ensures
        !success ==> (r matches Err(HudError::Api(m)) && m@ == body@),
        success && text is None ==> (r matches Err(HudError::Api(m)) && m@
            == unexpected_response()),
        success && text is Some ==> r == Ok::<String, HudError>(text->0),
{
    if !success {
        return Err(HudError::Api(String::from_str(body)));
    }
    match text {
        Some(t) => Ok(t),
        None => Err(HudError::Api(String::from_str("Unexpected API response format"))),
    }
}

/// The summary that a response gives: see `summary_from_parts`, with the
/// text read from the body as JSON and trimmed.
pub fn summary_from_response(success: bool, body: &str) -> (r: Result<String, HudError>)
    ensures
        !success ==> (r matches Err(HudError::Api(m)) && m@ == body@),
        success && response_text_of(body@) is None ==> (r matches Err(HudError::Api(m)) && m@
            == unexpected_response()),
        success && response_text_of(body@) is Some ==> (r matches Ok(t) && t@ == trimmed_of(
            response_text_of(body@)->0,
        )),
{
    if !success {
        return summary_from_parts(false, body, None);
    }
    let text = match response_text(body) {
        Some(t) => Some(String::from_str(trim_text(t.as_str()))),
        None => None,
    };
    summary_from_parts(true, body, text)
}


/// What a branch does once its diff is known.
#[derive(Debug, Clone)]
pub enum BranchStep {
    /// The branch is done with this summary.
    Done(Option<String>),
    /// This diff is sent to be summarized; the reply is the summary.
    Summarize(String),
}

/// A diff is summarized where there is one; without a diff there is no summary.
pub fn after_diff(diff: Option<String>) -> (r: BranchStep)
    ensures
        diff is None ==> r matches BranchStep::Done(None),
        diff matches Some(d) ==> r matches BranchStep::Summarize(e) && e == d,
{
    match diff {
        Some(d) => BranchStep::Summarize(d),
        None => BranchStep::Done(None),
    }
}

} // verus!
