//! How the diff of a change record is obtained, and the diff of a file that
//! is not tracked yet.

use vstd::prelude::*;
use vstd::string::StringSliceAdditionalSpecFns;
use vstd::utf8::{decode_utf8, encode_utf8, valid_utf8};

use crate::error::HudError;
use crate::status::{Repository, StatusCode, StatusEntry};
use crate::text::{
    lemma_ascii_boundary, lemma_encode_ascii, lemma_encode_concat, lemma_rejoin,
    lemma_split_first_parts, lossy_text, lossy_text_of, split_first, split_once_ascii, utf8_text,
};

verus! {

broadcast use vstd::utf8::encode_utf8_decode_utf8, vstd::utf8::encode_utf8_valid_utf8;

/// The byte of the line feed character.
pub const LINE_FEED: u8 = 0x0A;

/// The byte of the carriage return character.
pub const CARRIAGE_RETURN: u8 = 0x0D;

/// `line` without one carriage return at its end.
pub open spec fn strip_cr(line: Seq<char>) -> Seq<char> {
    if line.len() > 0 && line.last() == '\r' {
        line.drop_last()
    } else {
        line
    }
}

/// The lines of `s`: cut at each line feed, a carriage return before the
/// line feed dropped, and no empty line after a final line feed.
pub open spec fn text_lines(s: Seq<char>) -> Seq<Seq<char>>
    decreases s.len(),
    via text_lines_decreases
{
    if s.len() == 0 {
        Seq::empty()
    } else {
        match split_first(s, '\n') {
            Some((line, rest)) => seq![strip_cr(line)] + text_lines(rest),
            None => seq![s],
        }
    }
}

#[via_fn]
proof fn text_lines_decreases(s: Seq<char>) {
    lemma_split_first_parts(s, '\n');
}

/// The lines joined with a line feed and a `+` between each two.
pub open spec fn join_added(lines: Seq<Seq<char>>) -> Seq<char>
    decreases lines.len(),
{
    if lines.len() == 0 {
        Seq::empty()
    } else if lines.len() == 1 {
        lines[0]
    } else {
        join_added(lines.drop_last()) + seq!['\n', '+'] + lines.last()
    }
}

/// The diff of a new file: each of its lines marked with a leading `+`.
pub open spec fn added_diff(content: Seq<char>) -> Seq<char> {
    seq!['+'] + join_added(text_lines(content))
}

/// `line` without one carriage return at its end.
fn strip_carriage_return(line: &str) -> (r: &str)
    ensures
        r@ == strip_cr(line@),
{
    let bytes = line.as_bytes();
    let n = bytes.len();
    if n > 0 && bytes[n - 1] == CARRIAGE_RETURN {
        proof {
            lemma_ascii_boundary(bytes@, n - 1);
        }
        let (head, tail) = line.split_at(n - 1);
        proof {
            let empty = Seq::<char>::empty();
            assert(encode_utf8(empty) =~= Seq::<u8>::empty());
            assert(tail.spec_bytes() =~= seq![CARRIAGE_RETURN]);
            assert(bytes@ =~= encode_utf8(head@) + seq![CARRIAGE_RETURN] + encode_utf8(empty));
            lemma_rejoin(line@, head@, empty, CARRIAGE_RETURN);
            assert(line@ =~= head@ + seq!['\r']);
            assert(line@.drop_last() =~= head@);
        }
        head
    } else {
        proof {
            if line@.len() > 0 && line@.last() == '\r' {
                let head = line@.drop_last();
                assert(line@ =~= head + seq!['\r']);
                lemma_encode_concat(head, seq!['\r']);
                lemma_encode_ascii(CARRIAGE_RETURN);
                assert(bytes@[n - 1] == CARRIAGE_RETURN);
            }
        }
        line
    }
}

/// The diff of a file that is not tracked yet, from its content: every line
/// marked as added.
pub fn untracked_diff(content: &str) -> (r: String)
    ensures
        r@ == added_diff(content@),
{
    proof {
        reveal_strlit("+");
        reveal_strlit("\n+");
    }
    let mut out = String::from_str("+");
    let mut rest = content;
    let mut first = true;
    let ghost mut done: Seq<Seq<char>> = Seq::empty();
    proof {
        assert(done + text_lines(rest@) =~= text_lines(content@));
    }
    while !rest.is_empty()
        invariant
            done + text_lines(rest@) == text_lines(content@),
            first <==> done.len() == 0,
            out@ == seq!['+'] + join_added(done),
        decreases rest@.len(),
    {
        let ghost before = rest@;
        let (line, tail, last) = match split_once_ascii(rest, LINE_FEED) {
            Some((line, tail)) => (strip_carriage_return(line), tail, false),
            None => (rest, rest, true),
        };
        proof {
            lemma_split_first_parts(before, '\n');
            reveal_strlit("\n+");
        }
        if !first {
            out.append("\n+");
        }
        out.append(line);
        proof {
            let old_done = done;
            done = done.push(line@);
            assert(done.drop_last() =~= old_done);
            if old_done.len() == 0 {
                assert(join_added(done) == line@);
                assert(out@ =~= seq!['+'] + join_added(done));
            } else {
                assert("\n+"@ =~= seq!['\n', '+']);
                assert(join_added(done) == join_added(old_done) + seq!['\n', '+'] + line@);
                assert(out@ =~= seq!['+'] + join_added(done));
            }
            if last {
                assert(text_lines(before) == seq![line@]);
                assert(done =~= text_lines(content@));
            } else {
                assert(text_lines(before) == seq![line@] + text_lines(tail@));
                assert(done + text_lines(tail@) =~= old_done + text_lines(before));
            }
        }
        first = false;
        if last {
            return out;
        }
        rest = tail;
    }
    proof {
        assert(done =~= done + text_lines(rest@));
    }
    out
}


/// The text that stands for the diff of a deleted file.
pub open spec fn deleted_sentinel() -> Seq<char> {
    "This file was deleted"@
}

/// How the diff of a change record is obtained.
#[derive(Debug, Clone)]
pub enum DiffAction {
    /// The outcome is known without looking anything up.
    Done(Option<String>),
    /// The file at this path is read; its diff is `untracked_diff` of it.
    ReadUntracked(String),
    /// Git runs in the working root with these arguments; its outcome goes
    /// to `diff_from_output`, where a failed run is an error.
    RunGit { args: Vec<String> },
}

/// The characters of each argument.
pub open spec fn args_view(args: Seq<String>) -> Seq<Seq<char>> {
    args.map_values(|a: String| a@)
}

/// The arguments that every diff command starts with.
pub open spec fn diff_prefix() -> Seq<Seq<char>> {
    seq!["diff"@, "--no-color"@, "--no-prefix"@]
}

/// `a` runs git with `args`.
pub open spec fn runs_git(a: DiffAction, args: Seq<Seq<char>>) -> bool {
    a matches DiffAction::RunGit { args: v } && args_view(v@) == args
}

/// The action that the policy assigns to `e`: none for binary content; the
/// file's lines for an untracked file; the fixed text for a deletion; a diff
/// from the original path for a rename or copy (none without one); a diff
/// of the unmerged path for a conflict; otherwise a diff of the path, of the
/// index where the change is staged. Every git run that fails is an error.
pub open spec fn planned(e: StatusEntry, a: DiffAction) -> bool {
    if e.is_binary {
        a matches DiffAction::Done(None)
    } else {
        match e.status {
            StatusCode::Untracked => a matches DiffAction::ReadUntracked(p) && p@ == e.abs_path@,
            StatusCode::Deleted => a matches DiffAction::Done(Some(t)) && t@ == deleted_sentinel(),
            StatusCode::Renamed | StatusCode::Copied => match e.original_path {
                Some(o) => runs_git(a, diff_prefix() + seq![o@, e.abs_path@]),
                None => a matches DiffAction::Done(None),
            },
            StatusCode::Unmerged => runs_git(
                a,
                diff_prefix() + seq!["--diff-filter=U"@, e.abs_path@],
            ),
            _ => runs_git(
                a,
                diff_prefix() + (if e.staged {
                    seq!["--cached"@]
                } else {
                    Seq::empty()
                }) + seq![e.abs_path@],
            ),
        }
    }
}

fn diff_args() -> (r: Vec<String>)
    ensures
        args_view(r@) == diff_prefix(),
{
    let mut v: Vec<String> = Vec::new();
    v.push(String::from_str("diff"));
    v.push(String::from_str("--no-color"));
    v.push(String::from_str("--no-prefix"));
    proof {
        assert(args_view(v@) =~= diff_prefix());
    }
    v
}

fn push_arg(v: &mut Vec<String>, a: &str)
    ensures
        args_view(final(v)@) == args_view(old(v)@).push(a@),
{
    v.push(String::from_str(a));
    proof {
        assert(args_view(final(v)@) =~= args_view(old(v)@).push(a@));
    }
}

impl Repository {
    /// How the diff of `entry` is obtained.
    pub fn get_diff(&self, entry: &StatusEntry) -> (r: DiffAction)
        ensures
            planned(*entry, r),
    {
        if entry.is_binary {
            return DiffAction::Done(None);
        }
        match entry.status {
            StatusCode::Untracked => DiffAction::ReadUntracked(entry.abs_path.clone()),
            StatusCode::Deleted => DiffAction::Done(Some(String::from_str("This file was deleted"))),
            StatusCode::Renamed | StatusCode::Copied => match &entry.original_path {
                Some(o) => {
                    let mut args = diff_args();
                    push_arg(&mut args, o.as_str());
                    push_arg(&mut args, entry.abs_path.as_str());
                    proof {
                        assert(args_view(args@) =~= diff_prefix() + seq![o@, entry.abs_path@]);
                    }
                    DiffAction::RunGit { args }
                },
                None => DiffAction::Done(None),
            },
            StatusCode::Unmerged => {
                let mut args = diff_args();
                push_arg(&mut args, "--diff-filter=U");
                push_arg(&mut args, entry.abs_path.as_str());
                proof {
                    assert(args_view(args@) =~= diff_prefix() + seq![
                        "--diff-filter=U"@,
                        entry.abs_path@,
                    ]);
                }
                DiffAction::RunGit { args }
            },
            _ => {
                let mut args = diff_args();
                if entry.staged {
                    push_arg(&mut args, "--cached");
                }
                push_arg(&mut args, entry.abs_path.as_str());
                proof {
                    assert(args_view(args@) =~= diff_prefix() + (if entry.staged {
                        seq!["--cached"@]
                    } else {
                        Seq::empty()
                    }) + seq![entry.abs_path@]);
                }
                DiffAction::RunGit { args }
            },
        }
    }
}

/// The diff that a git run gives: its output where it succeeded and printed
/// text; an error where the output is not text, and an error that carries
/// the diagnostic output where the run failed.
pub fn diff_from_output(success: bool, stdout: &[u8], stderr: &[u8]) -> (r: Result<
    Option<String>,
    HudError,
>)
    ensures
        success && valid_utf8(stdout@) ==> (r matches Ok(Some(d)) && d@ == decode_utf8(stdout@)),
        success && !valid_utf8(stdout@) ==> (r matches Err(HudError::Retrieval(m)) && m@
            == "diff output is not valid UTF-8"@),
        !success ==> (r matches Err(HudError::Retrieval(m)) && m@ == lossy_text_of(stderr@)),
{
    if success {
        match utf8_text(stdout) {
            Some(d) => Ok(Some(String::from_str(d))),
            None => Err(HudError::Retrieval(String::from_str("diff output is not valid UTF-8"))),
        }
    } else {
        Err(HudError::Retrieval(lossy_text(stderr)))
    }
}

} // verus!
