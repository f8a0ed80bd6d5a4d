//! The change records of a status report and the parser of its records.

use vstd::prelude::*;
use vstd::utf8::{decode_utf8, valid_utf8};

use crate::error::HudError;
use crate::text::{
    lemma_split_first_at, lemma_split_first_parts, lemma_split_last_at, lossy_text, lossy_text_of,
    rsplit_once_ascii, split_first, split_last, split_once_ascii, utf8_text, NUL, SPACE,
};

verus! {

/// The kind of change that a status record reports.
#[derive(Debug, Clone, Copy, PartialEq, Eq, Structural)]
pub enum StatusCode {
    Modified,
    Added,
    Deleted,
    Renamed,
    Copied,
    Unmerged,
    Untracked,
    Ignored,
}

/// The kind named by a one-letter status code.
pub open spec fn code_kind(c: char) -> Option<StatusCode> {
    if c == 'M' {
        Some(StatusCode::Modified)
    } else if c == 'A' {
        Some(StatusCode::Added)
    } else if c == 'D' {
        Some(StatusCode::Deleted)
    } else if c == 'R' {
        Some(StatusCode::Renamed)
    } else if c == 'C' {
        Some(StatusCode::Copied)
    } else if c == 'U' {
        Some(StatusCode::Unmerged)
    } else if c == '?' {
        Some(StatusCode::Untracked)
    } else if c == '!' {
        Some(StatusCode::Ignored)
    } else {
        None
    }
}

impl StatusCode {
    /// The kind named by the letter `c`, if it names one.
    pub fn from_code(c: char) -> (r: Option<StatusCode>)
        ensures
            r == code_kind(c),
    {
        match c {
            'M' => Some(StatusCode::Modified),
            'A' => Some(StatusCode::Added),
            'D' => Some(StatusCode::Deleted),
            'R' => Some(StatusCode::Renamed),
            'C' => Some(StatusCode::Copied),
            'U' => Some(StatusCode::Unmerged),
            '?' => Some(StatusCode::Untracked),
            '!' => Some(StatusCode::Ignored),
            _ => None,
        }
    }

    /// The kind named by the one-letter code `s`; any other text is refused.
    pub fn from_str(s: &str) -> (r: Result<StatusCode, HudError>)
        ensures
            s@.len() == 1 && code_kind(s@[0]) is Some ==> r == Ok::<StatusCode, HudError>(
                code_kind(s@[0])->0,
            ),
            !(s@.len() == 1 && code_kind(s@[0]) is Some) ==> (r matches Err(HudError::Parse(m))
                && m@ == s@),
    {
        if s.unicode_len() == 1 {
            if let Some(k) = StatusCode::from_code(s.get_char(0)) {
                return Ok(k);
            }
        }
        Err(HudError::Parse(String::from_str(s)))
    }
}


/// The part of a status report that a change is listed under.
#[derive(Debug, Clone, Copy, PartialEq, Eq, Structural)]
pub enum Section {
    /// Changes recorded in the index.
    Staged,
    /// Changes to tracked files not recorded in the index.
    Unstaged,
    /// Files that are not tracked.
    Untracked,
}

/// An untracked file is listed as such; any other change by whether it is staged.
pub open spec fn section_for(status: StatusCode, staged: bool) -> Section {
    if status == StatusCode::Untracked {
        Section::Untracked
    } else if staged {
        Section::Staged
    } else {
        Section::Unstaged
    }
}

/// The part of a status report that a change of kind `status` is listed under.
pub fn section_of(status: StatusCode, staged: bool) -> (r: Section)
    ensures
        r == section_for(status, staged),
{
    match status {
        StatusCode::Untracked => Section::Untracked,
        _ => if staged {
            Section::Staged
        } else {
            Section::Unstaged
        },
    }
}

impl StatusCode {
    /// The words that a status report shows for the kind.
    pub fn label(&self) -> (r: &'static str)
        ensures
            *self == StatusCode::Modified ==> r@ == "modified"@,
            *self == StatusCode::Added ==> r@ == "new file"@,
            *self == StatusCode::Deleted ==> r@ == "deleted"@,
            *self == StatusCode::Renamed ==> r@ == "renamed"@,
            *self == StatusCode::Copied ==> r@ == "copied"@,
            *self == StatusCode::Unmerged ==> r@ == "unmerged"@,
            *self == StatusCode::Untracked ==> r@ == "untracked"@,
            *self == StatusCode::Ignored ==> r@ == "ignored"@,
    {
        match self {
            StatusCode::Modified => "modified",
            StatusCode::Added => "new file",
            StatusCode::Deleted => "deleted",
            StatusCode::Renamed => "renamed",
            StatusCode::Copied => "copied",
            StatusCode::Unmerged => "unmerged",
            StatusCode::Untracked => "untracked",
            StatusCode::Ignored => "ignored",
        }
    }
}

/// One change record of the status report, as a mathematical value.
pub struct StatusRecord {
    /// The path that the record reports, relative to the working root.
    pub path: Seq<char>,
    pub status: StatusCode,
    /// Whether the change is recorded in the index.
    pub staged: bool,
    /// The path before a rename or copy.
    pub original: Option<Seq<char>>,
}

/// A file-level change in the working copy.
#[derive(Debug, Clone)]
pub struct StatusEntry {
    /// The working root joined with `display_path`.
    pub abs_path: String,
    /// The path as the status report gives it.
    pub display_path: String,
    pub status: StatusCode,
    /// Whether the change is recorded in the index.
    pub staged: bool,
    /// The path before a rename or copy.
    pub original_path: Option<String>,
    /// Whether the file's content is binary; never set for a deletion.
    pub is_binary: bool,
}

/// The change records of one status report, in the order the report gives them.
#[derive(Debug, Clone)]
pub struct Status {
    pub entries: Vec<StatusEntry>,
}

pub open spec fn opt_view(o: Option<String>) -> Option<Seq<char>> {
    match o {
        Some(s) => Some(s@),
        None => None,
    }
}

impl StatusEntry {
    /// The record that this entry carries.
    pub open spec fn record(&self) -> StatusRecord {
        StatusRecord {
            path: self.display_path@,
            status: self.status,
            staged: self.staged,
            original: opt_view(self.original_path),
        }
    }
}

/// `s` is the one character `c`.
pub open spec fn is_char_token(s: Seq<char>, c: char) -> bool {
    s.len() == 1 && s[0] == c
}

/// What follows the first `n` space-separated fields of `s`, if it has that many.
pub open spec fn skip_fields(s: Seq<char>, n: nat) -> Option<Seq<char>>
    decreases n,
{
    if n == 0 {
        Some(s)
    } else {
        match split_first(s, ' ') {
            Some((_, rest)) => skip_fields(rest, (n - 1) as nat),
            None => None,
        }
    }
}

/// The first space-separated field of `s`.
pub open spec fn first_field(s: Seq<char>) -> Seq<char> {
    match split_first(s, ' ') {
        Some((head, _)) => head,
        None => s,
    }
}

/// An XY code reports a staged change unless its first letter is `.`.
pub open spec fn xy_staged(xy: Seq<char>) -> bool {
    xy.len() > 0 && xy[0] != '.'
}

/// The kind that an XY code reports: the letter Y, or X where Y is `.`.
pub open spec fn xy_kind(xy: Seq<char>) -> Option<StatusCode> {
    if xy.len() < 2 {
        None
    } else if xy[1] == '.' {
        code_kind(xy[0])
    } else {
        code_kind(xy[1])
    }
}

/// The number of fields before the path of an ordinary record: the XY
/// code, the submodule state, three file modes and two object names.
pub const ORDINARY_FIELDS: usize = 7;

/// The record that the fields of an ordinary entry describe, if well formed.
pub open spec fn parse_ordinary(fields: Seq<char>) -> Option<StatusRecord> {
    let xy = first_field(fields);
    match (skip_fields(fields, ORDINARY_FIELDS as nat), xy_kind(xy)) {
        (Some(path), Some(kind)) => Some(
            StatusRecord { path, status: kind, staged: xy_staged(xy), original: None },
        ),
        _ => None,
    }
}

/// The record that the fields of a rename or copy entry describe: a score,
/// then the original path and the new path, cut at the last space.
pub open spec fn parse_moved(fields: Seq<char>, kind: StatusCode) -> Option<StatusRecord> {
    match split_first(fields, ' ') {
        Some((_, paths)) => match split_last(paths, ' ') {
            Some((original, path)) => Some(
                StatusRecord { path, status: kind, staged: true, original: Some(original) },
            ),
            None => None,
        },
        None => None,
    }
}

/// What a status record means: `Ok(None)` for a record that is skipped,
/// `Ok(Some(_))` for a change, `Err(())` for a malformed record.
pub open spec fn parse_record(line: Seq<char>) -> Result<Option<StatusRecord>, ()> {
    if line.len() == 0 {
        Ok(None)
    } else {
        let tag = first_field(line);
        let rest = match split_first(line, ' ') {
            Some((_, rest)) => Some(rest),
            None => None,
        };
        if is_char_token(tag, '1') || is_char_token(tag, '2') {
            match rest {
                Some(fields) => match parse_ordinary(fields) {
                    Some(rec) => Ok(Some(rec)),
                    None => Err(()),
                },
                None => Err(()),
            }
        } else if is_char_token(tag, 'R') || is_char_token(tag, 'C') {
            let kind = if is_char_token(tag, 'R') {
                StatusCode::Renamed
            } else {
                StatusCode::Copied
            };
            match rest {
                Some(fields) => match parse_moved(fields, kind) {
                    Some(rec) => Ok(Some(rec)),
                    None => Err(()),
                },
                None => Err(()),
            }
        } else if is_char_token(tag, 'u') {
            match rest {
                Some(path) => Ok(
                    Some(
                        StatusRecord {
                            path,
                            status: StatusCode::Unmerged,
                            staged: false,
                            original: None,
                        },
                    ),
                ),
                None => Err(()),
            }
        } else if is_char_token(tag, '?') {
            match rest {
                Some(path) => Ok(
                    Some(
                        StatusRecord {
                            path,
                            status: StatusCode::Untracked,
                            staged: false,
                            original: None,
                        },
                    ),
                ),
                None => Err(()),
            }
        } else {
            Ok(None)
        }
    }
}

/// The records of a whole status report, whose records end in NUL: the
/// changes in report order, or the first malformed record.
pub open spec fn status_records(s: Seq<char>) -> Result<Seq<StatusRecord>, Seq<char>>
    decreases s.len(),
    via status_records_decreases
{
    match split_first(s, '\0') {
        Some((head, tail)) => prepend_record(head, status_records(tail)),
        None => prepend_record(s, Ok(Seq::empty())),
    }
}

#[via_fn]
proof fn status_records_decreases(s: Seq<char>) {
    lemma_split_first_parts(s, '\0');
}

/// The outcome of parsing `head` and then the records that follow it.
pub open spec fn prepend_record(
    head: Seq<char>,
    rest: Result<Seq<StatusRecord>, Seq<char>>,
) -> Result<Seq<StatusRecord>, Seq<char>> {
    match parse_record(head) {
        Err(_) => Err(head),
        Ok(None) => rest,
        Ok(Some(rec)) => match rest {
            Ok(recs) => Ok(seq![rec] + recs),
            Err(m) => Err(m),
        },
    }
}

/// `done` followed by the outcome `rest`.
pub open spec fn after_records(
    done: Seq<StatusRecord>,
    rest: Result<Seq<StatusRecord>, Seq<char>>,
) -> Result<Seq<StatusRecord>, Seq<char>> {
    match rest {
        Ok(recs) => Ok(done + recs),
        Err(m) => Err(m),
    }
}

proof fn lemma_after_record(
    done: Seq<StatusRecord>,
    rec: StatusRecord,
    rest: Result<Seq<StatusRecord>, Seq<char>>,
)
    ensures
        after_records(done, match rest {
            Ok(recs) => Ok(seq![rec] + recs),
            Err(m) => Err(m),
        }) == after_records(done.push(rec), rest),
{
    match rest {
        Ok(recs) => assert(done + (seq![rec] + recs) =~= done.push(rec) + recs),
        Err(_) => {},
    }
}

proof fn lemma_carry_push(
    root: Seq<char>,
    entries: Seq<StatusEntry>,
    recs: Seq<StatusRecord>,
    e: StatusEntry,
)
    requires
        entries_carry(root, entries, recs),
        e.abs_path@ == joined_path(root, e.record().path),
        !e.is_binary,
    ensures
        entries_carry(root, entries.push(e), recs.push(e.record())),
{
    let es = entries.push(e);
    let rs = recs.push(e.record());
    assert forall|i: int| 0 <= i < es.len() implies {
        &&& (#[trigger] es[i]).record() == rs[i]
        &&& es[i].abs_path@ == joined_path(root, rs[i].path)
        &&& !es[i].is_binary
    } by {
        if i < entries.len() {
            assert(es[i] == entries[i]);
        }
    }
}

/// `entries` carry `recs`, in order, each resolved against `root` and not
/// yet classified.
pub open spec fn entries_carry(
    root: Seq<char>,
    entries: Seq<StatusEntry>,
    recs: Seq<StatusRecord>,
) -> bool {
    &&& entries.len() == recs.len()
    &&& forall|i: int|
        0 <= i < entries.len() ==> {
            &&& (#[trigger] entries[i]).record() == recs[i]
            &&& entries[i].abs_path@ == joined_path(root, recs[i].path)
            &&& !entries[i].is_binary
        }
}

/// What collecting a status report gives: a failed command is refused with
/// its diagnostic output, output that is not text is refused, and otherwise
/// the report's records become entries or the first malformed one is refused.
pub open spec fn collected(
    root: Seq<char>,
    success: bool,
    stdout: Seq<u8>,
    stderr: Seq<u8>,
    r: Result<Vec<StatusEntry>, HudError>,
) -> bool {
    if !success {
        r matches Err(HudError::Collection(m)) && m@ == lossy_text_of(stderr)
    } else if !valid_utf8(stdout) {
        r matches Err(HudError::Collection(m)) && m@ == "status output is not valid UTF-8"@
    } else {
        match status_records(decode_utf8(stdout)) {
            Ok(recs) => r matches Ok(v) && entries_carry(root, v@, recs),
            Err(m) => r matches Err(HudError::Parse(e)) && e@ == m,
        }
    }
}

/// `rel` resolved against `root`: an absolute `rel` stands alone, otherwise
/// the two are joined by one separator.
pub open spec fn joined_path(root: Seq<char>, rel: Seq<char>) -> Seq<char> {
    if rel.len() > 0 && rel[0] == '/' {
        rel
    } else if root.len() == 0 {
        rel
    } else if root.last() == '/' {
        root + rel
    } else {
        root + seq!['/'] + rel
    }
}

/// A working copy, known by its root directory.
pub struct Repository {
    repo_root_path: String,
}

impl View for Repository {
    type V = Seq<char>;

    /// The root directory.
    closed spec fn view(&self) -> Seq<char> {
        self.repo_root_path@
    }
}

/// Whether `s` is the one character `c`.
fn is_char_str(s: &str, c: char) -> (r: bool)
    ensures
        r == is_char_token(s@, c),
{
    s.unicode_len() == 1 && s.get_char(0) == c
}

impl Repository {
    /// The working copy rooted at `root`.
    pub fn new(root: String) -> (r: Repository)
        ensures
            r@ == root@,
    {
        Repository { repo_root_path: root }
    }

    /// The root directory.
    pub fn root_path(&self) -> (r: &str)
        ensures
            r@ == self@,
    {
        self.repo_root_path.as_str()
    }

    /// `rel` resolved against the root.
    pub fn join(&self, rel: &str) -> (r: String)
        ensures
            r@ == joined_path(self@, rel@),
    {
        proof {
            reveal_strlit("/");
        }
        if !rel.is_empty() && rel.get_char(0) == '/' {
            return String::from_str(rel);
        }
        let root = self.repo_root_path.as_str();
        let n = root.unicode_len();
        if n == 0 {
            return String::from_str(rel);
        }
        let mut r = String::from_str(root);
        if root.get_char(n - 1) != '/' {
            r.append("/");
        }
        r.append(rel);
        r
    }

    fn entry(&self, rec_path: &str, status: StatusCode, staged: bool, original: Option<String>) -> (e: StatusEntry)
        ensures
            e.display_path@ == rec_path@,
            e.abs_path@ == joined_path(self@, rec_path@),
            e.status == status,
            e.staged == staged,
            opt_view(e.original_path) == opt_view(original),
            !e.is_binary,
    {
        StatusEntry {
            abs_path: self.join(rec_path),
            display_path: String::from_str(rec_path),
            status,
            staged,
            original_path: original,
            is_binary: false,
        }
    }

    /// Parses one NUL-free record of the status report: a change, a record
    /// that carries none (`Ok(None)`), or a malformed record, refused with
    /// the record itself.
    pub fn parse_status_line(&self, line: &str) -> (r: Result<Option<StatusEntry>, HudError>)
        ensures
            match parse_record(line@) {
                Ok(None) => r matches Ok(None),
                Ok(Some(rec)) => r matches Ok(Some(e)) && e.record() == rec && e.abs_path@
                    == joined_path(self@, rec.path) && !e.is_binary,
                Err(_) => r matches Err(HudError::Parse(m)) && m@ == line@,
            },
    {
        if line.is_empty() {
            return Ok(None);
        }
        let (tag, rest) = match split_once_ascii(line, SPACE) {
            Some((tag, rest)) => (tag, Some(rest)),
            None => (line, None),
        };
        let parsed = if is_char_str(tag, '1') || is_char_str(tag, '2') {
            match rest {
                Some(fields) => match parse_ordinary_fields(fields) {
                    Some((path, status, staged)) => Some(self.entry(path, status, staged, None)),
                    None => None,
                },
                None => None,
            }
        } else if is_char_str(tag, 'R') || is_char_str(tag, 'C') {
            let kind = if is_char_str(tag, 'R') {
                StatusCode::Renamed
            } else {
                StatusCode::Copied
            };
            match rest {
                Some(fields) => match parse_moved_fields(fields) {
                    Some((original, path)) => Some(
                        self.entry(path, kind, true, Some(String::from_str(original))),
                    ),
                    None => None,
                },
                None => None,
            }
        } else if is_char_str(tag, 'u') {
            match rest {
                Some(path) => Some(self.entry(path, StatusCode::Unmerged, false, None)),
                None => None,
            }
        } else if is_char_str(tag, '?') {
            match rest {
                Some(path) => Some(self.entry(path, StatusCode::Untracked, false, None)),
                None => None,
            }
        } else {
            return Ok(None);
        };
        match parsed {
            Some(e) => Ok(Some(e)),
            None => Err(HudError::Parse(String::from_str(line))),
        }
    }

    /// Collects the entries of a status report from the outcome of the status
    /// command: whether it succeeded, its standard output and its error output.
    pub fn collect_entries(&self, success: bool, stdout: &[u8], stderr: &[u8]) -> (r: Result<
        Vec<StatusEntry>,
        HudError,
    >)
        ensures
            collected(self@, success, stdout@, stderr@, r),
    {
        if !success {
            return Err(HudError::Collection(lossy_text(stderr)));
        }
        let text = match utf8_text(stdout) {
            Some(text) => text,
            None => {
                proof {
                    reveal_strlit("status output is not valid UTF-8");
                }
                return Err(HudError::Collection(String::from_str("status output is not valid UTF-8")));
            },
        };
        let mut entries: Vec<StatusEntry> = Vec::new();
        let mut rest = text;
        let ghost all = text@;
        let ghost mut done: Seq<StatusRecord> = Seq::empty();
        proof {
            assert(after_records(done, status_records(rest@)) == status_records(all)) by {
                match status_records(all) {
                    Ok(recs) => assert(done + recs =~= recs),
                    Err(_) => {},
                }
            }
        }
        loop
            invariant
                all == decode_utf8(stdout@),
                success,
                valid_utf8(stdout@),
                entries_carry(self@, entries@, done),
                status_records(all) == after_records(done, status_records(rest@)),
            decreases rest@.len(),
        {
            let ghost before = rest@;
            let (head, tail, last) = match split_once_ascii(rest, NUL) {
                Some((head, tail)) => (head, tail, false),
                None => (rest, rest, true),
            };
            proof {
                lemma_split_first_parts(before, '\0');
                if last {
                    assert(status_records(before) == prepend_record(before, Ok(Seq::empty())));
                } else {
                    assert(status_records(before) == prepend_record(head@, status_records(tail@)));
                }
            }
            let ghost tail_records = if last {
                Ok(Seq::<StatusRecord>::empty())
            } else {
                status_records(tail@)
            };
            match self.parse_status_line(head) {
                Err(e) => {
                    return Err(e);
                },
                Ok(None) => {},
                Ok(Some(e)) => {
                    let ghost old_done = done;
                    let ghost old_entries = entries@;
                    entries.push(e);
                    proof {
                        done = done.push(e.record());
                        lemma_after_record(old_done, e.record(), tail_records);
                        lemma_carry_push(self@, old_entries, old_done, e);
                        assert(entries@ == old_entries.push(e));
                    }
                },
            }
            if last {
                proof {
                    assert(done + Seq::<StatusRecord>::empty() =~= done);
                }
                return Ok(entries);
            }
            rest = tail;
        }
    }
}

/// The path, kind and staged flag of an ordinary record's fields.
fn parse_ordinary_fields(fields: &str) -> (r: Option<(&str, StatusCode, bool)>)
    ensures
        match parse_ordinary(fields@) {
            Some(rec) => r matches Some((path, kind, staged)) && path@ == rec.path && kind
                == rec.status && staged == rec.staged,
            None => r is None,
        },
{
    let xy = match split_once_ascii(fields, SPACE) {
        Some((xy, _)) => xy,
        None => fields,
    };
    let mut rest = fields;
    let mut i: usize = 0;
    while i < ORDINARY_FIELDS
        invariant
            0 <= i <= ORDINARY_FIELDS,
            skip_fields(fields@, ORDINARY_FIELDS as nat) == skip_fields(
                rest@,
                (ORDINARY_FIELDS - i) as nat,
            ),
        decreases ORDINARY_FIELDS - i,
    {
        match split_once_ascii(rest, SPACE) {
            Some((_, tail)) => {
                rest = tail;
            },
            None => {
                return None;
            },
        }
        i += 1;
    }
    let n = xy.unicode_len();
    if n < 2 {
        return None;
    }
    let x = xy.get_char(0);
    let y = xy.get_char(1);
    let code = if y == '.' {
        x
    } else {
        y
    };
    match StatusCode::from_code(code) {
        Some(kind) => Some((rest, kind, x != '.')),
        None => None,
    }
}

/// The original and new path of a rename or copy record's fields.
fn parse_moved_fields(fields: &str) -> (r: Option<(&str, &str)>)
    ensures
        match parse_moved(fields@, StatusCode::Renamed) {
            Some(rec) => r matches Some((original, path)) && rec.original == Some(original@)
                && path@ == rec.path,
            None => r is None,
        },
{
    match split_once_ascii(fields, SPACE) {
        Some((_, paths)) => rsplit_once_ascii(paths, SPACE),
        None => None,
    }
}


/// `fields`, each followed by one space, then `tail`.
pub open spec fn spaced(fields: Seq<Seq<char>>, tail: Seq<char>) -> Seq<char>
    decreases fields.len(),
{
    if fields.len() == 0 {
        tail
    } else {
        fields[0] + seq![' '] + spaced(fields.drop_first(), tail)
    }
}

/// No field holds a space.
pub open spec fn no_spaces(fields: Seq<Seq<char>>) -> bool {
    forall|i: int| 0 <= i < fields.len() ==> !(#[trigger] fields[i]).contains(' ')
}

/// Cutting `a`, `c` and `b` at the first `c`, where `a` holds no `c`, gives `a` and `b`.
proof fn lemma_split_joined(a: Seq<char>, b: Seq<char>, c: char)
    requires
        !a.contains(c),
    ensures
        split_first(a + seq![c] + b, c) == Some((a, b)),
{
    let s = a + seq![c] + b;
    assert forall|j: int| 0 <= j < a.len() implies s[j] != c by {
        assert(s[j] == a[j]);
    }
    lemma_split_first_at(s, c, a.len() as int);
    assert(s.take(a.len() as int) =~= a);
    assert(s.skip(a.len() as int + 1) =~= b);
}

/// Skipping the space-separated fields finds the tail, whatever it holds.
proof fn lemma_skip_spaced(fields: Seq<Seq<char>>, tail: Seq<char>)
    requires
        no_spaces(fields),
    ensures
        skip_fields(spaced(fields, tail), fields.len()) == Some(tail),
        fields.len() > 0 ==> first_field(spaced(fields, tail)) == fields[0],
    decreases fields.len(),
{
    if fields.len() > 0 {
        let rest = fields.drop_first();
        assert(no_spaces(rest)) by {
            assert forall|i: int| 0 <= i < rest.len() implies !(#[trigger] rest[i]).contains(' ') by {
                assert(rest[i] == fields[i + 1]);
            }
        }
        lemma_skip_spaced(rest, tail);
        assert(!fields[0].contains(' '));
        lemma_split_joined(fields[0], spaced(rest, tail), ' ');
    }
}

/// An ordinary record: its tag, the XY code and six placeholder fields
/// without spaces, then the path, which may hold spaces, yields the path
/// unchanged with the kind and staged flag that the XY code gives. With
/// `.M` that is an unstaged modification, with `A.` a staged addition.
pub proof fn lemma_ordinary_record(
    tag: char,
    xy: Seq<char>,
    placeholders: Seq<Seq<char>>,
    path: Seq<char>,
)
    requires
        tag == '1' || tag == '2',
        placeholders.len() + 1 == ORDINARY_FIELDS,
        no_spaces(seq![xy] + placeholders),
        xy_kind(xy) is Some,
    ensures
        parse_record(seq![tag, ' '] + spaced(seq![xy] + placeholders, path)) == Ok::<
            Option<StatusRecord>,
            (),
        >(Some(StatusRecord { path, status: xy_kind(xy)->0, staged: xy_staged(xy), original: None })),
        xy_kind(seq!['.', 'M']) == Some(StatusCode::Modified) && !xy_staged(seq!['.', 'M']),
        xy_kind(seq!['A', '.']) == Some(StatusCode::Added) && xy_staged(seq!['A', '.']),
{
    let fields = seq![xy] + placeholders;
    let body = spaced(fields, path);
    lemma_skip_spaced(fields, path);
    assert(fields[0] == xy);
    assert(!seq![tag].contains(' ')) by {
        assert(seq![tag][0] == tag);
    }
    lemma_split_joined(seq![tag], body, ' ');
    assert(seq![tag, ' '] + body =~= seq![tag] + seq![' '] + body);
}

/// A rename or copy record: its tag, a score and the original path without
/// spaces, then the new path without spaces, yields both paths, staged.
pub proof fn lemma_moved_record(tag: char, score: Seq<char>, original: Seq<char>, path: Seq<char>)
    requires
        tag == 'R' || tag == 'C',
        !score.contains(' '),
        !path.contains(' '),
    ensures
        parse_record(seq![tag, ' '] + score + seq![' '] + original + seq![' '] + path) == Ok::<
            Option<StatusRecord>,
            (),
        >(
            Some(
                StatusRecord {
                    path,
                    status: if tag == 'R' {
                        StatusCode::Renamed
                    } else {
                        StatusCode::Copied
                    },
                    staged: true,
                    original: Some(original),
                },
            ),
        ),
{
    let paths = original + seq![' '] + path;
    let fields = score + seq![' '] + paths;
    let line = seq![tag, ' '] + score + seq![' '] + original + seq![' '] + path;
    assert(!seq![tag].contains(' ')) by {
        assert(seq![tag][0] == tag);
    }
    lemma_split_joined(seq![tag], fields, ' ');
    assert(line =~= seq![tag] + seq![' '] + fields);
    lemma_split_joined(score, paths, ' ');
    let k = original.len() as int;
    assert forall|j: int| k < j < paths.len() implies paths[j] != ' ' by {
        assert(paths[j] == path[j - k - 1]);
    }
    lemma_split_last_at(paths, ' ', k);
    assert(paths.take(k) =~= original);
    assert(paths.skip(k + 1) =~= path);
}

/// An untracked (`?`) or unmerged (`u`) record yields the rest of the record
/// as its path, unchanged, spaces included, and not staged.
pub proof fn lemma_path_record(tag: char, path: Seq<char>)
    requires
        tag == '?' || tag == 'u',
    ensures
        parse_record(seq![tag, ' '] + path) == Ok::<Option<StatusRecord>, ()>(
            Some(
                StatusRecord {
                    path,
                    status: if tag == '?' {
                        StatusCode::Untracked
                    } else {
                        StatusCode::Unmerged
                    },
                    staged: false,
                    original: None,
                },
            ),
        ),
{
    assert(!seq![tag].contains(' ')) by {
        assert(seq![tag][0] == tag);
    }
    lemma_split_joined(seq![tag], path, ' ');
    assert(seq![tag, ' '] + path =~= seq![tag] + seq![' '] + path);
}

/// Collecting is a function of the working root and the status command's
/// outcome: the same report, collected twice, gives the same entries in the
/// same order, or the same refusal.
pub proof fn lemma_collection_deterministic(
    root: Seq<char>,
    success: bool,
    stdout: Seq<u8>,
    stderr: Seq<u8>,
    first: Result<Vec<StatusEntry>, HudError>,
    second: Result<Vec<StatusEntry>, HudError>,
)
    requires
        collected(root, success, stdout, stderr, first),
        collected(root, success, stdout, stderr, second),
    ensures
        first is Ok <==> second is Ok,
        first matches Ok(a) ==> second matches Ok(b) && a@.len() == b@.len() && forall|i: int|
            0 <= i < a@.len() ==> (#[trigger] a@[i]).record() == b@[i].record() && a@[i].abs_path@
                == b@[i].abs_path@ && a@[i].is_binary == b@[i].is_binary,
        first matches Err(e) ==> second matches Err(f) && e.meaning() == f.meaning(),
{
    if success && valid_utf8(stdout) {
        match status_records(decode_utf8(stdout)) {
            Ok(recs) => {
                let a = first->Ok_0;
                let b = second->Ok_0;
                assert forall|i: int| 0 <= i < a@.len() implies (#[trigger] a@[i]).record()
                    == b@[i].record() && a@[i].abs_path@ == b@[i].abs_path@ && a@[i].is_binary
                    == b@[i].is_binary by {
                    assert(a@[i].record() == recs[i]);
                    assert(b@[i].record() == recs[i]);
                }
            },
            Err(m) => {},
        }
    }
}

} // verus!
